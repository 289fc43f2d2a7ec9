use vstd::prelude::*;

use crate::math_util::VecI2;

verus! {

/// Which of its four neighbours a line vertex joins.
#[derive(Default, Debug, PartialEq, Eq, Clone, Copy, Structural)]
pub struct NodeAttachements {
    pub up: bool,
    pub left: bool,
    pub right: bool,
    pub down: bool,
}

/// A direction a vertex can join.
#[derive(Debug, PartialEq, Eq, Clone, Copy, Structural)]
pub enum Side {
    Up,
    Down,
    Left,
    Right,
}

pub open spec fn no_attachments() -> NodeAttachements {
    NodeAttachements { up: false, left: false, right: false, down: false }
}

/// A vertex that also joins `side`.
pub open spec fn joined(n: NodeAttachements, side: Side) -> NodeAttachements {
    match side {
        Side::Up => NodeAttachements { up: true, ..n },
        Side::Down => NodeAttachements { down: true, ..n },
        Side::Left => NodeAttachements { left: true, ..n },
        Side::Right => NodeAttachements { right: true, ..n },
    }
}

/// The vertices a list of entries describes, a later entry for a point
/// replacing an earlier one.
pub open spec fn vertex_map(s: Seq<(VecI2, NodeAttachements)>) -> Map<VecI2, NodeAttachements>
    decreases s.len(),
{
    if s.len() == 0 {
        Map::empty()
    } else {
        vertex_map(s.drop_last()).insert(s.last().0, s.last().1)
    }
}

/// A vertex as the map holds it, or one joining nothing.
pub open spec fn vertex_or_none(m: Map<VecI2, NodeAttachements>, p: VecI2) -> NodeAttachements {
    if m.contains_key(p) {
        m[p]
    } else {
        no_attachments()
    }
}

/// What adding the straight line from `p1` to `p2` makes of the vertices: on
/// a vertical line the end with the larger `y` joins down and the other up,
/// on a horizontal one the end with the larger `x` joins right and the other
/// left.
pub open spec fn with_line(m: Map<VecI2, NodeAttachements>, p1: VecI2, p2: VecI2) -> Map<VecI2, NodeAttachements> {
    let (s1, s2) = if p1.x == p2.x {
        if p1.y > p2.y {
            (Side::Down, Side::Up)
        } else {
            (Side::Up, Side::Down)
        }
    } else {
        if p1.x > p2.x {
            (Side::Right, Side::Left)
        } else {
            (Side::Left, Side::Right)
        }
    };
    let m1 = m.insert(p1, joined(vertex_or_none(m, p1), s1));
    m1.insert(p2, joined(vertex_or_none(m1, p2), s2))
}

/// Lines drawn around areas, with the vertices where they meet.
#[derive(Debug, Default, Clone)]
pub struct BoxedArea {
    pub vertices: Vec<(VecI2, NodeAttachements)>,
    pub lines: Vec<(VecI2, VecI2, bool)>,
}

/// Entries after `i` that do not name `p` leave its vertex as the first `i`
/// entries give it.
proof fn lemma_vertex_prefix(s: Seq<(VecI2, NodeAttachements)>, p: VecI2, i: int)
    requires
        0 <= i <= s.len(),
        forall|j: int| i <= j < s.len() ==> #[trigger] s[j].0 != p,
    ensures
        vertex_map(s).contains_key(p) == vertex_map(s.take(i)).contains_key(p),
        vertex_map(s).contains_key(p) ==> vertex_map(s)[p] == vertex_map(s.take(i))[p],
    decreases s.len() - i,
{
    if i < s.len() {
        assert(s.drop_last().take(i) =~= s.take(i));
        lemma_vertex_prefix(s.drop_last(), p, i);
    } else {
        assert(s.take(i) =~= s);
    }
}

impl BoxedArea {
    pub open spec fn vertices_view(&self) -> Map<VecI2, NodeAttachements> {
        vertex_map(self.vertices@)
    }

    /// The vertex at `p`, or one joining nothing.
    fn vertex(&self, p: VecI2) -> (r: NodeAttachements)
        ensures
            r == vertex_or_none(self.vertices_view(), p),
    {
        let mut i = self.vertices.len();
        while i > 0
            invariant
                i <= self.vertices@.len(),
                forall|j: int| i <= j < self.vertices@.len() ==> #[trigger] self.vertices@[j].0 != p,
            decreases i,
        {
            if self.vertices[i - 1].0 == p {
                proof {
                    lemma_vertex_prefix(self.vertices@, p, i as int);
                    assert(self.vertices@.take(i as int).drop_last() =~= self.vertices@.take(i - 1));
                }
                return self.vertices[i - 1].1;
            }
            i = i - 1;
        }
        proof {
            lemma_vertex_prefix(self.vertices@, p, 0);
            assert(self.vertices@.take(0) =~= Seq::<(VecI2, NodeAttachements)>::empty());
        }
        NodeAttachements { up: false, left: false, right: false, down: false }
    }

    /// Makes the vertex at `p` join `side` too.
    fn join(&mut self, p: VecI2, side: Side)
        ensures
            final(self).vertices_view() == old(self).vertices_view().insert(
                p,
                joined(vertex_or_none(old(self).vertices_view(), p), side),
            ),
            final(self).lines == old(self).lines,
    {
        let mut n = self.vertex(p);
        match side {
            Side::Up => n.up = true,
            Side::Down => n.down = true,
            Side::Left => n.left = true,
            Side::Right => n.right = true,
        }
        self.vertices.push((p, n));
        proof {
            assert(self.vertices@.drop_last() =~= old(self).vertices@);
        }
    }

    /// Adds the straight line from `p1` to `p2` and joins its ends
    /// ([`with_line`]); the line is recorded with whether it is horizontal.
    pub fn add_line(&mut self, p1: VecI2, p2: VecI2)
        requires
            p1 != p2,
            p1.x == p2.x || p1.y == p2.y,
        ensures
            final(self).vertices_view() == with_line(old(self).vertices_view(), p1, p2),
            final(self).lines@ == old(self).lines@.push((p1, p2, p1.x != p2.x)),
    {
        if p1.x == p2.x {
            if p1.y > p2.y {
                self.join(p1, Side::Down);
                self.join(p2, Side::Up);
            } else {
                self.join(p1, Side::Up);
                self.join(p2, Side::Down);
            }
            self.lines.push((p1, p2, false));
        } else {
            if p1.x > p2.x {
                self.join(p1, Side::Right);
                self.join(p2, Side::Left);
            } else {
                self.join(p1, Side::Left);
                self.join(p2, Side::Right);
            }
            self.lines.push((p1, p2, true));
        }
    }
}

} // verus!
