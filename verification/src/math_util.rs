use vstd::prelude::*;

verus! {

/// A point or a size on the terminal grid.
#[derive(Clone, Copy, PartialEq, Eq, Debug, Default, Structural)]
pub struct VecI2 {
    pub x: u16,
    pub y: u16,
}

impl VecI2 {
    pub fn new(x: u16, y: u16) -> (r: Self)
        ensures
            r == (VecI2 { x, y }),
    {
        VecI2 { x, y }
    }
}

impl core::ops::Add for VecI2 {
    type Output = Self;

    /// Adds coordinate by coordinate, saturating.
    fn add(self, rhs: Self) -> (r: Self::Output)
        ensures
            r == (VecI2 { x: self.x.saturating_add(rhs.x), y: self.y.saturating_add(rhs.y) }),
    {
        VecI2 { x: self.x.saturating_add(rhs.x), y: self.y.saturating_add(rhs.y) }
    }
}

impl core::ops::Sub for VecI2 {
    type Output = Self;

    /// Subtracts coordinate by coordinate, saturating at 0.
    fn sub(self, rhs: Self) -> (r: Self::Output)
        ensures
            r == (VecI2 { x: self.x.saturating_sub(rhs.x), y: self.y.saturating_sub(rhs.y) }),
    {
        VecI2 { x: self.x.saturating_sub(rhs.x), y: self.y.saturating_sub(rhs.y) }
    }
}

impl vstd::std_specs::ops::AddSpecImpl for VecI2 {
    open spec fn obeys_add_spec() -> bool {
        true
    }

    open spec fn add_req(self, rhs: VecI2) -> bool {
        true
    }

    open spec fn add_spec(self, rhs: VecI2) -> VecI2 {
        VecI2 { x: self.x.saturating_add(rhs.x), y: self.y.saturating_add(rhs.y) }
    }
}

impl vstd::std_specs::ops::SubSpecImpl for VecI2 {
    open spec fn obeys_sub_spec() -> bool {
        true
    }

    open spec fn sub_req(self, rhs: VecI2) -> bool {
        true
    }

    open spec fn sub_spec(self, rhs: VecI2) -> VecI2 {
        VecI2 { x: self.x.saturating_sub(rhs.x), y: self.y.saturating_sub(rhs.y) }
    }
}

/// A rectangle of terminal cells: its top left corner and its size.
#[derive(Clone, Copy, PartialEq, Eq, Debug, Default, Structural)]
pub struct Rect {
    pub x: u16,
    pub y: u16,
    pub width: u16,
    pub height: u16,
}

/// The larger of two coordinates.
pub open spec fn max16(a: u16, b: u16) -> u16 {
    if a >= b {
        a
    } else {
        b
    }
}

/// The smaller of two coordinates.
pub open spec fn min16(a: u16, b: u16) -> u16 {
    if a <= b {
        a
    } else {
        b
    }
}

fn max_u16(a: u16, b: u16) -> (r: u16)
    ensures
        r == max16(a, b),
{
    if a >= b {
        a
    } else {
        b
    }
}

fn min_u16(a: u16, b: u16) -> (r: u16)
    ensures
        r == min16(a, b),
{
    if a <= b {
        a
    } else {
        b
    }
}

impl Rect {
    /// The right edge, one past the last column, saturating.
    pub open spec fn right(&self) -> u16 {
        self.x.saturating_add(self.width)
    }

    /// The bottom edge, one past the last row, saturating.
    pub open spec fn bottom(&self) -> u16 {
        self.y.saturating_add(self.height)
    }

    /// Moves the top left corner by `t`, shrinking the size by as much.
    pub fn add_top_left(&mut self, t: VecI2)
        ensures
            *final(self) == (Rect {
                x: old(self).x.saturating_add(t.x),
                y: old(self).y.saturating_add(t.y),
                width: old(self).width.saturating_sub(t.x),
                height: old(self).height.saturating_sub(t.y),
            }),
    {
        self.x = self.x.saturating_add(t.x);
        self.y = self.y.saturating_add(t.y);
        self.width = self.width.saturating_sub(t.x);
        self.height = self.height.saturating_sub(t.y);
    }

    /// Moves the top left corner back by `t`, growing the size by as much.
    pub fn sub_top_left(&mut self, t: VecI2)
        ensures
            *final(self) == (Rect {
                x: old(self).x.saturating_sub(t.x),
                y: old(self).y.saturating_sub(t.y),
                width: old(self).width.saturating_add(t.x),
                height: old(self).height.saturating_add(t.y),
            }),
    {
        self.x = self.x.saturating_sub(t.x);
        self.y = self.y.saturating_sub(t.y);
        self.width = self.width.saturating_add(t.x);
        self.height = self.height.saturating_add(t.y);
    }

    /// Grows the size by `t`.
    pub fn add_bottom_right(&mut self, t: VecI2)
        ensures
            *final(self) == (Rect {
                width: old(self).width.saturating_add(t.x),
                height: old(self).height.saturating_add(t.y),
                ..*old(self)
            }),
    {
        self.width = self.width.saturating_add(t.x);
        self.height = self.height.saturating_add(t.y);
    }

    /// Shrinks the size by `t`.
    pub fn sub_bottom_right(&mut self, t: VecI2)
        ensures
            *final(self) == (Rect {
                width: old(self).width.saturating_sub(t.x),
                height: old(self).height.saturating_sub(t.y),
                ..*old(self)
            }),
    {
        self.width = self.width.saturating_sub(t.x);
        self.height = self.height.saturating_sub(t.y);
    }

    /// Grows to the smallest rectangle holding both, by their saturated edges.
    pub fn expand_to_include(&mut self, other: &Self)
        ensures
            final(self).x == min16(old(self).x, other.x),
            final(self).y == min16(old(self).y, other.y),
            final(self).x + final(self).width == max16(old(self).right(), other.right()),
            final(self).y + final(self).height == max16(old(self).bottom(), other.bottom()),
            *final(self) == including(*old(self), *other),
    {
        let sx2 = self.x.saturating_add(self.width);
        let sy2 = self.y.saturating_add(self.height);
        let ox2 = other.x.saturating_add(other.width);
        let oy2 = other.y.saturating_add(other.height);
        self.x = min_u16(self.x, other.x);
        self.y = min_u16(self.y, other.y);
        let sx2 = max_u16(sx2, ox2);
        let sy2 = max_u16(sy2, oy2);
        self.width = sx2 - self.x;
        self.height = sy2 - self.y;
    }

    /// Whether the two overlap, as this test decides it: both non-empty, their
    /// column ranges touching, and neither bottom edge below the other's top.
    pub fn overlap(&self, other: &Self) -> (r: bool)
        ensures
            r == (self.height != 0 && self.width != 0 && other.width != 0 && other.height != 0
                && self.x <= other.right() && other.x <= self.right() && self.bottom() <= other.y
                && other.bottom() <= self.y),
    {
        if self.height == 0 || self.width == 0 || other.width == 0 || other.height == 0 {
            return false;
        }
        let sx2 = self.x.saturating_add(self.width);
        let sy2 = self.y.saturating_add(self.height);
        let ox2 = other.x.saturating_add(other.width);
        let oy2 = other.y.saturating_add(other.height);
        if self.x > ox2 || other.x > sx2 {
            return false;
        }
        if sy2 > other.y || oy2 > self.y {
            return false;
        }
        true
    }

    /// Whether the cell at `column`, `row` lies inside.
    pub fn contains(&self, column: u16, row: u16) -> (r: bool)
        ensures
            r == (self.x <= column && self.right() > column && self.y <= row && self.bottom()
                > row),
    {
        self.x <= column && (self.x.saturating_add(self.width)) > column && self.y <= row && (
        self.y.saturating_add(self.height)) > row
    }

    pub fn top_left(&self) -> (r: VecI2)
        ensures
            r == (VecI2 { x: self.x, y: self.y }),
    {
        VecI2 { x: self.x, y: self.y }
    }

    pub fn top_right(&self) -> (r: VecI2)
        ensures
            r == (VecI2 { x: self.right(), y: self.y }),
    {
        VecI2 { x: self.x.saturating_add(self.width), y: self.y }
    }

    /// The last column of the top row.
    pub fn top_right_inner(&self) -> (r: VecI2)
        ensures
            r == (VecI2 { x: self.right().saturating_sub(1), y: self.y }),
    {
        VecI2 { x: self.x.saturating_add(self.width).saturating_sub(1), y: self.y }
    }

    pub fn bottom_left(&self) -> (r: VecI2)
        ensures
            r == (VecI2 { x: self.x, y: self.bottom() }),
    {
        VecI2 { x: self.x, y: self.y.saturating_add(self.height) }
    }

    /// The first column of the last row.
    pub fn bottom_left_inner(&self) -> (r: VecI2)
        ensures
            r == (VecI2 { x: self.x, y: self.bottom().saturating_sub(1) }),
    {
        VecI2 { x: self.x, y: self.y.saturating_add(self.height).saturating_sub(1) }
    }

    pub fn bottom_right(&self) -> (r: VecI2)
        ensures
            r == (VecI2 { x: self.right(), y: self.bottom() }),
    {
        VecI2 { x: self.x.saturating_add(self.width), y: self.y.saturating_add(self.height) }
    }

    /// The last cell of the last row.
    pub fn bottom_right_inner(&self) -> (r: VecI2)
        ensures
            r == (VecI2 { x: self.right().saturating_sub(1), y: self.bottom().saturating_sub(1) }),
    {
        VecI2 {
            x: self.x.saturating_add(self.width).saturating_sub(1),
            y: self.y.saturating_add(self.height).saturating_sub(1),
        }
    }

    pub fn new_pos_size(pos: VecI2, size: VecI2) -> (r: Rect)
        ensures
            r == (Rect { x: pos.x, y: pos.y, width: size.x, height: size.y }),
    {
        Rect { x: pos.x, y: pos.y, width: size.x, height: size.y }
    }

    /// The rectangle between two corners; empty when they are out of order.
    pub fn new_pos_pos(top_left: VecI2, bottom_right: VecI2) -> (r: Rect)
        ensures
            r == (Rect {
                x: top_left.x,
                y: top_left.y,
                width: bottom_right.x.saturating_sub(top_left.x),
                height: bottom_right.y.saturating_sub(top_left.y),
            }),
    {
        let width = bottom_right.x.saturating_sub(top_left.x);
        let height = bottom_right.y.saturating_sub(top_left.y);
        Rect { x: top_left.x, y: top_left.y, width, height }
    }

    /// Moves the top left corner to `cursor`, keeping the bottom right one.
    pub fn move_top_left_to(&mut self, cursor: VecI2)
        ensures
            *final(self) == (Rect {
                x: cursor.x,
                y: cursor.y,
                width: old(self).right().saturating_sub(cursor.x),
                height: old(self).bottom().saturating_sub(cursor.y),
            }),
    {
        let bottom_right = self.bottom_right();
        self.x = cursor.x;
        self.y = cursor.y;
        self.width = bottom_right.x.saturating_sub(cursor.x);
        self.height = bottom_right.y.saturating_sub(cursor.y);
    }

    /// Moves the top right corner, one column past the last, to `corner`,
    /// keeping the bottom left one.
    pub fn move_top_right_to(&mut self, corner: VecI2)
        ensures
            *final(self) == top_right_to(*old(self), corner),
    {
        let bottom = self.y.saturating_add(self.height);
        self.y = corner.y;
        self.width = corner.x.saturating_sub(self.x);
        self.height = bottom.saturating_sub(corner.y);
    }

    /// Moves the bottom left corner, one row past the last, to `corner`,
    /// keeping the top right one.
    pub fn move_bottom_left_to(&mut self, corner: VecI2)
        ensures
            *final(self) == bottom_left_to(*old(self), corner),
    {
        let right = self.x.saturating_add(self.width);
        self.x = corner.x;
        self.width = right.saturating_sub(corner.x);
        self.height = corner.y.saturating_sub(self.y);
    }

    /// Moves the bottom right corner, one past the last cell, to `corner`,
    /// keeping the top left one.
    pub fn move_bottom_right_to(&mut self, corner: VecI2)
        ensures
            *final(self) == bottom_right_to(*old(self), corner),
    {
        self.width = corner.x.saturating_sub(self.x);
        self.height = corner.y.saturating_sub(self.y);
    }

    pub fn size(&self) -> (r: VecI2)
        ensures
            r == (VecI2 { x: self.width, y: self.height }),
    {
        VecI2 { x: self.width, y: self.height }
    }

    /// Moves the corner out by `amount` and grows the size by twice as much.
    pub fn expand_evenly(&mut self, amount: u16)
        ensures
            *final(self) == (Rect {
                x: old(self).x.saturating_sub(amount),
                y: old(self).y.saturating_sub(amount),
                width: old(self).width.saturating_add(amount).saturating_add(amount),
                height: old(self).height.saturating_add(amount).saturating_add(amount),
            }),
    {
        self.x = self.x.saturating_sub(amount);
        self.y = self.y.saturating_sub(amount);
        self.width = self.width.saturating_add(amount);
        self.width = self.width.saturating_add(amount);
        self.height = self.height.saturating_add(amount);
        self.height = self.height.saturating_add(amount);
    }

    /// Moves the corner in by `amount` and shrinks the size by twice as much.
    pub fn shrink_evenly(&mut self, amount: u16)
        ensures
            *final(self) == (Rect {
                x: old(self).x.saturating_add(amount),
                y: old(self).y.saturating_add(amount),
                width: old(self).width.saturating_sub(amount).saturating_sub(amount),
                height: old(self).height.saturating_sub(amount).saturating_sub(amount),
            }),
    {
        self.x = self.x.saturating_add(amount);
        self.y = self.y.saturating_add(amount);
        self.width = self.width.saturating_sub(amount);
        self.width = self.width.saturating_sub(amount);
        self.height = self.height.saturating_sub(amount);
        self.height = self.height.saturating_sub(amount);
    }

    /// Cuts the rectangle down to the part inside `max_rect` ([`shrunk_within`]).
    pub fn shrink_to_fit_within(&mut self, max_rect: Rect)
        ensures
            *final(self) == shrunk_within(*old(self), max_rect),
    {
        let mut corner = self.bottom_right();
        let max_corner = max_rect.bottom_right();
        self.x = max_u16(self.x, max_rect.x);
        self.y = max_u16(self.y, max_rect.y);
        corner.x = min_u16(corner.x, max_corner.x);
        corner.y = min_u16(corner.y, max_corner.y);
        self.width = corner.x.saturating_sub(self.x);
        self.height = corner.y.saturating_sub(self.y);
    }
}

/// The smallest rectangle holding `a` and `b`, by their saturated edges.
pub open spec fn including(a: Rect, b: Rect) -> Rect {
    Rect {
        x: min16(a.x, b.x),
        y: min16(a.y, b.y),
        width: (max16(a.right(), b.right()) - min16(a.x, b.x)) as u16,
        height: (max16(a.bottom(), b.bottom()) - min16(a.y, b.y)) as u16,
    }
}

/// `r` with its top left corner at `p` and its bottom right one kept.
pub open spec fn top_left_to(r: Rect, p: VecI2) -> Rect {
    Rect { x: p.x, y: p.y, width: r.right().saturating_sub(p.x), height: r.bottom().saturating_sub(p.y) }
}

/// `r` with its top edge at `p.y`, its right edge at `p.x`, and its left and
/// bottom edges kept.
pub open spec fn top_right_to(r: Rect, p: VecI2) -> Rect {
    Rect { x: r.x, y: p.y, width: p.x.saturating_sub(r.x), height: r.bottom().saturating_sub(p.y) }
}

/// `r` with its left edge at `p.x`, its bottom edge at `p.y`, and its top and
/// right edges kept.
pub open spec fn bottom_left_to(r: Rect, p: VecI2) -> Rect {
    Rect { x: p.x, y: r.y, width: r.right().saturating_sub(p.x), height: p.y.saturating_sub(r.y) }
}

/// `r` with its right edge at `p.x`, its bottom edge at `p.y`, and its top
/// left corner kept.
pub open spec fn bottom_right_to(r: Rect, p: VecI2) -> Rect {
    Rect { x: r.x, y: r.y, width: p.x.saturating_sub(r.x), height: p.y.saturating_sub(r.y) }
}

/// The part of `r` inside `bound`: the larger top left corner, up to the
/// smaller bottom right one, empty when they cross.
pub open spec fn shrunk_within(r: Rect, bound: Rect) -> Rect {
    let x = max16(r.x, bound.x);
    let y = max16(r.y, bound.y);
    Rect {
        x,
        y,
        width: min16(r.right(), bound.right()).saturating_sub(x),
        height: min16(r.bottom(), bound.bottom()).saturating_sub(y),
    }
}

/// Shrinking to fit within a rectangle lands inside it: the result's corner
/// is no further left or up than the bound's, and its edges no further right
/// or down, whenever the result is not empty.
pub proof fn law_shrink_to_fit_within(r: Rect, bound: Rect)
    ensures
        shrunk_within(r, bound).x >= bound.x,
        shrunk_within(r, bound).y >= bound.y,
        shrunk_within(r, bound).width > 0 ==> shrunk_within(r, bound).x + shrunk_within(
            r,
            bound,
        ).width <= bound.right(),
        shrunk_within(r, bound).height > 0 ==> shrunk_within(r, bound).y + shrunk_within(
            r,
            bound,
        ).height <= bound.bottom(),
{
}

} // verus!
