use robot_comm::boxed_area::{BoxedArea, NodeAttachements};
use robot_comm::etui::{border_inner, border_layout, BorderGlyph};
use robot_comm::math_util::{Rect, VecI2};

#[test]
fn border_cells_ring_the_area() {
    let b = Rect { x: 1, y: 2, width: 4, height: 3 };
    let cells = border_layout(b);
    let expected = vec![
        (VecI2 { x: 1, y: 2 }, BorderGlyph::TopLeft),
        (VecI2 { x: 4, y: 2 }, BorderGlyph::TopRight),
        (VecI2 { x: 4, y: 4 }, BorderGlyph::BottomRight),
        (VecI2 { x: 1, y: 4 }, BorderGlyph::BottomLeft),
        (VecI2 { x: 2, y: 2 }, BorderGlyph::Horizontal),
        (VecI2 { x: 2, y: 4 }, BorderGlyph::Horizontal),
        (VecI2 { x: 3, y: 2 }, BorderGlyph::Horizontal),
        (VecI2 { x: 3, y: 4 }, BorderGlyph::Horizontal),
        (VecI2 { x: 1, y: 3 }, BorderGlyph::Vertical),
        (VecI2 { x: 4, y: 3 }, BorderGlyph::Vertical),
    ];
    assert_eq!(cells, expected);
    assert_eq!(border_inner(b), Rect { x: 2, y: 3, width: 2, height: 1 });
    assert_eq!(border_inner(Rect { x: 0, y: 0, width: 1, height: 0 }), Rect { x: 1, y: 1, width: 0, height: 0 });
}

#[test]
fn boxed_area_joins_line_ends() {
    let mut area = BoxedArea::default();
    area.add_line(VecI2 { x: 0, y: 0 }, VecI2 { x: 3, y: 0 });
    area.add_line(VecI2 { x: 3, y: 2 }, VecI2 { x: 3, y: 0 });
    assert_eq!(area.lines, vec![
        (VecI2 { x: 0, y: 0 }, VecI2 { x: 3, y: 0 }, true),
        (VecI2 { x: 3, y: 2 }, VecI2 { x: 3, y: 0 }, false),
    ]);
    let last = |p: VecI2| area.vertices.iter().rev().find(|v| v.0 == p).map(|v| v.1);
    assert_eq!(last(VecI2 { x: 0, y: 0 }), Some(NodeAttachements { up: false, left: true, right: false, down: false }));
    assert_eq!(last(VecI2 { x: 3, y: 0 }), Some(NodeAttachements { up: true, left: false, right: true, down: false }));
    assert_eq!(last(VecI2 { x: 3, y: 2 }), Some(NodeAttachements { up: false, left: false, right: false, down: true }));
}
