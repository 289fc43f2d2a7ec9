use robot_comm::etui::{Layout, Ui};
use robot_comm::math_util::{Rect, VecI2};

fn screen() -> Ui {
    Ui::new(Rect { x: 0, y: 0, width: 80, height: 24 })
}

#[test]
fn ui_space_moves_cursor_and_areas() {
    let mut ui = screen();
    ui.add_space(VecI2::new(2, 3));
    assert_eq!(ui.get_cursor(), VecI2::new(2, 3));
    assert_eq!(ui.get_max(), Rect { x: 2, y: 3, width: 78, height: 21 });
    assert_eq!(ui.get_clip(), Rect { x: 2, y: 3, width: 78, height: 21 });
    assert_eq!(ui.get_current(), Rect { x: 0, y: 0, width: 2, height: 3 });
}

#[test]
fn ui_room_runs_along_the_first_direction() {
    let mut ui = screen();
    let child = ui.with_size(VecI2::new(10, 2));
    assert_eq!(child.get_current(), Rect { x: 0, y: 0, width: 10, height: 2 });
    assert_eq!(child.get_cursor(), VecI2::new(0, 0));
    assert_eq!(ui.get_cursor(), VecI2::new(0, 2));
    assert_eq!(ui.get_max(), Rect { x: 0, y: 2, width: 80, height: 22 });
    assert_eq!(ui.get_current(), Rect { x: 0, y: 0, width: 10, height: 2 });
}

#[test]
fn ui_nested_layouts_start_in_their_corner() {
    let ui = screen();
    let right = ui.begin_layout(Layout::TopRightVertical);
    assert_eq!(right.get_cursor(), VecI2::new(79, 0));
    let bottom = ui.begin_layout(Layout::BottomLeftHorizontal);
    assert_eq!(bottom.get_cursor(), VecI2::new(0, 23));
    assert_eq!(bottom.get_current(), Rect { x: 0, y: 23, width: 0, height: 0 });
}

#[test]
fn ui_nested_layout_gives_room_for_what_it_used() {
    let mut ui = screen();
    let mut row = ui.begin_horizontal();
    row.add_space(VecI2::new(4, 1));
    assert_eq!(row.get_current(), Rect { x: 0, y: 0, width: 4, height: 1 });
    assert!(!ui.is_before_cursor(row.get_current()));
    ui.end_layout(&row);
    assert_eq!(ui.get_cursor(), VecI2::new(0, 1));
}

#[test]
fn ui_border_wraps_what_is_inside() {
    let mut ui = Ui::new(Rect { x: 0, y: 0, width: 20, height: 10 });
    let mut inside = ui.begin_bordered();
    assert_eq!(inside.get_cursor(), VecI2::new(1, 1));
    assert_eq!(inside.get_max(), Rect { x: 1, y: 1, width: 18, height: 8 });
    let _ = inside.with_size(VecI2::new(3, 1));
    let border = ui.end_bordered(inside);
    assert_eq!(border, Rect { x: 0, y: 0, width: 5, height: 3 });
    assert_eq!(ui.get_cursor(), VecI2::new(0, 3));
}

#[test]
fn ui_room_before_the_cursor_is_told() {
    let mut ui = screen();
    ui.add_space(VecI2::new(5, 5));
    assert!(ui.is_before_cursor(Rect { x: 0, y: 0, width: 10, height: 10 }));
    assert!(!ui.is_before_cursor(Rect { x: 5, y: 5, width: 2, height: 2 }));
}

#[test]
fn ui_minimum_size_is_cut_to_the_area_left() {
    let mut ui = screen();
    ui.set_minimum_size(VecI2::new(100, 5));
    assert_eq!(ui.get_current(), Rect { x: 0, y: 0, width: 80, height: 5 });
}

#[test]
fn ui_expand_grows_away_from_the_corner() {
    let mut ui = screen();
    ui.add_space(VecI2::new(2, 2));
    ui.expand(VecI2::new(1, 1));
    assert_eq!(ui.get_current(), Rect { x: 0, y: 0, width: 3, height: 3 });
}
