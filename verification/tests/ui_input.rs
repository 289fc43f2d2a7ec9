use robot_comm::etui::{
    Id, InputEvent, InputState, MouseButton, MouseButtonState, MouseEventKind,
};
use robot_comm::math_util::{Rect, VecI2};

#[test]
fn input_mouse_press_hold_release() {
    let mut ui = InputState::new(VecI2::new(80, 24));
    let button = Rect::new_pos_size(VecI2::new(2, 2), VecI2::new(5, 1));
    assert!(!ui.interact(Id(1), button).hovered());
    ui.handle_event(InputEvent::Mouse { column: 3, row: 2, kind: MouseEventKind::Down(MouseButton::Left) });
    let r = ui.interact(Id(1), button);
    assert!(r.hovered() && r.clicked() && r.pressed());
    ui.finish_frame();
    let r = ui.interact(Id(1), button);
    assert!(!r.clicked() && r.pressed());
    ui.handle_event(InputEvent::Mouse { column: 3, row: 2, kind: MouseEventKind::Up(MouseButton::Left) });
    assert!(ui.interact(Id(1), button).released());
    ui.finish_frame();
    assert_eq!(ui.mouse.unwrap().buttons[0], MouseButtonState::Unpressed);
    ui.handle_event(InputEvent::Mouse { column: 50, row: 20, kind: MouseEventKind::ScrollUp });
    assert_eq!(ui.mouse.unwrap().scroll, 1);
    assert!(!ui.interact(Id(1), button).hovered());
}

#[test]
fn input_resize_and_size() {
    let mut ui = InputState::new(VecI2::new(80, 24));
    ui.handle_event(InputEvent::Resize(100, 30));
    assert_eq!(ui.max_rect, Rect::new_pos_size(VecI2::new(0, 0), VecI2::new(100, 30)));
    assert_eq!(ui.event, Some(InputEvent::Resize(100, 30)));
    assert!(!ui.set_size(VecI2::new(100, 30)));
    assert!(ui.set_size(VecI2::new(90, 30)));
    assert_eq!(ui.max_rect.width, 90);
    ui.handle_event(InputEvent::Mouse { column: 1, row: 1, kind: MouseEventKind::Drag(MouseButton::Right) });
    assert_eq!(ui.mouse.unwrap().buttons[2], MouseButtonState::Drag);
}
