use vstd::prelude::*;

use crate::math_util::{
    bottom_left_to, bottom_right_to, including, max16, min16, top_left_to, top_right_to, Rect,
    VecI2,
};

verus! {

/// What a mouse button is doing this frame.
#[derive(Debug, Clone, Copy, PartialEq, Eq, Structural)]
pub enum MouseButtonState {
    Unpressed,
    Down,
    Held,
    Up,
    Drag,
}

impl Default for MouseButtonState {
    fn default() -> (r: Self)
        ensures
            r == MouseButtonState::Unpressed,
    {
        MouseButtonState::Unpressed
    }
}

impl MouseButtonState {
    /// Whether the button is held down: just pressed, held or dragging.
    pub fn is_down(&self) -> (r: bool)
        ensures
            r == (*self == MouseButtonState::Down || *self == MouseButtonState::Held || *self
                == MouseButtonState::Drag),
            r == button_pressed(*self),
    {
        match self {
            MouseButtonState::Unpressed => false,
            MouseButtonState::Down => true,
            MouseButtonState::Held => true,
            MouseButtonState::Up => false,
            MouseButtonState::Drag => true,
        }
    }

    /// The state a frame later with no new event: a press becomes held and a
    /// release becomes unpressed.
    pub fn next_state(&mut self)
        ensures
            *final(self) == (match *old(self) {
                MouseButtonState::Down => MouseButtonState::Held,
                MouseButtonState::Up => MouseButtonState::Unpressed,
                s => s,
            }),
            *final(self) == next_button_state(*old(self)),
    {
        match self {
            MouseButtonState::Unpressed => {},
            MouseButtonState::Down => *self = MouseButtonState::Held,
            MouseButtonState::Held => {},
            MouseButtonState::Up => *self = MouseButtonState::Unpressed,
            MouseButtonState::Drag => {},
        }
    }

    pub fn is_up(&self) -> (r: bool)
        ensures
            r == !(*self == MouseButtonState::Down || *self == MouseButtonState::Held || *self
                == MouseButtonState::Drag),
            r == !button_pressed(*self),
    {
        !self.is_down()
    }
}

/// Where the mouse is and what its buttons and wheel do.
#[derive(Debug, Clone, Copy)]
pub struct MouseState {
    pub position: VecI2,
    pub buttons: [MouseButtonState; 3],
    pub scroll: i16,
}

/// Names a widget across frames.
#[derive(Debug, Clone, Copy, PartialEq, Eq, Hash, Structural)]
pub struct Id(pub u64);

/// How a widget was interacted with this frame.
#[derive(Debug, Clone, Copy)]
pub struct Response {
    hovered: bool,
    buttons: [MouseButtonState; 3],
    id: Id,
    rect: Rect,
    mouse_pos: Option<VecI2>,
}

impl Response {
    /// A response for the widget `id` over `rect`: hovered when the mouse is
    /// over it, no button pressed.
    pub fn new(rect: Rect, id: Id, mouse: Option<VecI2>) -> (r: Self)
        ensures
            r.spec_hovered() == (match mouse {
                Some(m) => rect.x <= m.x && rect.right() > m.x && rect.y <= m.y && rect.bottom()
                    > m.y,
                None => false,
            }),
            r.spec_buttons() == seq![
                MouseButtonState::Unpressed,
                MouseButtonState::Unpressed,
                MouseButtonState::Unpressed,
            ],
            r.spec_id() == id,
            r.spec_rect() == rect,
            r.spec_mouse_pos() == mouse,
    {
        let hovered = match mouse {
            Some(m) => rect.contains(m.x, m.y),
            None => false,
        };
        Response {
            hovered,
            buttons: [
                MouseButtonState::Unpressed,
                MouseButtonState::Unpressed,
                MouseButtonState::Unpressed,
            ],
            id,
            rect,
            mouse_pos: mouse,
        }
    }

    pub closed spec fn spec_hovered(&self) -> bool {
        self.hovered
    }

    /// The state of button `k` over the widget.
    pub closed spec fn spec_button(&self, k: int) -> MouseButtonState {
        self.buttons@[k]
    }

    /// The states of the three buttons over the widget.
    pub closed spec fn spec_buttons(&self) -> Seq<MouseButtonState> {
        self.buttons@
    }

    pub closed spec fn spec_id(&self) -> Id {
        self.id
    }

    pub closed spec fn spec_rect(&self) -> Rect {
        self.rect
    }

    /// Where the mouse was, when it was over the widget.
    pub closed spec fn spec_mouse_pos(&self) -> Option<VecI2> {
        self.mouse_pos
    }

    pub fn hovered(&self) -> (r: bool)
        ensures
            r == self.spec_hovered(),
    {
        self.hovered
    }

    /// Whether the first button was let go this frame.
    pub fn released(&self) -> (r: bool)
        ensures
            r == (self.spec_button(0) == MouseButtonState::Up),
            r == button_released(self.spec_button(0)),
    {
        self.buttons[0] == MouseButtonState::Up
    }

    /// Whether the first button went down this frame.
    pub fn clicked(&self) -> (r: bool)
        ensures
            r == (self.spec_button(0) == MouseButtonState::Down),
            r == button_clicked(self.spec_button(0)),
    {
        self.buttons[0] == MouseButtonState::Down
    }

    /// Whether the first button is down.
    pub fn pressed(&self) -> (r: bool)
        ensures
            r == (self.spec_button(0) == MouseButtonState::Down || self.spec_button(0)
                == MouseButtonState::Held || self.spec_button(0) == MouseButtonState::Drag),
            r == button_pressed(self.spec_button(0)),
    {
        self.buttons[0].is_down()
    }
}

/// Where widgets start and which way they run first.
#[derive(Clone, Copy, PartialEq, Eq, Debug, Structural)]
pub enum Layout {
    TopLeftVertical,
    TopLeftHorizontal,
    TopRightVertical,
    TopRightHorizontal,
    BottomLeftVertical,
    BottomLeftHorizontal,
    BottomRightVertical,
    BottomRightHorizontal,
}

/// Whether a layout runs vertically first.
pub open spec fn layout_vertical(l: Layout) -> bool {
    match l {
        Layout::TopLeftVertical | Layout::TopRightVertical | Layout::BottomLeftVertical
        | Layout::BottomRightVertical => true,
        _ => false,
    }
}

/// Two layouts start in the same corner.
pub open spec fn same_corner(a: Layout, b: Layout) -> bool {
    match (a, b) {
        (Layout::TopLeftVertical, Layout::TopLeftHorizontal) => true,
        (Layout::TopLeftHorizontal, Layout::TopLeftVertical) => true,
        (Layout::TopRightVertical, Layout::TopRightHorizontal) => true,
        (Layout::TopRightHorizontal, Layout::TopRightVertical) => true,
        (Layout::BottomLeftVertical, Layout::BottomLeftHorizontal) => true,
        (Layout::BottomLeftHorizontal, Layout::BottomLeftVertical) => true,
        (Layout::BottomRightVertical, Layout::BottomRightHorizontal) => true,
        (Layout::BottomRightHorizontal, Layout::BottomRightVertical) => true,
        _ => a == b,
    }
}

impl Layout {
    pub fn is_primary_vertical(&self) -> (r: bool)
        ensures
            r == layout_vertical(*self),
    {
        match self {
            Layout::TopLeftVertical => true,
            Layout::TopLeftHorizontal => false,
            Layout::TopRightVertical => true,
            Layout::TopRightHorizontal => false,
            Layout::BottomLeftVertical => true,
            Layout::BottomLeftHorizontal => false,
            Layout::BottomRightVertical => true,
            Layout::BottomRightHorizontal => false,
        }
    }

    pub fn is_primary_horizontal(&self) -> (r: bool)
        ensures
            r == !layout_vertical(*self),
    {
        !self.is_primary_vertical()
    }

    /// The vertical layout from the same corner.
    pub fn to_vertical(&self) -> (r: Self)
        ensures
            layout_vertical(r),
            same_corner(r, *self),
    {
        match self {
            Layout::TopLeftVertical | Layout::TopLeftHorizontal => Layout::TopLeftVertical,
            Layout::TopRightVertical | Layout::TopRightHorizontal => Layout::TopRightVertical,
            Layout::BottomLeftVertical | Layout::BottomLeftHorizontal => Layout::BottomLeftVertical,
            Layout::BottomRightVertical | Layout::BottomRightHorizontal => {
                Layout::BottomRightVertical
            },
        }
    }

    /// The horizontal layout from the same corner.
    pub fn to_horizontal(&self) -> (r: Self)
        ensures
            !layout_vertical(r),
            same_corner(r, *self),
    {
        match self {
            Layout::TopLeftVertical | Layout::TopLeftHorizontal => Layout::TopLeftHorizontal,
            Layout::TopRightVertical | Layout::TopRightHorizontal => Layout::TopRightHorizontal,
            Layout::BottomLeftVertical | Layout::BottomLeftHorizontal => {
                Layout::BottomLeftHorizontal
            },
            Layout::BottomRightVertical | Layout::BottomRightHorizontal => {
                Layout::BottomRightHorizontal
            },
        }
    }

    /// The layout from the same corner running the other way first
    /// ([`opposite_layout`]).
    pub fn opposite_primary_direction(&self) -> (r: Self)
        ensures
            r == opposite_layout(*self),
    {
        if self.is_primary_vertical() {
            self.to_horizontal()
        } else {
            self.to_vertical()
        }
    }
}

/// The layout from the same corner running the other way first.
pub open spec fn opposite_layout(l: Layout) -> Layout {
    match l {
        Layout::TopLeftVertical => Layout::TopLeftHorizontal,
        Layout::TopLeftHorizontal => Layout::TopLeftVertical,
        Layout::TopRightVertical => Layout::TopRightHorizontal,
        Layout::TopRightHorizontal => Layout::TopRightVertical,
        Layout::BottomLeftVertical => Layout::BottomLeftHorizontal,
        Layout::BottomLeftHorizontal => Layout::BottomLeftVertical,
        Layout::BottomRightVertical => Layout::BottomRightHorizontal,
        Layout::BottomRightHorizontal => Layout::BottomRightVertical,
    }
}

/// Turning a layout the other way twice gives it back; the turned layout
/// starts from the same corner and runs the other way first.
pub proof fn law_opposite_twice(l: Layout)
    ensures
        opposite_layout(opposite_layout(l)) == l,
        same_corner(opposite_layout(l), l),
        layout_vertical(opposite_layout(l)) == !layout_vertical(l),
{
}

/// A mouse button, as the terminal reports it.
#[derive(Debug, Clone, Copy, PartialEq, Eq, Structural)]
pub enum MouseButton {
    Left,
    Right,
    Middle,
}

/// What the mouse did.
#[derive(Debug, Clone, Copy, PartialEq, Eq, Structural)]
pub enum MouseEventKind {
    Down(MouseButton),
    Up(MouseButton),
    Drag(MouseButton),
    Moved,
    ScrollDown,
    ScrollUp,
}

/// A terminal event: a resize, a mouse event at a cell, or anything else.
#[derive(Debug, Clone, Copy, PartialEq, Eq, Structural)]
pub enum InputEvent {
    Resize(u16, u16),
    Mouse { column: u16, row: u16, kind: MouseEventKind },
    Other,
}

/// The slot of a button in [`MouseState::buttons`]: left, middle, right.
pub open spec fn button_slot(b: MouseButton) -> int {
    match b {
        MouseButton::Left => 0,
        MouseButton::Middle => 1,
        MouseButton::Right => 2,
    }
}

/// The buttons with the one in slot `k` set to `v`.
pub open spec fn with_button(bs: [MouseButtonState; 3], k: int, v: MouseButtonState) -> [MouseButtonState; 3] {
    [
        if k == 0 { v } else { bs@[0] },
        if k == 1 { v } else { bs@[1] },
        if k == 2 { v } else { bs@[2] },
    ]
}

/// The mouse as an event leaves it: moved to the event's cell, the button the
/// event names down, released or dragging, and the wheel counted.
pub open spec fn mouse_after(m: MouseState, column: u16, row: u16, kind: MouseEventKind) -> MouseState {
    let moved = MouseState { position: VecI2 { x: column, y: row }, ..m };
    match kind {
        MouseEventKind::Down(b) => MouseState {
            buttons: with_button(moved.buttons, button_slot(b), MouseButtonState::Down),
            ..moved
        },
        MouseEventKind::Up(b) => MouseState {
            buttons: with_button(moved.buttons, button_slot(b), MouseButtonState::Up),
            ..moved
        },
        MouseEventKind::Drag(b) => MouseState {
            buttons: with_button(moved.buttons, button_slot(b), MouseButtonState::Drag),
            ..moved
        },
        MouseEventKind::Moved => moved,
        MouseEventKind::ScrollDown => MouseState { scroll: (m.scroll - 1) as i16, ..moved },
        MouseEventKind::ScrollUp => MouseState { scroll: (m.scroll + 1) as i16, ..moved },
    }
}

/// The mouse before any mouse event: at the top left, nothing pressed.
pub open spec fn fresh_mouse() -> MouseState {
    MouseState {
        position: VecI2 { x: 0, y: 0 },
        buttons: [MouseButtonState::Unpressed, MouseButtonState::Unpressed, MouseButtonState::Unpressed],
        scroll: 0,
    }
}

/// Whether an event would move the wheel count past the range of an `i16`.
pub open spec fn scroll_overflows(mouse: Option<MouseState>, event: InputEvent) -> bool {
    let m = match mouse {
        Some(m) => m,
        None => fresh_mouse(),
    };
    match event {
        InputEvent::Mouse { kind: MouseEventKind::ScrollDown, .. } => m.scroll == i16::MIN,
        InputEvent::Mouse { kind: MouseEventKind::ScrollUp, .. } => m.scroll == i16::MAX,
        _ => false,
    }
}

/// What a terminal interface knows of its input: the mouse once it was seen,
/// the screen's rectangle and the last event.
pub struct InputState {
    pub mouse: Option<MouseState>,
    pub max_rect: Rect,
    pub event: Option<InputEvent>,
}

impl InputState {
    pub fn new(size: VecI2) -> (r: Self)
        ensures
            r.mouse is None,
            r.max_rect == (Rect { x: 0, y: 0, width: size.x, height: size.y }),
            r.event is None,
    {
        InputState {
            mouse: None,
            max_rect: Rect::new_pos_size(VecI2::new(0, 0), size),
            event: None,
        }
    }

    /// Takes in an event: a resize sets the screen's rectangle, a mouse event
    /// updates the mouse ([`mouse_after`]); the event is kept as the last one.
    pub fn handle_event(&mut self, event: InputEvent)
        requires
            !scroll_overflows(old(self).mouse, event),
        ensures
            final(self).event == Some(event),
            final(self).max_rect == (match event {
                InputEvent::Resize(x, y) => Rect { x: 0, y: 0, width: x, height: y },
                _ => old(self).max_rect,
            }),
            final(self).mouse == (match event {
                InputEvent::Mouse { column, row, kind } => Some(
                    mouse_after(
                        match old(self).mouse {
                            Some(m) => m,
                            None => fresh_mouse(),
                        },
                        column,
                        row,
                        kind,
                    ),
                ),
                _ => old(self).mouse,
            }),
    {
        match event {
            InputEvent::Resize(x, y) => {
                self.max_rect = Rect::new_pos_size(VecI2::new(0, 0), VecI2::new(x, y));
            },
            InputEvent::Mouse { column, row, kind } => {
                let mut m = match self.mouse {
                    Some(m) => m,
                    None => MouseState {
                        position: VecI2::new(0, 0),
                        buttons: [
                            MouseButtonState::Unpressed,
                            MouseButtonState::Unpressed,
                            MouseButtonState::Unpressed,
                        ],
                        scroll: 0,
                    },
                };
                m.position = VecI2::new(column, row);
                match kind {
                    MouseEventKind::Down(b) => {
                        let ghost bs = m.buttons;
                        m.buttons[slot_of(b)] = MouseButtonState::Down;
                        proof {
                            assert(m.buttons =~= with_button(bs, button_slot(b), MouseButtonState::Down));
                        }
                    },
                    MouseEventKind::Up(b) => {
                        let ghost bs = m.buttons;
                        m.buttons[slot_of(b)] = MouseButtonState::Up;
                        proof {
                            assert(m.buttons =~= with_button(bs, button_slot(b), MouseButtonState::Up));
                        }
                    },
                    MouseEventKind::Drag(b) => {
                        let ghost bs = m.buttons;
                        m.buttons[slot_of(b)] = MouseButtonState::Drag;
                        proof {
                            assert(m.buttons =~= with_button(bs, button_slot(b), MouseButtonState::Drag));
                        }
                    },
                    MouseEventKind::Moved => {},
                    MouseEventKind::ScrollDown => {
                        m.scroll = m.scroll - 1;
                    },
                    MouseEventKind::ScrollUp => {
                        m.scroll = m.scroll + 1;
                    },
                }
                self.mouse = Some(m);
            },
            InputEvent::Other => {},
        }
        self.event = Some(event);
    }

    /// How the widget `id` over `area` is interacted with: hovered, with the
    /// mouse's buttons, when the mouse is over it.
    pub fn interact(&self, id: Id, area: Rect) -> (r: Response)
        ensures
            r.spec_id() == id,
            r.spec_rect() == area,
            match self.mouse {
                Some(m) => if area.x <= m.position.x && area.right() > m.position.x && area.y
                    <= m.position.y && area.bottom() > m.position.y {
                    r.spec_hovered() && r.spec_mouse_pos() == Some(m.position)
                        && r.spec_buttons() == m.buttons@
                } else {
                    !r.spec_hovered() && r.spec_mouse_pos() is None && r.spec_button(0)
                        == MouseButtonState::Unpressed
                },
                None => !r.spec_hovered() && r.spec_mouse_pos() is None && r.spec_button(0)
                    == MouseButtonState::Unpressed,
            },
    {
        match self.mouse {
            Some(m) => {
                if area.contains(m.position.x, m.position.y) {
                    let mut response = Response::new(area, id, Some(m.position));
                    response.buttons = m.buttons;
                    response
                } else {
                    Response::new(area, id, None)
                }
            },
            None => Response::new(area, id, None),
        }
    }

    /// Ends a frame: each mouse button moves on to its next state.
    pub fn finish_frame(&mut self)
        ensures
            final(self).max_rect == old(self).max_rect,
            final(self).event == old(self).event,
            final(self).mouse == (match old(self).mouse {
                Some(m) => Some(
                    MouseState {
                        buttons: [
                            next_button_state(m.buttons@[0]),
                            next_button_state(m.buttons@[1]),
                            next_button_state(m.buttons@[2]),
                        ],
                        ..m
                    },
                ),
                None => None,
            }),
    {
        if let Some(m) = &mut self.mouse {
            let ghost bs = m.buttons;
            m.buttons[0].next_state();
            m.buttons[1].next_state();
            m.buttons[2].next_state();
            proof {
                assert(m.buttons =~= [
                    next_button_state(bs@[0]),
                    next_button_state(bs@[1]),
                    next_button_state(bs@[2]),
                ]);
            }
        }
    }

    /// Takes the terminal's size: when it changed, the screen's rectangle
    /// becomes that size at the origin. Tells whether it changed.
    pub fn set_size(&mut self, last_observed_size: VecI2) -> (r: bool)
        ensures
            r == (old(self).max_rect.width != last_observed_size.x || old(self).max_rect.height
                != last_observed_size.y),
            final(self).max_rect == (if r {
                Rect { x: 0, y: 0, width: last_observed_size.x, height: last_observed_size.y }
            } else {
                old(self).max_rect
            }),
            final(self).mouse == old(self).mouse,
            final(self).event == old(self).event,
    {
        let size = self.max_rect.size();
        if size.x != last_observed_size.x || size.y != last_observed_size.y {
            self.max_rect = Rect::new_pos_size(VecI2::new(0, 0), last_observed_size);
            true
        } else {
            false
        }
    }
}

/// The slot of a button.
fn slot_of(b: MouseButton) -> (r: usize)
    ensures
        r == button_slot(b),
{
    match b {
        MouseButton::Left => 0,
        MouseButton::Middle => 1,
        MouseButton::Right => 2,
    }
}

/// The state a frame later with no new event ([`MouseButtonState::next_state`]).
pub open spec fn next_button_state(s: MouseButtonState) -> MouseButtonState {
    match s {
        MouseButtonState::Down => MouseButtonState::Held,
        MouseButtonState::Up => MouseButtonState::Unpressed,
        s => s,
    }
}

/// Which line piece a cell of a border shows.
#[derive(Debug, Clone, Copy, PartialEq, Eq, Structural)]
pub enum BorderGlyph {
    TopLeft,
    TopRight,
    BottomRight,
    BottomLeft,
    Horizontal,
    Vertical,
}

/// The cells of a border drawn around `b`, and what each shows: the four
/// corners; then, for each column strictly between them, the top and the
/// bottom edge; then, for each row strictly between them, the left and the
/// right edge.
pub open spec fn border_cells(b: Rect) -> Seq<(VecI2, BorderGlyph)> {
    let right = (b.x + b.width - 1) as u16;
    let bottom = (b.y + b.height - 1) as u16;
    seq![
        (VecI2 { x: b.x, y: b.y }, BorderGlyph::TopLeft),
        (VecI2 { x: right, y: b.y }, BorderGlyph::TopRight),
        (VecI2 { x: right, y: bottom }, BorderGlyph::BottomRight),
        (VecI2 { x: b.x, y: bottom }, BorderGlyph::BottomLeft),
    ] + Seq::new(
        (2 * (b.width - 2)) as nat,
        |k: int|
            (
                VecI2 { x: (b.x + 1 + k / 2) as u16, y: if k % 2 == 0 { b.y } else { bottom } },
                BorderGlyph::Horizontal,
            ),
    ) + Seq::new(
        (2 * (b.height - 2)) as nat,
        |k: int|
            (
                VecI2 { x: if k % 2 == 0 { b.x } else { right }, y: (b.y + 1 + k / 2) as u16 },
                BorderGlyph::Vertical,
            ),
    )
}

/// Whether a cell lies on the edge of `b`.
pub open spec fn on_edge(b: Rect, p: VecI2) -> bool {
    &&& b.x <= p.x < b.x + b.width
    &&& b.y <= p.y < b.y + b.height
    &&& (p.x == b.x || p.x == b.x + b.width - 1 || p.y == b.y || p.y == b.y + b.height - 1)
}

/// The area inside a border drawn around `b`: one cell in from each side.
pub fn border_inner(b: Rect) -> (r: Rect)
    ensures
        r == (Rect {
            x: b.x.saturating_add(1),
            y: b.y.saturating_add(1),
            width: b.width.saturating_sub(2),
            height: b.height.saturating_sub(2),
        }),
        b.width >= 2 && b.height >= 2 && b.x + b.width <= u16::MAX && b.y + b.height <= u16::MAX ==> (
        r.x == b.x + 1 && r.y == b.y + 1 && r.x + r.width == b.x + b.width - 1 && r.y + r.height == b.y
            + b.height - 1),
{
    let mut r = b;
    r.shrink_evenly(1);
    r
}

/// The cells of the border around `b` ([`border_cells`]); each lies on the
/// edge of `b`.
pub fn border_layout(b: Rect) -> (r: Vec<(VecI2, BorderGlyph)>)
    requires
        b.width >= 2,
        b.height >= 2,
        b.x + b.width <= u16::MAX,
        b.y + b.height <= u16::MAX,
    ensures
        r@ == border_cells(b),
        forall|k: int| 0 <= k < r@.len() ==> on_edge(b, #[trigger] r@[k].0),
{
    let right = b.x + b.width - 1;
    let bottom = b.y + b.height - 1;
    let mut v: Vec<(VecI2, BorderGlyph)> = Vec::new();
    v.push((VecI2 { x: b.x, y: b.y }, BorderGlyph::TopLeft));
    v.push((VecI2 { x: right, y: b.y }, BorderGlyph::TopRight));
    v.push((VecI2 { x: right, y: bottom }, BorderGlyph::BottomRight));
    v.push((VecI2 { x: b.x, y: bottom }, BorderGlyph::BottomLeft));
    let ghost corners = v@;
    let ghost hs = Seq::new(
        (2 * (b.width - 2)) as nat,
        |k: int|
            (
                VecI2 { x: (b.x + 1 + k / 2) as u16, y: if k % 2 == 0 { b.y } else { bottom } },
                BorderGlyph::Horizontal,
            ),
    );
    let ghost vs = Seq::new(
        (2 * (b.height - 2)) as nat,
        |k: int|
            (
                VecI2 { x: if k % 2 == 0 { b.x } else { right }, y: (b.y + 1 + k / 2) as u16 },
                BorderGlyph::Vertical,
            ),
    );
    let mut i: u16 = 1;
    while i < b.width - 1
        invariant
            1 <= i <= b.width - 1,
            b.width >= 2,
            b.x + b.width <= u16::MAX,
            right == b.x + b.width - 1,
            v@ == corners + hs.take(2 * (i - 1)),
            hs.len() == 2 * (b.width - 2),
            bottom == b.y + b.height - 1,
            hs == Seq::new(
                (2 * (b.width - 2)) as nat,
                |k: int|
                    (
                        VecI2 { x: (b.x + 1 + k / 2) as u16, y: if k % 2 == 0 { b.y } else { bottom } },
                        BorderGlyph::Horizontal,
                    ),
            ),
        decreases b.width - i,
    {
        let ghost before = v@;
        v.push((VecI2 { x: b.x + i, y: b.y }, BorderGlyph::Horizontal));
        v.push((VecI2 { x: b.x + i, y: bottom }, BorderGlyph::Horizontal));
        proof {
            let k = 2 * (i - 1);
            assert(k / 2 == i - 1 && k % 2 == 0 && (k + 1) / 2 == i - 1 && (k + 1) % 2 == 1);
            assert(hs[k] == (VecI2 { x: (b.x + i) as u16, y: b.y }, BorderGlyph::Horizontal));
            assert(hs[k + 1] == (VecI2 { x: (b.x + i) as u16, y: bottom }, BorderGlyph::Horizontal));
            assert(hs.take(2 * i) =~= hs.take(k).push(hs[k]).push(hs[k + 1]));
            assert(v@ =~= corners + hs.take(2 * i));
        }
        i = i + 1;
    }
    proof {
        assert(hs.take(2 * (i - 1)) =~= hs);
    }
    let mut i: u16 = 1;
    while i < b.height - 1
        invariant
            1 <= i <= b.height - 1,
            b.height >= 2,
            b.y + b.height <= u16::MAX,
            bottom == b.y + b.height - 1,
            v@ == corners + hs + vs.take(2 * (i - 1)),
            vs.len() == 2 * (b.height - 2),
            right == b.x + b.width - 1,
            vs == Seq::new(
                (2 * (b.height - 2)) as nat,
                |k: int|
                    (
                        VecI2 { x: if k % 2 == 0 { b.x } else { right }, y: (b.y + 1 + k / 2) as u16 },
                        BorderGlyph::Vertical,
                    ),
            ),
        decreases b.height - i,
    {
        v.push((VecI2 { x: b.x, y: b.y + i }, BorderGlyph::Vertical));
        v.push((VecI2 { x: right, y: b.y + i }, BorderGlyph::Vertical));
        proof {
            let k = 2 * (i - 1);
            assert(k / 2 == i - 1 && k % 2 == 0 && (k + 1) / 2 == i - 1 && (k + 1) % 2 == 1);
            assert(vs[k] == (VecI2 { x: b.x, y: (b.y + i) as u16 }, BorderGlyph::Vertical));
            assert(vs[k + 1] == (VecI2 { x: right, y: (b.y + i) as u16 }, BorderGlyph::Vertical));
            assert(vs.take(2 * i) =~= vs.take(k).push(vs[k]).push(vs[k + 1]));
            assert(v@ =~= corners + hs + vs.take(2 * i));
        }
        i = i + 1;
    }
    proof {
        assert(vs.take(2 * (i - 1)) =~= vs);
        assert(v@ =~= border_cells(b));
        assert forall|k: int| 0 <= k < v@.len() implies on_edge(b, #[trigger] v@[k].0) by {
            if k >= 4 && k < 4 + hs.len() {
                assert(v@[k] == hs[k - 4]);
            } else if k >= 4 + hs.len() {
                assert(v@[k] == vs[k - 4 - hs.len()]);
            }
        }
    }
    v
}

/// The corner a layout starts from.
pub enum Corner {
    TopLeft,
    TopRight,
    BottomLeft,
    BottomRight,
}

pub open spec fn layout_corner(l: Layout) -> Corner {
    match l {
        Layout::TopLeftVertical | Layout::TopLeftHorizontal => Corner::TopLeft,
        Layout::TopRightVertical | Layout::TopRightHorizontal => Corner::TopRight,
        Layout::BottomLeftVertical | Layout::BottomLeftHorizontal => Corner::BottomLeft,
        Layout::BottomRightVertical | Layout::BottomRightHorizontal => Corner::BottomRight,
    }
}

/// An empty rectangle at `p`.
pub open spec fn point_rect(p: VecI2) -> Rect {
    Rect { x: p.x, y: p.y, width: 0, height: 0 }
}

/// The rectangle from `a` to `b`, empty where `b` lies before `a`.
pub open spec fn rect_between(a: VecI2, b: VecI2) -> Rect {
    Rect { x: a.x, y: a.y, width: b.x.saturating_sub(a.x), height: b.y.saturating_sub(a.y) }
}

/// The cursor after `s` of space in layout `l`: away from the corner the
/// layout starts in, saturating at the edges of the grid.
pub open spec fn cursor_after(l: Layout, c: VecI2, s: VecI2) -> VecI2 {
    match layout_corner(l) {
        Corner::TopLeft => VecI2 { x: c.x.saturating_add(s.x), y: c.y.saturating_add(s.y) },
        Corner::TopRight => VecI2 { x: c.x.saturating_sub(s.x), y: c.y.saturating_add(s.y) },
        Corner::BottomLeft => VecI2 { x: c.x.saturating_add(s.x), y: c.y.saturating_sub(s.y) },
        Corner::BottomRight => VecI2 { x: c.x.saturating_sub(s.x), y: c.y.saturating_sub(s.y) },
    }
}

/// `r` with the corner layout `l` starts in brought to the cell `c`, the
/// opposite corner kept.
pub open spec fn anchored(l: Layout, r: Rect, c: VecI2) -> Rect {
    match layout_corner(l) {
        Corner::TopLeft => top_left_to(r, c),
        Corner::TopRight => top_right_to(r, VecI2 { x: c.x.saturating_add(1), y: c.y }),
        Corner::BottomLeft => bottom_left_to(r, VecI2 { x: c.x, y: c.y.saturating_add(1) }),
        Corner::BottomRight => bottom_right_to(
            r,
            VecI2 { x: c.x.saturating_add(1), y: c.y.saturating_add(1) },
        ),
    }
}

/// The corner of `r` a layout `l` places its cursor at.
pub open spec fn start_corner(l: Layout, r: Rect) -> VecI2 {
    match layout_corner(l) {
        Corner::TopLeft => VecI2 { x: r.x, y: r.y },
        Corner::TopRight => VecI2 { x: r.right(), y: r.y },
        Corner::BottomLeft => VecI2 { x: r.x, y: r.bottom() },
        Corner::BottomRight => VecI2 { x: r.right(), y: r.bottom() },
    }
}

/// The last cell in the corner of `r` a layout `l` starts from.
pub open spec fn start_cell(l: Layout, r: Rect) -> VecI2 {
    match layout_corner(l) {
        Corner::TopLeft => VecI2 { x: r.x, y: r.y },
        Corner::TopRight => VecI2 { x: r.right().saturating_sub(1), y: r.y },
        Corner::BottomLeft => VecI2 { x: r.x, y: r.bottom().saturating_sub(1) },
        Corner::BottomRight => VecI2 {
            x: r.right().saturating_sub(1),
            y: r.bottom().saturating_sub(1),
        },
    }
}

/// `r` grown by `t` away from the corner layout `l` starts in.
pub open spec fn expanded(l: Layout, r: Rect, t: VecI2) -> Rect {
    match layout_corner(l) {
        Corner::TopLeft => Rect {
            width: r.width.saturating_add(t.x),
            height: r.height.saturating_add(t.y),
            ..r
        },
        Corner::TopRight => Rect {
            x: r.x,
            y: r.y.saturating_add(t.y),
            width: r.width.saturating_add(t.x),
            height: r.height.saturating_sub(t.y),
        },
        Corner::BottomLeft => Rect {
            x: r.x.saturating_add(t.x),
            y: r.y,
            width: r.width.saturating_sub(t.x),
            height: r.height.saturating_add(t.y),
        },
        Corner::BottomRight => Rect {
            x: r.x.saturating_add(t.x),
            y: r.y.saturating_add(t.y),
            width: r.width.saturating_sub(t.x),
            height: r.height.saturating_sub(t.y),
        },
    }
}

/// Where a user interface places what is added to it: the layout, the area
/// drawing is clipped to, the area left to fill, the cursor where the next
/// widget goes, and the area used so far.
#[derive(Clone, Copy, Debug)]
pub struct Ui {
    pub layout: Layout,
    pub clip: Rect,
    pub max_rect: Rect,
    pub cursor: VecI2,
    pub current: Rect,
}

/// A user interface after `s` of space: the cursor moves away from the
/// layout's corner, the clip and the area left follow it, and the area used
/// grows to hold it.
pub open spec fn spaced(u: Ui, s: VecI2) -> Ui {
    let c = cursor_after(u.layout, u.cursor, s);
    Ui {
        layout: u.layout,
        clip: anchored(u.layout, u.clip, c),
        max_rect: anchored(u.layout, u.max_rect, c),
        cursor: c,
        current: including(u.current, point_rect(c)),
    }
}

/// A user interface after giving room of `size`: as [`spaced`], but only along
/// the layout's first direction; across it the cursor and the area left stay.
pub open spec fn allocated(u: Ui, size: VecI2) -> Ui {
    let sp = spaced(u, size);
    if layout_vertical(u.layout) {
        Ui {
            cursor: VecI2 { x: u.cursor.x, y: sp.cursor.y },
            max_rect: Rect { x: u.max_rect.x, width: u.max_rect.width, ..sp.max_rect },
            ..sp
        }
    } else {
        Ui {
            cursor: VecI2 { x: sp.cursor.x, y: u.cursor.y },
            max_rect: Rect { y: u.max_rect.y, height: u.max_rect.height, ..sp.max_rect },
            ..sp
        }
    }
}

/// Whether `rect`, not starting at the cursor, holds the cursor strictly
/// inside: room that lies before the cursor, which cannot be given.
pub open spec fn before_cursor(u: Ui, rect: Rect) -> bool {
    let inner = Rect {
        x: rect.x.saturating_add(1),
        y: rect.y.saturating_add(1),
        width: rect.width.saturating_sub(1).saturating_sub(1),
        height: rect.height.saturating_sub(1).saturating_sub(1),
    };
    start_corner(u.layout, rect) != u.cursor && inner.x <= u.cursor.x && inner.right()
        > u.cursor.x && inner.y <= u.cursor.y && inner.bottom() > u.cursor.y
}

/// The size given to hold `rect`: its own where it starts at the cursor, else
/// that of its inner part grown to hold the cursor.
pub open spec fn area_size(u: Ui, rect: Rect) -> VecI2 {
    if start_corner(u.layout, rect) == u.cursor {
        VecI2 { x: rect.width, y: rect.height }
    } else {
        let inner = Rect {
            x: rect.x.saturating_add(1),
            y: rect.y.saturating_add(1),
            width: rect.width.saturating_sub(1).saturating_sub(1),
            height: rect.height.saturating_sub(1).saturating_sub(1),
        };
        let grown = including(inner, point_rect(u.cursor));
        VecI2 { x: grown.width, y: grown.height }
    }
}

/// A user interface nested at the cursor: nothing used yet, clipped from the
/// cursor on.
pub open spec fn child_of(u: Ui) -> Ui {
    Ui { current: point_rect(u.cursor), clip: top_left_to(u.clip, u.cursor), ..u }
}

/// A user interface in layout `l` over the area left: the cursor at the
/// layout's corner cell, nothing used yet.
pub open spec fn sub_layout(u: Ui, l: Layout) -> Ui {
    let c = start_cell(l, u.max_rect);
    Ui { layout: l, cursor: c, current: point_rect(c), ..u }
}

/// The inside of a border started at the cursor: one cell in from the cursor,
/// from the clip and from the area left.
pub open spec fn border_child(u: Ui) -> Ui {
    let sp = spaced(child_of(u), VecI2 { x: 1, y: 1 });
    let shrink = |r: Rect|
        Rect {
            x: r.x.saturating_add(1),
            y: r.y.saturating_add(1),
            width: r.width.saturating_sub(1).saturating_sub(1),
            height: r.height.saturating_sub(1).saturating_sub(1),
        };
    Ui {
        max_rect: shrink(u.max_rect),
        clip: shrink(u.clip),
        current: point_rect(sp.cursor),
        ..sp
    }
}

/// The border around what was placed inside it: the area used, grown to hold
/// where the border started and one cell more away from the layout's corner.
pub open spec fn border_of(start: VecI2, inside: Ui) -> Rect {
    expanded(inside.layout, including(inside.current, point_rect(start)), VecI2 { x: 1, y: 1 })
}

impl Ui {
    /// A user interface over `area`, vertical from its top left corner, with
    /// the cursor at the grid's origin and nothing used yet.
    pub fn new(area: Rect) -> (r: Self)
        ensures
            r == (Ui {
                layout: Layout::TopLeftVertical,
                clip: area,
                max_rect: area,
                cursor: VecI2 { x: 0, y: 0 },
                current: Rect { x: 0, y: 0, width: 0, height: 0 },
            }),
    {
        Ui {
            layout: Layout::TopLeftVertical,
            clip: area,
            max_rect: area,
            cursor: VecI2::new(0, 0),
            current: Rect { x: 0, y: 0, width: 0, height: 0 },
        }
    }

    pub fn get_clip(&self) -> (r: Rect)
        ensures
            r == self.clip,
    {
        self.clip
    }

    pub fn get_max(&self) -> (r: Rect)
        ensures
            r == self.max_rect,
    {
        self.max_rect
    }

    pub fn set_max(&mut self, max: Rect)
        ensures
            *final(self) == (Ui { max_rect: max, ..*old(self) }),
    {
        self.max_rect = max;
    }

    pub fn get_cursor(&self) -> (r: VecI2)
        ensures
            r == self.cursor,
    {
        self.cursor
    }

    pub fn get_current(&self) -> (r: Rect)
        ensures
            r == self.current,
    {
        self.current
    }

    /// A user interface nested at the cursor ([`child_of`]).
    fn child(&self) -> (r: Ui)
        ensures
            r == child_of(*self),
    {
        let mut ui = *self;
        ui.current = Rect::new_pos_size(ui.cursor, VecI2::new(0, 0));
        ui.clip.move_top_left_to(ui.cursor);
        ui
    }

    /// Moves the cursor on by `space` ([`spaced`]).
    pub fn add_space(&mut self, space: VecI2)
        ensures
            *final(self) == spaced(*old(self), space),
    {
        let c = self.cursor;
        match self.layout {
            Layout::TopLeftHorizontal | Layout::TopLeftVertical => {
                self.cursor = VecI2::new(c.x.saturating_add(space.x), c.y.saturating_add(space.y));
                self.clip.move_top_left_to(self.cursor);
                self.max_rect.move_top_left_to(self.cursor);
            },
            Layout::TopRightHorizontal | Layout::TopRightVertical => {
                self.cursor = VecI2::new(c.x.saturating_sub(space.x), c.y.saturating_add(space.y));
                let corner = VecI2::new(self.cursor.x.saturating_add(1), self.cursor.y);
                self.clip.move_top_right_to(corner);
                self.max_rect.move_top_right_to(corner);
            },
            Layout::BottomLeftHorizontal | Layout::BottomLeftVertical => {
                self.cursor = VecI2::new(c.x.saturating_add(space.x), c.y.saturating_sub(space.y));
                let corner = VecI2::new(self.cursor.x, self.cursor.y.saturating_add(1));
                self.clip.move_bottom_left_to(corner);
                self.max_rect.move_bottom_left_to(corner);
            },
            Layout::BottomRightHorizontal | Layout::BottomRightVertical => {
                self.cursor = VecI2::new(c.x.saturating_sub(space.x), c.y.saturating_sub(space.y));
                let corner = VecI2::new(
                    self.cursor.x.saturating_add(1),
                    self.cursor.y.saturating_add(1),
                );
                self.clip.move_bottom_right_to(corner);
                self.max_rect.move_bottom_right_to(corner);
            },
        }
        let at = Rect::new_pos_size(self.cursor, VecI2::new(0, 0));
        self.current.expand_to_include(&at);
    }

    pub fn add_horizontal_space(&mut self, space: u16)
        ensures
            *final(self) == spaced(*old(self), VecI2 { x: space, y: 0 }),
    {
        self.add_space(VecI2::new(space, 0))
    }

    pub fn add_vertical_space(&mut self, space: u16)
        ensures
            *final(self) == spaced(*old(self), VecI2 { x: 0, y: space }),
    {
        self.add_space(VecI2::new(0, space))
    }

    /// Adds `space` along the layout's first direction.
    pub fn add_space_primary_direction(&mut self, space: u16)
        ensures
            *final(self) == spaced(
                *old(self),
                if layout_vertical(old(self).layout) {
                    VecI2 { x: 0, y: space }
                } else {
                    VecI2 { x: space, y: 0 }
                },
            ),
    {
        if self.layout.is_primary_horizontal() {
            self.add_space(VecI2::new(space, 0));
        } else {
            self.add_space(VecI2::new(0, space));
        }
    }

    /// Grows the area used by `translation` away from the layout's corner
    /// ([`expanded`]).
    pub fn expand(&mut self, translation: VecI2)
        ensures
            *final(self) == (Ui {
                current: expanded(old(self).layout, old(self).current, translation),
                ..*old(self)
            }),
    {
        match self.layout {
            Layout::TopLeftHorizontal | Layout::TopLeftVertical => {
                self.current.add_bottom_right(translation)
            },
            Layout::TopRightHorizontal | Layout::TopRightVertical => {
                self.current.add_bottom_right(VecI2::new(translation.x, 0));
                self.current.add_top_left(VecI2::new(0, translation.y))
            },
            Layout::BottomLeftHorizontal | Layout::BottomLeftVertical => {
                self.current.add_bottom_right(VecI2::new(0, translation.y));
                self.current.add_top_left(VecI2::new(translation.x, 0))
            },
            Layout::BottomRightHorizontal | Layout::BottomRightVertical => {
                self.current.add_top_left(translation)
            },
        }
    }

    /// Makes the area used at least `min`, cut to the area left; only the
    /// layouts from the top left corner have this.
    pub fn set_minimum_size(&mut self, min: VecI2)
        requires
            layout_corner(old(self).layout) is TopLeft,
        ensures
            *final(self) == (Ui {
                current: Rect {
                    width: max16(old(self).current.width, min16(min.x, old(self).max_rect.width)),
                    height: max16(old(self).current.height, min16(min.y, old(self).max_rect.height)),
                    ..old(self).current
                },
                ..*old(self)
            }),
    {
        let mx = if min.x <= self.max_rect.width { min.x } else { self.max_rect.width };
        let my = if min.y <= self.max_rect.height { min.y } else { self.max_rect.height };
        if self.current.width < mx {
            self.current.width = mx;
        }
        if self.current.height < my {
            self.current.height = my;
        }
    }

    /// Gives room of `desired` at the cursor ([`allocated`]) and returns it.
    fn allocate_size(&mut self, desired: VecI2) -> (r: Rect)
        ensures
            *final(self) == allocated(*old(self), desired),
            r == rect_between(old(self).cursor, spaced(*old(self), desired).cursor),
    {
        let old_cursor = self.cursor;
        let old_max = self.max_rect;
        self.add_space(desired);
        let new_cursor = self.cursor;
        if self.layout.is_primary_vertical() {
            self.cursor.x = old_cursor.x;
            self.max_rect.x = old_max.x;
            self.max_rect.width = old_max.width;
        } else {
            self.cursor.y = old_cursor.y;
            self.max_rect.y = old_max.y;
            self.max_rect.height = old_max.height;
        }
        Rect::new_pos_pos(old_cursor, new_cursor)
    }

    /// Whether `rect` lies before the cursor ([`before_cursor`]), so that it
    /// cannot be given as room.
    pub fn is_before_cursor(&self, rect: Rect) -> (r: bool)
        ensures
            r == before_cursor(*self, rect),
    {
        let start = match self.layout {
            Layout::TopLeftVertical | Layout::TopLeftHorizontal => rect.top_left(),
            Layout::TopRightVertical | Layout::TopRightHorizontal => rect.top_right(),
            Layout::BottomLeftVertical | Layout::BottomLeftHorizontal => rect.bottom_left(),
            Layout::BottomRightVertical | Layout::BottomRightHorizontal => rect.bottom_right(),
        };
        let mut inner = rect;
        inner.shrink_evenly(1);
        !(start == self.cursor) && inner.contains(self.cursor.x, self.cursor.y)
    }

    /// Gives the room that holds `rect` ([`area_size`]), which must not lie
    /// before the cursor.
    fn allocate_area(&mut self, rect: Rect) -> (r: Rect)
        requires
            !before_cursor(*old(self), rect),
        ensures
            *final(self) == allocated(*old(self), area_size(*old(self), rect)),
            r == rect_between(old(self).cursor, spaced(*old(self), area_size(*old(self), rect)).cursor),
    {
        let start = match self.layout {
            Layout::TopLeftVertical | Layout::TopLeftHorizontal => rect.top_left(),
            Layout::TopRightVertical | Layout::TopRightHorizontal => rect.top_right(),
            Layout::BottomLeftVertical | Layout::BottomLeftHorizontal => rect.bottom_left(),
            Layout::BottomRightVertical | Layout::BottomRightHorizontal => rect.bottom_right(),
        };
        if start == self.cursor {
            self.allocate_size(rect.size())
        } else {
            let mut cpy = rect;
            cpy.shrink_evenly(1);
            let at = Rect::new_pos_size(self.cursor, VecI2::new(0, 0));
            cpy.expand_to_include(&at);
            self.allocate_size(cpy.size())
        }
    }

    /// Starts a nested layout `layout` over the area left ([`sub_layout`]);
    /// what is placed in it is given room by [`Ui::end_layout`].
    pub fn begin_layout(&self, layout: Layout) -> (r: Ui)
        ensures
            r == sub_layout(*self, layout),
    {
        let mut ui = *self;
        ui.cursor = match layout {
            Layout::TopLeftHorizontal | Layout::TopLeftVertical => ui.max_rect.top_left(),
            Layout::TopRightHorizontal | Layout::TopRightVertical => ui.max_rect.top_right_inner(),
            Layout::BottomLeftHorizontal | Layout::BottomLeftVertical => {
                ui.max_rect.bottom_left_inner()
            },
            Layout::BottomRightHorizontal | Layout::BottomRightVertical => {
                ui.max_rect.bottom_right_inner()
            },
        };
        ui.current = Rect::new_pos_size(ui.cursor, VecI2::new(0, 0));
        ui.layout = layout;
        ui
    }

    /// Starts a nested vertical layout from the same corner.
    pub fn begin_vertical(&self) -> (r: Ui)
        ensures
            layout_vertical(r.layout) && same_corner(r.layout, self.layout),
            r == sub_layout(*self, r.layout),
    {
        self.begin_layout(self.layout.to_vertical())
    }

    /// Starts a nested horizontal layout from the same corner.
    pub fn begin_horizontal(&self) -> (r: Ui)
        ensures
            !layout_vertical(r.layout) && same_corner(r.layout, self.layout),
            r == sub_layout(*self, r.layout),
    {
        self.begin_layout(self.layout.to_horizontal())
    }

    /// Ends a nested layout: gives room for what it used.
    pub fn end_layout(&mut self, inner: &Ui)
        requires
            !before_cursor(*old(self), inner.current),
        ensures
            *final(self) == allocated(*old(self), area_size(*old(self), inner.current)),
    {
        self.allocate_area(inner.current);
    }

    /// Starts a nested user interface over room of `size` given at the cursor.
    pub fn with_size(&mut self, size: VecI2) -> (r: Ui)
        ensures
            *final(self) == allocated(*old(self), size),
            ({
                let area = rect_between(old(self).cursor, spaced(*old(self), size).cursor);
                r == (Ui {
                    clip: area,
                    max_rect: area,
                    current: area,
                    cursor: VecI2 { x: area.x, y: area.y },
                    ..child_of(*final(self))
                })
            }),
    {
        let area = self.allocate_size(size);
        let mut child = self.child();
        child.clip = area;
        child.max_rect = area;
        child.current = area;
        child.cursor = area.top_left();
        child
    }

    /// Starts the inside of a border at the cursor ([`border_child`]).
    pub fn begin_bordered(&self) -> (r: Ui)
        ensures
            r == border_child(*self),
    {
        let start_clip = self.clip;
        let start_max_rect = self.max_rect;
        let mut child = self.child();
        child.add_space(VecI2::new(1, 1));
        child.max_rect = start_max_rect;
        child.max_rect.shrink_evenly(1);
        child.clip = start_clip;
        child.clip.shrink_evenly(1);
        child.current = Rect::new_pos_size(child.cursor, VecI2::new(0, 0));
        child
    }

    /// Ends a border begun at the cursor with what was placed inside it: gives
    /// room for the border ([`border_of`]) and returns it, to be drawn.
    pub fn end_bordered(&mut self, inside: Ui) -> (r: Rect)
        ensures
            r == border_of(old(self).cursor, inside),
            *final(self) == allocated(
                *old(self),
                VecI2 { x: r.width, y: r.height },
            ),
    {
        let mut child = inside;
        let at = Rect::new_pos_size(self.cursor, VecI2::new(0, 0));
        child.current.expand_to_include(&at);
        child.expand(VecI2::new(1, 1));
        let border = child.current;
        self.allocate_size(border.size());
        border
    }
}

/// A mouse event moves the mouse to its cell and acts on the button it names,
/// the left one in slot 0, the middle one in slot 1 and the right one in slot
/// 2: a press sets it down, a release up, a drag dragging, leaving the other
/// two as they were; the wheel counts one down or up per turn.
pub proof fn law_mouse_events(m: MouseState, column: u16, row: u16, k: int)
    requires
        0 <= k < 3,
    ensures
        mouse_after(m, column, row, MouseEventKind::Down(MouseButton::Left)).buttons@[0]
            == MouseButtonState::Down,
        mouse_after(m, column, row, MouseEventKind::Down(MouseButton::Middle)).buttons@[1]
            == MouseButtonState::Down,
        mouse_after(m, column, row, MouseEventKind::Down(MouseButton::Right)).buttons@[2]
            == MouseButtonState::Down,
        mouse_after(m, column, row, MouseEventKind::Up(MouseButton::Left)).buttons@[0]
            == MouseButtonState::Up,
        mouse_after(m, column, row, MouseEventKind::Drag(MouseButton::Left)).buttons@[0]
            == MouseButtonState::Drag,
        k != 0 ==> mouse_after(m, column, row, MouseEventKind::Down(MouseButton::Left)).buttons@[k]
            == m.buttons@[k],
        k != 1 ==> mouse_after(m, column, row, MouseEventKind::Down(MouseButton::Middle)).buttons@[k]
            == m.buttons@[k],
        k != 2 ==> mouse_after(m, column, row, MouseEventKind::Down(MouseButton::Right)).buttons@[k]
            == m.buttons@[k],
        mouse_after(m, column, row, MouseEventKind::Moved).position == (VecI2 { x: column, y: row }),
        mouse_after(m, column, row, MouseEventKind::Moved).buttons == m.buttons,
        mouse_after(m, column, row, MouseEventKind::ScrollUp).scroll as int == (m.scroll + 1) as i16,
        mouse_after(m, column, row, MouseEventKind::ScrollDown).scroll as int == (m.scroll - 1) as i16,
{
}

/// A frame later a button keeps being down or up, as it was, and settles: a
/// fresh press is held and a fresh release is unpressed, and a settled state
/// stays.
pub proof fn law_button_settles(s: MouseButtonState)
    ensures
        (next_button_state(s) is Down || next_button_state(s) is Held || next_button_state(s) is Drag)
            == (s is Down || s is Held || s is Drag),
        next_button_state(next_button_state(s)) == next_button_state(s),
        !(next_button_state(s) is Down) && !(next_button_state(s) is Up),
{
}

/// Each layout runs first in the direction its name gives, from the corner
/// its name gives.
pub proof fn law_layout_names()
    ensures
        layout_vertical(Layout::TopLeftVertical) && !layout_vertical(Layout::TopLeftHorizontal),
        layout_vertical(Layout::TopRightVertical) && !layout_vertical(Layout::TopRightHorizontal),
        layout_vertical(Layout::BottomLeftVertical) && !layout_vertical(Layout::BottomLeftHorizontal),
        layout_vertical(Layout::BottomRightVertical) && !layout_vertical(
            Layout::BottomRightHorizontal,
        ),
        layout_corner(Layout::TopLeftVertical) is TopLeft && layout_corner(Layout::TopLeftHorizontal) is TopLeft,
        layout_corner(Layout::TopRightVertical) is TopRight && layout_corner(Layout::TopRightHorizontal) is TopRight,
        layout_corner(Layout::BottomLeftVertical) is BottomLeft && layout_corner(Layout::BottomLeftHorizontal) is BottomLeft,
        layout_corner(Layout::BottomRightVertical) is BottomRight && layout_corner(
            Layout::BottomRightHorizontal,
        ) is BottomRight,
{
}

/// Space moves the cursor away from the layout's corner: right and down from
/// the top left, left and down from the top right, right and up from the
/// bottom left, left and up from the bottom right; no space leaves it where
/// it is, and two spaces that stay on the grid move it as far as their sum.
pub proof fn law_ui_space(u: Ui, a: VecI2, b: VecI2)
    ensures
        layout_corner(u.layout) is TopLeft ==> spaced(u, a).cursor.x >= u.cursor.x && spaced(u, a).cursor.y
            >= u.cursor.y,
        layout_corner(u.layout) is TopRight ==> spaced(u, a).cursor.x <= u.cursor.x && spaced(u, a).cursor.y
            >= u.cursor.y,
        layout_corner(u.layout) is BottomLeft ==> spaced(u, a).cursor.x >= u.cursor.x && spaced(u, a).cursor.y
            <= u.cursor.y,
        layout_corner(u.layout) is BottomRight ==> spaced(u, a).cursor.x <= u.cursor.x && spaced(
            u,
            a,
        ).cursor.y <= u.cursor.y,
        spaced(u, VecI2 { x: 0, y: 0 }).cursor == u.cursor,
        layout_corner(u.layout) is TopLeft && u.cursor.x + a.x + b.x <= u16::MAX && u.cursor.y + a.y
            + b.y <= u16::MAX ==> spaced(spaced(u, a), b).cursor == spaced(
            u,
            VecI2 { x: (a.x + b.x) as u16, y: (a.y + b.y) as u16 },
        ).cursor,
        spaced(u, a).layout == u.layout,
{
}

/// Giving room moves the cursor only along the layout's first direction:
/// down or up in a vertical layout, sideways in a horizontal one, by the size
/// given (from the top left corner, while on the grid).
pub proof fn law_ui_allocate(u: Ui, size: VecI2)
    ensures
        layout_vertical(u.layout) ==> allocated(u, size).cursor.x == u.cursor.x,
        !layout_vertical(u.layout) ==> allocated(u, size).cursor.y == u.cursor.y,
        u.layout == Layout::TopLeftVertical && u.cursor.y + size.y <= u16::MAX ==> allocated(u, size).cursor.y
            == u.cursor.y + size.y,
        u.layout == Layout::TopLeftHorizontal && u.cursor.x + size.x <= u16::MAX ==> allocated(u, size).cursor.x
            == u.cursor.x + size.x,
{
}

/// A button that went down this frame.
pub open spec fn button_clicked(s: MouseButtonState) -> bool {
    s == MouseButtonState::Down
}

/// A button that was let go this frame.
pub open spec fn button_released(s: MouseButtonState) -> bool {
    s == MouseButtonState::Up
}

/// A button held down, from the frame it went down on, dragging or not.
pub open spec fn button_pressed(s: MouseButtonState) -> bool {
    s == MouseButtonState::Down || s == MouseButtonState::Held || s == MouseButtonState::Drag
}

/// A press reads as a click on its frame only, and as pressed from then on
/// until the release, which reads as released on its frame only; dragging
/// is pressed but no click.
pub proof fn law_click_frames(m: MouseState, column: u16, row: u16)
    ensures
        ({
            let s = mouse_after(m, column, row, MouseEventKind::Down(MouseButton::Left)).buttons@[0];
            &&& button_clicked(s) && button_pressed(s) && !button_released(s)
            &&& !button_clicked(next_button_state(s)) && button_pressed(next_button_state(s))
        }),
        ({
            let s = mouse_after(m, column, row, MouseEventKind::Up(MouseButton::Left)).buttons@[0];
            &&& button_released(s) && !button_pressed(s) && !button_clicked(s)
            &&& !button_released(next_button_state(s)) && !button_pressed(next_button_state(s))
        }),
        ({
            let s = mouse_after(m, column, row, MouseEventKind::Drag(MouseButton::Left)).buttons@[0];
            button_pressed(s) && !button_clicked(s) && !button_released(s)
        }),
{
}

} // verus!
