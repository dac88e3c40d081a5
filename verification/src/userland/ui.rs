//! The WebAssembly desktop: window and cursor state, its reaction to HID
//! messages, and the rectangles it draws through the host's `draw_rect`.
use vstd::prelude::*;
use crate::userland::hid::{
    keyboard_message, lemma_keyboard_message_decodes, lemma_mouse_message_decodes, mouse_message,
};

verus! {

/// A filled rectangle drawn in the framebuffer.
#[derive(Debug, Clone, Copy, PartialEq, Eq, Structural)]
pub struct DrawRect {
    pub x: i32,
    pub y: i32,
    pub width: i32,
    pub height: i32,
    pub color: i32,
}

/// Width of the desktop window.
pub const WIN_W: i32 = 400;

/// Height of the desktop window.
pub const WIN_H: i32 = 250;

/// Height of the window's title bar.
pub const TITLE_BAR_H: i32 = 24;

/// Size of the square cursor.
pub const CURSOR_SIZE: i32 = 6;

/// Colour of the desktop background.
pub const DESKTOP_COLOR: i32 = 0x223344;

/// Initial colour of the window's title bar.
pub const INITIAL_TITLE_COLOR: u32 = 0x0055AA;

/// Message identifier of mouse packets.
pub const MOUSE_MESSAGE_ID: u64 = 0x5E;

/// Message identifier of keyboard packets.
pub const KEYBOARD_MESSAGE_ID: u64 = 0x11;

/// Largest framebuffer dimension for which the desktop's 32-bit coordinate
/// arithmetic cannot overflow.
pub const MAX_FB_DIM: i32 = 0x7FFF_0000;

/// The rectangles of the cursor at (`x`, `y`): a white 6x6 square with a
/// black 4x4 interior.
pub open spec fn cursor_rects(x: i32, y: i32) -> Seq<DrawRect> {
    seq![
        DrawRect { x, y, width: 6, height: 6, color: 0xFFFFFF },
        DrawRect { x: (x + 1) as i32, y: (y + 1) as i32, width: 4, height: 4, color: 0 },
    ]
}

/// The rectangles of a window, back to front: shadow, frame, title bar,
/// close button, content area and placeholder widgets.
pub open spec fn window_rects(x: i32, y: i32, w: i32, h: i32, title_color: u32) -> Seq<DrawRect> {
    seq![
        DrawRect { x: (x + 6) as i32, y: (y + 6) as i32, width: w, height: h, color: 0x111111 },
        DrawRect { x, y, width: w, height: h, color: 0xDDDDDD },
        DrawRect { x, y, width: w, height: 24, color: title_color as i32 },
        DrawRect { x: (x + w - 24) as i32, y: (y + 4) as i32, width: 16, height: 16, color: 0xFF4444 },
        DrawRect { x: (x + 10) as i32, y: (y + 34) as i32, width: (w - 20) as i32, height: (h - 44) as i32, color: 0xFFFFFF },
        DrawRect { x: (x + 30) as i32, y: (y + 60) as i32, width: 100, height: 20, color: 0x3366FF },
        DrawRect { x: (x + 30) as i32, y: (y + 100) as i32, width: 200, height: 10, color: 0xAAAAAA },
        DrawRect { x: (x + 30) as i32, y: (y + 120) as i32, width: 180, height: 10, color: 0xAAAAAA },
        DrawRect { x: (x + 30) as i32, y: (y + 140) as i32, width: 220, height: 10, color: 0xAAAAAA },
    ]
}

/// Whether drawing at (`x`, `y`) with size (`w`, `h`) keeps every coordinate
/// that the window's rectangles compute within 32 bits.
pub open spec fn window_in_range(x: int, y: int, w: int, h: int) -> bool {
    &&& x + 30 <= i32::MAX
    &&& y + 140 <= i32::MAX
    &&& x + w <= i32::MAX
    &&& i32::MIN <= x + w - 24
    &&& i32::MIN <= w - 20
    &&& i32::MIN <= h - 44
}

/// The rectangles of the cursor at (`x`, `y`).
pub fn draw_cursor(x: i32, y: i32) -> (r: Vec<DrawRect>)
    requires
        x < i32::MAX,
        y < i32::MAX,
    ensures
        r@ == cursor_rects(x, y),
{
    let mut v = Vec::new();
    v.push(DrawRect { x, y, width: 6, height: 6, color: 0xFFFFFF });
    v.push(DrawRect { x: x + 1, y: y + 1, width: 4, height: 4, color: 0x000000 });
    v
}

/// The rectangles of a window at (`x`, `y`) of size (`w`, `h`) whose title
/// bar has colour `title_color`, back to front.
pub fn draw_window(x: i32, y: i32, w: i32, h: i32, title_color: u32) -> (r: Vec<DrawRect>)
    requires
        window_in_range(x as int, y as int, w as int, h as int),
    ensures
        r@ == window_rects(x, y, w, h, title_color),
{
    let mut v = Vec::new();
    v.push(DrawRect { x: x + 6, y: y + 6, width: w, height: h, color: 0x111111 });
    v.push(DrawRect { x, y, width: w, height: h, color: 0xDDDDDD });
    v.push(DrawRect { x, y, width: w, height: 24, color: title_color as i32 });
    v.push(DrawRect { x: x + w - 24, y: y + 4, width: 16, height: 16, color: 0xFF4444 });
    v.push(DrawRect { x: x + 10, y: y + 34, width: w - 20, height: h - 44, color: 0xFFFFFF });
    v.push(DrawRect { x: x + 30, y: y + 60, width: 100, height: 20, color: 0x3366FF });
    v.push(DrawRect { x: x + 30, y: y + 100, width: 200, height: 10, color: 0xAAAAAA });
    v.push(DrawRect { x: x + 30, y: y + 120, width: 180, height: 10, color: 0xAAAAAA });
    v.push(DrawRect { x: x + 30, y: y + 140, width: 220, height: 10, color: 0xAAAAAA });
    assert(v@ =~= window_rects(x, y, w, h, title_color));
    v
}

/// The desktop's state: cursor, window position, drag state and title
/// colour.
#[derive(Debug, Clone, Copy, PartialEq, Eq, Structural)]
pub struct UiState {
    pub mouse_x: i32,
    pub mouse_y: i32,
    pub win_x: i32,
    pub win_y: i32,
    pub is_dragging: bool,
    pub drag_offset_x: i32,
    pub drag_offset_y: i32,
    pub win_color: u32,
}

/// A byte as a two's-complement signed value.
pub open spec fn signed_byte(b: int) -> int {
    if b >= 128 {
        b - 256
    } else {
        b
    }
}

/// The field of `msg` of 8 bits starting at bit `8 * k`.
pub open spec fn msg_byte(msg: u64, k: nat) -> int {
    if k == 0 {
        (msg % 256) as int
    } else if k == 1 {
        ((msg / 0x100) % 256) as int
    } else if k == 2 {
        ((msg / 0x1_0000) % 256) as int
    } else {
        ((msg / 0x100_0000) % 256) as int
    }
}

/// `v` confined to [`lo`, `hi`] the way the desktop clamps its cursor: first
/// raised to `lo`, then lowered to `hi`.
pub open spec fn clamp_coord(v: int, lo: int, hi: int) -> int {
    let a = if v < lo {
        lo
    } else {
        v
    };
    if a > hi {
        hi
    } else {
        a
    }
}

/// Whether the framebuffer dimensions are ones the desktop computes with.
pub open spec fn fb_dims_ok(fb_width: i32, fb_height: i32) -> bool {
    0 <= fb_width <= MAX_FB_DIM && 0 <= fb_height <= MAX_FB_DIM
}

/// The desktop state the desktop can be in for a framebuffer of the given
/// size: the cursor inside [min(0, size - 6), max(0, size - 6)], the window
/// no further than its own size away from the cursor range, the drag offsets
/// inside the title bar, the title colour 24 bits wide.
pub open spec fn ui_state_ok(s: UiState, fb_width: i32, fb_height: i32) -> bool {
    &&& -6 <= s.mouse_x <= fb_width
    &&& -6 <= s.mouse_y <= fb_height
    &&& -500 <= s.win_x <= fb_width + 200
    &&& -500 <= s.win_y <= fb_height + 150
    &&& 0 <= s.drag_offset_x <= WIN_W
    &&& 0 <= s.drag_offset_y <= TITLE_BAR_H
    &&& s.win_color <= 0xFFFFFF
}

/// The state after a message, and whether the desktop redraws.
///
/// A mouse packet (identifier 0x5E; flags, dX, dY bytes) moves the cursor by
/// dX and by -dY (signed bytes), clamped to the screen; while the left button
/// is held a press inside the title bar starts a drag and later packets move
/// the window with the cursor; releasing ends the drag. A keyboard packet
/// (identifier 0x11) with a key press (scancode below 0x80) advances the
/// title colour. Anything else changes nothing.
pub open spec fn ui_step(s: UiState, msg: u64, fb_width: i32, fb_height: i32) -> (UiState, bool) {
    let id = msg_byte(msg, 3);
    if msg == 0 {
        (s, false)
    } else if id == MOUSE_MESSAGE_ID {
        let flags = msg_byte(msg, 2);
        let dx = signed_byte(msg_byte(msg, 1));
        let dy = signed_byte(msg_byte(msg, 0));
        let left_click = flags % 2 == 1;
        let mx = clamp_coord(s.mouse_x + dx, 0, fb_width - 6) as i32;
        let my = clamp_coord(s.mouse_y - dy, 0, fb_height - 6) as i32;
        let moved = UiState { mouse_x: mx, mouse_y: my, ..s };
        if left_click {
            if !s.is_dragging {
                if mx >= s.win_x && mx <= s.win_x + WIN_W && my >= s.win_y && my <= s.win_y + TITLE_BAR_H {
                    (
                        UiState {
                            is_dragging: true,
                            drag_offset_x: (mx - s.win_x) as i32,
                            drag_offset_y: (my - s.win_y) as i32,
                            ..moved
                        },
                        true,
                    )
                } else {
                    (moved, true)
                }
            } else {
                (
                    UiState {
                        win_x: (mx - s.drag_offset_x) as i32,
                        win_y: (my - s.drag_offset_y) as i32,
                        ..moved
                    },
                    true,
                )
            }
        } else {
            (UiState { is_dragging: false, ..moved }, true)
        }
    } else if id == KEYBOARD_MESSAGE_ID {
        if msg_byte(msg, 0) < 0x80 {
            (UiState { win_color: ((s.win_color + 0x001133) % 0x100_0000) as u32, ..s }, true)
        } else {
            (s, false)
        }
    } else {
        (s, false)
    }
}

/// What the desktop draws after moving from `old` to `new`: it erases the old
/// cursor and the old window (with its shadow), then draws the window and the
/// cursor at their new places.
pub open spec fn redraw_rects(old: UiState, new: UiState) -> Seq<DrawRect> {
    seq![
        DrawRect { x: old.mouse_x, y: old.mouse_y, width: 6, height: 6, color: DESKTOP_COLOR },
        DrawRect { x: old.win_x, y: old.win_y, width: (WIN_W + 6) as i32, height: (WIN_H + 6) as i32, color: DESKTOP_COLOR },
    ] + window_rects(new.win_x, new.win_y, WIN_W, WIN_H, new.win_color) + cursor_rects(new.mouse_x, new.mouse_y)
}

fn msg_bytes(msg: u64) -> (r: (u64, u64, u64, u64))
    ensures
        r.0 == msg_byte(msg, 3),
        r.1 == msg_byte(msg, 2),
        r.2 == msg_byte(msg, 1),
        r.3 == msg_byte(msg, 0),
{
    let id = (msg >> 24) & 0xFF;
    let flags = (msg >> 16) & 0xFF;
    let bx = (msg >> 8) & 0xFF;
    let by = msg & 0xFF;
    assert(id == (msg / 0x100_0000) % 256 && flags == (msg / 0x1_0000) % 256 && bx == (msg / 0x100) % 256
        && by == msg % 256) by (bit_vector)
        requires
            id == (msg >> 24) & 0xFF,
            flags == (msg >> 16) & 0xFF,
            bx == (msg >> 8) & 0xFF,
            by == msg & 0xFF,
    ;
    (id, flags, bx, by)
}

fn to_signed(b: u64) -> (r: i32)
    requires
        b < 256,
    ensures
        r == signed_byte(b as int),
{
    if b >= 128 {
        b as i32 - 256
    } else {
        b as i32
    }
}

impl UiState {
    /// Whether this is a state the desktop can be in on a framebuffer of the
    /// given size; a caller tests this before handing the state a message.
    pub fn fits_screen(&self, fb_width: i32, fb_height: i32) -> (r: bool)
        ensures
            r == ui_state_ok(*self, fb_width, fb_height),
    {
        -6 <= self.mouse_x && self.mouse_x <= fb_width && -6 <= self.mouse_y && self.mouse_y <= fb_height
            && -500 <= self.win_x && self.win_x as i64 <= fb_width as i64 + 200 && -500 <= self.win_y
            && self.win_y as i64 <= fb_height as i64 + 150 && 0 <= self.drag_offset_x && self.drag_offset_x
            <= WIN_W && 0 <= self.drag_offset_y && self.drag_offset_y <= TITLE_BAR_H && self.win_color
            <= 0xFFFFFF
    }

    /// The desktop at start-up: the cursor at the centre of the screen, the
    /// window at (200, 150), no drag, the initial title colour.
    pub fn new(fb_width: i32, fb_height: i32) -> (s: UiState)
        requires
            fb_dims_ok(fb_width, fb_height),
        ensures
            s == (UiState {
                mouse_x: (fb_width / 2) as i32,
                mouse_y: (fb_height / 2) as i32,
                win_x: 200,
                win_y: 150,
                is_dragging: false,
                drag_offset_x: 0,
                drag_offset_y: 0,
                win_color: INITIAL_TITLE_COLOR,
            }),
            s == initial_ui_state(fb_width, fb_height),
            ui_state_ok(s, fb_width, fb_height),
    {
        UiState {
            mouse_x: fb_width / 2,
            mouse_y: fb_height / 2,
            win_x: 200,
            win_y: 150,
            is_dragging: false,
            drag_offset_x: 0,
            drag_offset_y: 0,
            win_color: INITIAL_TITLE_COLOR,
        }
    }

    /// The first frame: the whole screen in the desktop colour, then the
    /// window, then the cursor.
    pub fn initial_frame(&self, fb_width: i32, fb_height: i32) -> (r: Vec<DrawRect>)
        requires
            fb_dims_ok(fb_width, fb_height),
            ui_state_ok(*self, fb_width, fb_height),
        ensures
            r@ == seq![DrawRect { x: 0, y: 0, width: fb_width, height: fb_height, color: DESKTOP_COLOR }]
                + window_rects(self.win_x, self.win_y, WIN_W, WIN_H, self.win_color) + cursor_rects(
                self.mouse_x,
                self.mouse_y,
            ),
    {
        let mut v = Vec::new();
        v.push(DrawRect { x: 0, y: 0, width: fb_width, height: fb_height, color: DESKTOP_COLOR });
        let mut w = draw_window(self.win_x, self.win_y, WIN_W, WIN_H, self.win_color);
        v.append(&mut w);
        let mut c = draw_cursor(self.mouse_x, self.mouse_y);
        v.append(&mut c);
        v
    }

    /// Reacts to one IPC message and returns what must be drawn (nothing when
    /// the desktop does not redraw).
    pub fn handle_message(&mut self, msg: u64, fb_width: i32, fb_height: i32) -> (r: Vec<DrawRect>)
        requires
            fb_dims_ok(fb_width, fb_height),
            ui_state_ok(*old(self), fb_width, fb_height),
        ensures
            *final(self) == ui_step(*old(self), msg, fb_width, fb_height).0,
            ui_state_ok(*final(self), fb_width, fb_height),
            ui_step(*old(self), msg, fb_width, fb_height).1 ==> r@ == redraw_rects(*old(self), *final(self)),
            !ui_step(*old(self), msg, fb_width, fb_height).1 ==> r@.len() == 0,
    {
        let ghost s0 = *self;
        if msg == 0 {
            return Vec::new();
        }
        let (id, flags, bx, by) = msg_bytes(msg);
        let old_mx = self.mouse_x;
        let old_my = self.mouse_y;
        let old_wx = self.win_x;
        let old_wy = self.win_y;
        let mut needs_redraw = false;
        if id == MOUSE_MESSAGE_ID {
            let dx = to_signed(bx);
            let dy = to_signed(by);
            let left_click = (flags & 0x01) != 0;
            assert(left_click == (flags % 2 == 1)) by (bit_vector)
                requires
                    left_click == ((flags & 0x01) != 0),
            ;
            self.mouse_x += dx;
            self.mouse_y -= dy;
            if self.mouse_x < 0 {
                self.mouse_x = 0;
            }
            if self.mouse_y < 0 {
                self.mouse_y = 0;
            }
            if self.mouse_x > fb_width - 6 {
                self.mouse_x = fb_width - 6;
            }
            if self.mouse_y > fb_height - 6 {
                self.mouse_y = fb_height - 6;
            }
            if left_click {
                if !self.is_dragging {
                    if self.mouse_x >= self.win_x && self.mouse_x <= self.win_x + WIN_W && self.mouse_y
                        >= self.win_y && self.mouse_y <= self.win_y + TITLE_BAR_H {
                        self.is_dragging = true;
                        self.drag_offset_x = self.mouse_x - self.win_x;
                        self.drag_offset_y = self.mouse_y - self.win_y;
                    }
                } else {
                    self.win_x = self.mouse_x - self.drag_offset_x;
                    self.win_y = self.mouse_y - self.drag_offset_y;
                }
            } else {
                self.is_dragging = false;
            }
            needs_redraw = true;
        } else if id == KEYBOARD_MESSAGE_ID {
            let scancode = by;
            if scancode < 0x80 {
                let sum: u32 = self.win_color + 0x001133;
                let c: u32 = sum & 0xFFFFFF;
                assert(c == sum % 0x100_0000) by (bit_vector)
                    requires
                        c == sum & 0xFFFFFF,
                ;
                self.win_color = c;
                needs_redraw = true;
            }
        }
        let mut out: Vec<DrawRect> = Vec::new();
        if needs_redraw {
            out.push(DrawRect { x: old_mx, y: old_my, width: 6, height: 6, color: DESKTOP_COLOR });
            out.push(DrawRect { x: old_wx, y: old_wy, width: WIN_W + 6, height: WIN_H + 6, color: DESKTOP_COLOR });
            let mut w = draw_window(self.win_x, self.win_y, WIN_W, WIN_H, self.win_color);
            out.append(&mut w);
            let mut c = draw_cursor(self.mouse_x, self.mouse_y);
            out.append(&mut c);
        }
        out
    }
}

/// What the PS/2 driver sends is what the desktop acts on: a mouse packet
/// moves the cursor by its X delta and against its Y delta (signed bytes),
/// clamped to the screen, and always redraws; without the left button it
/// ends any drag and leaves the window in place. A key press advances the
/// title colour; a key release changes nothing.
pub proof fn lemma_driver_messages_reach_desktop(
    s: UiState,
    flags: u8,
    dx: u8,
    dy: u8,
    scancode: u8,
    fb_width: i32,
    fb_height: i32,
)
    requires
        fb_dims_ok(fb_width, fb_height),
        ui_state_ok(s, fb_width, fb_height),
    ensures
        ({
            let (t, redraw) = ui_step(s, mouse_message(flags, dx, dy), fb_width, fb_height);
            &&& redraw
            &&& t.mouse_x == clamp_coord(s.mouse_x + signed_byte(dx as int), 0, fb_width - 6)
            &&& t.mouse_y == clamp_coord(s.mouse_y - signed_byte(dy as int), 0, fb_height - 6)
            &&& t.win_color == s.win_color
            &&& flags % 2 == 0 ==> !t.is_dragging && t.win_x == s.win_x && t.win_y == s.win_y
        }),
        scancode < 0x80 ==> ui_step(s, keyboard_message(scancode), fb_width, fb_height) == (
            UiState { win_color: ((s.win_color + 0x001133) % 0x100_0000) as u32, ..s },
            true,
        ),
        scancode >= 0x80 ==> ui_step(s, keyboard_message(scancode), fb_width, fb_height) == (s, false),
{
    lemma_mouse_message_decodes(flags, dx, dy);
    lemma_keyboard_message_decodes(scancode);
}

/// The desktop at start-up on a framebuffer of the given size.
pub open spec fn initial_ui_state(fb_width: i32, fb_height: i32) -> UiState {
    UiState {
        mouse_x: (fb_width / 2) as i32,
        mouse_y: (fb_height / 2) as i32,
        win_x: 200,
        win_y: 150,
        is_dragging: false,
        drag_offset_x: 0,
        drag_offset_y: 0,
        win_color: INITIAL_TITLE_COLOR,
    }
}

/// The desktop's state after it has taken the messages `msgs` in order.
pub open spec fn ui_run(s: UiState, msgs: Seq<u64>, fb_width: i32, fb_height: i32) -> UiState
    decreases msgs.len(),
{
    if msgs.len() == 0 {
        s
    } else {
        ui_step(ui_run(s, msgs.drop_last(), fb_width, fb_height), msgs.last(), fb_width, fb_height).0
    }
}

/// Over a whole run of the desktop the cursor stays on the screen: from
/// start-up on a framebuffer of at least 12 x 12 pixels, whatever messages
/// arrive, the cursor (drawn at start-up and after each message that
/// redraws) lies inside [0, width - 6] x [0, height - 6].
pub proof fn lemma_cursor_on_screen_over_run(msgs: Seq<u64>, fb_width: i32, fb_height: i32)
    requires
        fb_dims_ok(fb_width, fb_height),
        fb_width >= 12,
        fb_height >= 12,
    ensures
        ({
            let s = ui_run(initial_ui_state(fb_width, fb_height), msgs, fb_width, fb_height);
            &&& 0 <= s.mouse_x <= fb_width - 6
            &&& 0 <= s.mouse_y <= fb_height - 6
        }),
    decreases msgs.len(),
{
    if msgs.len() > 0 {
        lemma_cursor_on_screen_over_run(msgs.drop_last(), fb_width, fb_height);
    }
}

/// After every mouse packet the cursor lies on the screen: inside
/// [0, width - 6] x [0, height - 6], for a screen at least as large as the
/// cursor.
pub proof fn lemma_cursor_stays_on_screen(s: UiState, msg: u64, fb_width: i32, fb_height: i32)
    requires
        fb_dims_ok(fb_width, fb_height),
        fb_width >= 6,
        fb_height >= 6,
        ui_state_ok(s, fb_width, fb_height),
        msg != 0,
        msg_byte(msg, 3) == MOUSE_MESSAGE_ID,
    ensures
        0 <= ui_step(s, msg, fb_width, fb_height).0.mouse_x <= fb_width - 6,
        0 <= ui_step(s, msg, fb_width, fb_height).0.mouse_y <= fb_height - 6,
{
}

/// While a drag is in progress, the window keeps its offset to the cursor:
/// every packet with the left button held moves the window with the cursor.
pub proof fn lemma_drag_keeps_offset(s: UiState, msg: u64, fb_width: i32, fb_height: i32)
    requires
        fb_dims_ok(fb_width, fb_height),
        ui_state_ok(s, fb_width, fb_height),
        s.is_dragging,
        msg != 0,
        msg_byte(msg, 3) == MOUSE_MESSAGE_ID,
        msg_byte(msg, 2) % 2 == 1,
    ensures
        ({
            let n = ui_step(s, msg, fb_width, fb_height).0;
            &&& n.is_dragging
            &&& n.mouse_x - n.win_x == s.drag_offset_x
            &&& n.mouse_y - n.win_y == s.drag_offset_y
        }),
{
}

/// Key releases (scancodes 0x80 and above) and unknown messages leave the
/// desktop unchanged and cause no redraw.
pub proof fn lemma_ignored_messages(s: UiState, msg: u64, fb_width: i32, fb_height: i32)
    requires
        msg_byte(msg, 3) != MOUSE_MESSAGE_ID,
        msg_byte(msg, 3) != KEYBOARD_MESSAGE_ID || msg_byte(msg, 0) >= 0x80,
    ensures
        ui_step(s, msg, fb_width, fb_height) == (s, false),
{
}

} // verus!
