use stardust::userland::hid::{
    encode_keyboard_byte, encode_mouse_packet, from_mouse, init_sequence, output_full, Ps2State,
};
use stardust::userland::pci::{device_present, display_report, is_display_controller, pci_config_address};
use stardust::userland::ui::{draw_cursor, draw_window, DrawRect, UiState, DESKTOP_COLOR, INITIAL_TITLE_COLOR};

const FB_W: i32 = 1024;
const FB_H: i32 = 768;

fn state(mouse_x: i32, mouse_y: i32, win_x: i32, win_y: i32) -> UiState {
    UiState {
        mouse_x,
        mouse_y,
        win_x,
        win_y,
        is_dragging: false,
        drag_offset_x: 0,
        drag_offset_y: 0,
        win_color: INITIAL_TITLE_COLOR,
    }
}

// ---------------------------------------------------------------- drawing

#[test]
fn cursor_is_two_squares() {
    assert_eq!(
        draw_cursor(5, 7),
        vec![
            DrawRect { x: 5, y: 7, width: 6, height: 6, color: 0xFFFFFF },
            DrawRect { x: 6, y: 8, width: 4, height: 4, color: 0 },
        ]
    );
}

#[test]
fn window_rectangles_back_to_front() {
    let w = draw_window(200, 150, 400, 250, 0x0055AA);
    assert_eq!(w.len(), 9);
    assert_eq!(w[0], DrawRect { x: 206, y: 156, width: 400, height: 250, color: 0x111111 });
    assert_eq!(w[1], DrawRect { x: 200, y: 150, width: 400, height: 250, color: 0xDDDDDD });
    assert_eq!(w[2], DrawRect { x: 200, y: 150, width: 400, height: 24, color: 0x0055AA });
    assert_eq!(w[3], DrawRect { x: 576, y: 154, width: 16, height: 16, color: 0xFF4444 });
    assert_eq!(w[4], DrawRect { x: 210, y: 184, width: 380, height: 206, color: 0xFFFFFF });
    assert_eq!(w[8], DrawRect { x: 230, y: 290, width: 220, height: 10, color: 0xAAAAAA });
}

#[test]
fn desktop_starts_centred() {
    let s = UiState::new(FB_W, FB_H);
    assert_eq!(s, state(512, 384, 200, 150));
    let frame = s.initial_frame(FB_W, FB_H);
    assert_eq!(frame.len(), 12);
    assert_eq!(frame[0], DrawRect { x: 0, y: 0, width: FB_W, height: FB_H, color: DESKTOP_COLOR });
    assert_eq!(frame[1..10].to_vec(), draw_window(200, 150, 400, 250, INITIAL_TITLE_COLOR));
    assert_eq!(frame[10..].to_vec(), draw_cursor(512, 384));
}

// ---------------------------------------------------------------- messages

#[test]
fn empty_and_unknown_messages_change_nothing() {
    let mut s = UiState::new(FB_W, FB_H);
    let before = s;
    assert!(s.handle_message(0, FB_W, FB_H).is_empty());
    assert!(s.handle_message(0x7700_0102, FB_W, FB_H).is_empty());
    assert_eq!(s, before);
}

#[test]
fn mouse_packet_moves_the_cursor_and_redraws() {
    let mut s = UiState::new(FB_W, FB_H);
    let out = s.handle_message(encode_mouse_packet(0, 10, 5), FB_W, FB_H);
    assert_eq!((s.mouse_x, s.mouse_y), (522, 379));
    assert!(!s.is_dragging);
    assert_eq!(out.len(), 13);
    assert_eq!(out[0], DrawRect { x: 512, y: 384, width: 6, height: 6, color: DESKTOP_COLOR });
    assert_eq!(out[1], DrawRect { x: 200, y: 150, width: 406, height: 256, color: DESKTOP_COLOR });
    assert_eq!(out[2..11].to_vec(), draw_window(200, 150, 400, 250, INITIAL_TITLE_COLOR));
    assert_eq!(out[11..].to_vec(), draw_cursor(522, 379));
    s.handle_message(encode_mouse_packet(0, 0xF6, 0xFB), FB_W, FB_H);
    assert_eq!((s.mouse_x, s.mouse_y), (512, 384));
}

#[test]
fn cursor_is_clamped_to_the_screen() {
    let mut s = state(3, 760, 200, 150);
    s.handle_message(encode_mouse_packet(0, 0xF6, 0xEC), FB_W, FB_H);
    assert_eq!((s.mouse_x, s.mouse_y), (0, FB_H - 6));
    let mut t = state(1015, 2, 200, 150);
    t.handle_message(encode_mouse_packet(0, 0x7F, 0x7F), FB_W, FB_H);
    assert_eq!((t.mouse_x, t.mouse_y), (FB_W - 6, 0));
}

#[test]
fn dragging_the_title_bar_moves_the_window() {
    let mut s = state(250, 160, 200, 150);
    s.handle_message(encode_mouse_packet(1, 0, 0), FB_W, FB_H);
    assert!(s.is_dragging);
    assert_eq!((s.drag_offset_x, s.drag_offset_y), (50, 10));
    assert_eq!((s.win_x, s.win_y), (200, 150));
    s.handle_message(encode_mouse_packet(1, 20, 0xFB), FB_W, FB_H);
    assert_eq!((s.mouse_x, s.mouse_y), (270, 165));
    assert_eq!((s.win_x, s.win_y), (220, 155));
    assert_eq!((s.mouse_x - s.win_x, s.mouse_y - s.win_y), (50, 10));
    s.handle_message(encode_mouse_packet(0, 5, 0), FB_W, FB_H);
    assert!(!s.is_dragging);
    assert_eq!((s.win_x, s.win_y), (220, 155));
}

#[test]
fn click_outside_the_title_bar_does_not_drag() {
    let mut s = state(300, 300, 200, 150);
    s.handle_message(encode_mouse_packet(1, 0, 0), FB_W, FB_H);
    assert!(!s.is_dragging);
    s.handle_message(encode_mouse_packet(1, 10, 0), FB_W, FB_H);
    assert_eq!((s.win_x, s.win_y), (200, 150));
}

#[test]
fn key_press_cycles_the_title_colour() {
    let mut s = UiState::new(FB_W, FB_H);
    let out = s.handle_message(encode_keyboard_byte(0x1E), FB_W, FB_H);
    assert_eq!(s.win_color, 0x0066DD);
    assert_eq!(out.len(), 13);
    assert_eq!(out[4], DrawRect { x: 200, y: 150, width: 400, height: 24, color: 0x0066DD });
    assert!(s.handle_message(encode_keyboard_byte(0x9E), FB_W, FB_H).is_empty());
    assert_eq!(s.win_color, 0x0066DD);
    let mut w = state(10, 10, 200, 150);
    w.win_color = 0xFFFFFF;
    w.handle_message(encode_keyboard_byte(0x01), FB_W, FB_H);
    assert_eq!(w.win_color, 0x001132);
}

// ---------------------------------------------------------------- PS/2 driver

#[test]
fn controller_setup_and_status_bits() {
    assert_eq!(init_sequence(), [(0x64, 0xA8), (0x64, 0xD4), (0x60, 0xF4)]);
    assert!(output_full(0x21));
    assert!(!output_full(0x20));
    assert!(from_mouse(0x21));
    assert!(!from_mouse(0x01));
}

#[test]
fn hid_messages() {
    assert_eq!(encode_mouse_packet(0x09, 0x10, 0xF0), 0x5E09_10F0);
    assert_eq!(encode_keyboard_byte(0x1E), 0x1100_001E);
}

#[test]
fn mouse_bytes_assemble_into_packets() {
    let mut p = Ps2State::new();
    assert_eq!(p.handle_byte(true, 0x09), None);
    assert_eq!(p.handle_byte(false, 0x1E), Some(0x1100_001E));
    assert_eq!(p.handle_byte(true, 0x10), None);
    assert_eq!(p.mouse_cycle, 2);
    assert_eq!(p.handle_byte(true, 0xF0), Some(0x5E09_10F0));
    assert_eq!(p.mouse_cycle, 0);
    assert_eq!(p.handle_byte(true, 0x08), None);
}

#[test]
fn driver_packets_move_the_desktop_cursor() {
    let mut p = Ps2State::new();
    let mut s = UiState::new(FB_W, FB_H);
    for b in [0x08u8, 0x05, 0xFD] {
        if let Some(msg) = p.handle_byte(true, b) {
            s.handle_message(msg, FB_W, FB_H);
        }
    }
    assert_eq!((s.mouse_x, s.mouse_y), (517, 387));
}

// ---------------------------------------------------------------- PCI

#[test]
fn pci_configuration_addresses() {
    assert_eq!(pci_config_address(0, 1, 0, 0x08), 0x8000_0808);
    assert_eq!(pci_config_address(2, 3, 1, 0x0B), 0x8002_1908);
    assert_eq!(pci_config_address(0, 0, 0, 0), 0x8000_0000);
}

#[test]
fn pci_device_classification() {
    assert!(!device_present(0xFFFF_FFFF));
    assert!(device_present(0x1234_10DE));
    assert!(is_display_controller(0x0300_0000));
    assert!(is_display_controller(0x0380_00A1));
    assert!(!is_display_controller(0x0200_0000));
    assert_eq!(display_report(0x1234_10DE), 0x90DE_1234);
}

#[test]
fn desktop_states_fit_the_screen() {
    let s = UiState::new(FB_W, FB_H);
    assert!(s.fits_screen(FB_W, FB_H));
    assert!(state(-6, FB_H, -500, FB_H + 150).fits_screen(FB_W, FB_H));
    assert!(!state(-7, 0, 200, 150).fits_screen(FB_W, FB_H));
    assert!(!state(0, 0, FB_W + 201, 150).fits_screen(FB_W, FB_H));
    let mut colour = s;
    colour.win_color = 0x100_0000;
    assert!(!colour.fits_screen(FB_W, FB_H));
    let mut drag = s;
    drag.drag_offset_y = 25;
    assert!(!drag.fits_screen(FB_W, FB_H));
}

#[test]
fn cursor_stays_on_screen_over_a_run() {
    let (w, h) = (12, 12);
    let mut s = UiState::new(w, h);
    assert_eq!((s.mouse_x, s.mouse_y), (6, 6));
    let msgs = [
        encode_mouse_packet(0, 0x7F, 0x80),
        encode_keyboard_byte(0x1E),
        encode_mouse_packet(1, 0x80, 0x7F),
        0x1234_5678,
        encode_mouse_packet(0, 3, 0xFD),
    ];
    for m in msgs {
        s.handle_message(m, w, h);
        assert!(0 <= s.mouse_x && s.mouse_x <= w - 6);
        assert!(0 <= s.mouse_y && s.mouse_y <= h - 6);
    }
}
