//! The PS/2 input driver: assembly of 3-byte mouse packets and encoding of
//! keyboard and mouse events as IPC messages for the desktop.
use vstd::prelude::*;
use crate::userland::ui::{KEYBOARD_MESSAGE_ID, MOUSE_MESSAGE_ID, msg_byte};

verus! {

/// PS/2 controller status and command port.
pub const PS2_STATUS_PORT: u16 = 0x64;

/// PS/2 controller data port.
pub const PS2_DATA_PORT: u16 = 0x60;

/// Acknowledge byte of a PS/2 device.
pub const PS2_ACK: u64 = 0xFA;

/// Number of polls spent waiting for the mouse to acknowledge.
pub const ACK_TIMEOUT: u32 = 100_000;

/// Process that receives input events (the desktop supervisor).
pub const INPUT_TARGET_PID: u64 = 1;

/// The (port, byte) writes that enable the mouse: enable the second port,
/// address the mouse, enable data reporting.
pub fn init_sequence() -> (r: [(u16, u8); 3])
    ensures
        r@ == seq![(0x64u16, 0xA8u8), (0x64u16, 0xD4u8), (0x60u16, 0xF4u8)],
{
    [(PS2_STATUS_PORT, 0xA8), (PS2_STATUS_PORT, 0xD4), (PS2_DATA_PORT, 0xF4)]
}

/// Whether the controller's output buffer holds a byte (status bit 0).
pub fn output_full(status: u64) -> (r: bool)
    ensures
        r == (status % 2 == 1),
{
    let r = (status & 0x01) != 0;
    assert(r == (status % 2 == 1)) by (bit_vector)
        requires
            r == ((status & 0x01) != 0),
    ;
    r
}

/// Whether the byte in the output buffer comes from the mouse (status bit 5).
pub fn from_mouse(status: u64) -> (r: bool)
    ensures
        r == ((status / 32) % 2 == 1),
{
    let r = (status & 0x20) != 0;
    assert(r == ((status / 32) % 2 == 1)) by (bit_vector)
        requires
            r == ((status & 0x20) != 0),
    ;
    r
}

/// The IPC message of a mouse packet: identifier 0x5E, then the flags, X
/// delta and Y delta bytes.
pub open spec fn mouse_message(flags: u8, dx: u8, dy: u8) -> u64 {
    (0x5E * 0x100_0000 + flags * 0x1_0000 + dx * 0x100 + dy) as u64
}

/// The IPC message of a keyboard scancode: identifier 0x11, then the byte.
pub open spec fn keyboard_message(scancode: u8) -> u64 {
    (0x11 * 0x100_0000 + scancode) as u64
}

/// Encodes a complete mouse packet as an IPC message.
pub fn encode_mouse_packet(flags: u8, dx: u8, dy: u8) -> (r: u64)
    ensures
        r == mouse_message(flags, dx, dy),
{
    let f = flags as u64;
    let x = dx as u64;
    let y = dy as u64;
    let r = (0x5E_u64 << 24u64) | (f << 16u64) | (x << 8u64) | y;
    assert(r == 0x5E * 0x100_0000 + f * 0x1_0000 + x * 0x100 + y) by (bit_vector)
        requires
            r == (0x5E_u64 << 24u64) | (f << 16u64) | (x << 8u64) | y,
            f < 256,
            x < 256,
            y < 256,
    ;
    r
}

/// Encodes a keyboard scancode as an IPC message.
pub fn encode_keyboard_byte(data: u8) -> (r: u64)
    ensures
        r == keyboard_message(data),
{
    let d = data as u64;
    let r = (0x11_u64 << 24u64) | d;
    assert(r == 0x11 * 0x100_0000 + d) by (bit_vector)
        requires
            r == (0x11_u64 << 24u64) | d,
            d < 256,
    ;
    r
}

/// The driver's packet assembly state: how many bytes of the current mouse
/// packet have arrived, and those bytes.
pub struct Ps2State {
    pub mouse_cycle: usize,
    pub mouse_packet: [u8; 3],
}

impl Ps2State {
    /// A driver that has received no mouse byte yet.
    pub fn new() -> (s: Ps2State)
        ensures
            s.mouse_cycle == 0,
            s.mouse_packet@ == seq![0u8, 0u8, 0u8],
    {
        Ps2State { mouse_cycle: 0, mouse_packet: [0; 3] }
    }

    /// Takes one byte from the controller. A keyboard byte is sent on at
    /// once; a mouse byte is stored, and the third byte of a packet completes
    /// it: the packet is sent and assembly starts over.
    pub fn handle_byte(&mut self, is_mouse: bool, data: u8) -> (r: Option<u64>)
        requires
            old(self).mouse_cycle < 3,
        ensures
            final(self).mouse_cycle < 3,
            !is_mouse ==> r == Some(keyboard_message(data)) && final(self).mouse_cycle == old(self).mouse_cycle
                && final(self).mouse_packet@ == old(self).mouse_packet@,
            is_mouse ==> final(self).mouse_packet@ == old(self).mouse_packet@.update(
                old(self).mouse_cycle as int,
                data,
            ),
            is_mouse && old(self).mouse_cycle < 2 ==> r is None && final(self).mouse_cycle
                == old(self).mouse_cycle + 1,
            is_mouse && old(self).mouse_cycle == 2 ==> final(self).mouse_cycle == 0 && r == Some(
                mouse_message(old(self).mouse_packet@[0], old(self).mouse_packet@[1], data),
            ),
    {
        if is_mouse {
            self.mouse_packet[self.mouse_cycle] = data;
            self.mouse_cycle += 1;
            if self.mouse_cycle == 3 {
                self.mouse_cycle = 0;
                let flags = self.mouse_packet[0];
                let dx = self.mouse_packet[1];
                let dy = self.mouse_packet[2];
                Some(encode_mouse_packet(flags, dx, dy))
            } else {
                None
            }
        } else {
            Some(encode_keyboard_byte(data))
        }
    }
}

/// What the driver sends is what the desktop reads: a mouse packet's message
/// carries the mouse identifier and the flags, X and Y bytes in the places
/// the desktop decodes them from.
pub proof fn lemma_mouse_message_decodes(flags: u8, dx: u8, dy: u8)
    ensures
        mouse_message(flags, dx, dy) != 0,
        msg_byte(mouse_message(flags, dx, dy), 3) == MOUSE_MESSAGE_ID,
        msg_byte(mouse_message(flags, dx, dy), 2) == flags,
        msg_byte(mouse_message(flags, dx, dy), 1) == dx,
        msg_byte(mouse_message(flags, dx, dy), 0) == dy,
{
    let m = mouse_message(flags, dx, dy);
    let f = flags as u64;
    let x = dx as u64;
    let y = dy as u64;
    assert(m == 0x5E * 0x100_0000 + f * 0x1_0000 + x * 0x100 + y);
    assert((m / 0x100_0000) % 256 == 0x5E && (m / 0x1_0000) % 256 == f && (m / 0x100) % 256 == x && m % 256
        == y) by (nonlinear_arith)
        requires
            m == 0x5E * 0x100_0000 + f * 0x1_0000 + x * 0x100 + y,
            f < 256,
            x < 256,
            y < 256,
    ;
}

/// A keyboard byte's message carries the keyboard identifier and the
/// scancode where the desktop decodes them from.
pub proof fn lemma_keyboard_message_decodes(scancode: u8)
    ensures
        keyboard_message(scancode) != 0,
        msg_byte(keyboard_message(scancode), 3) == KEYBOARD_MESSAGE_ID,
        msg_byte(keyboard_message(scancode), 0) == scancode,
{
    let m = keyboard_message(scancode);
    let d = scancode as u64;
    assert((m / 0x100_0000) % 256 == 0x11 && m % 256 == d) by (nonlinear_arith)
        requires
            m == 0x11 * 0x100_0000 + d,
            d < 256,
    ;
}

} // verus!
