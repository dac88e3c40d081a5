//! The active graphical framebuffer, as the bootloader describes it.
use vstd::prelude::*;

verus! {

/// A framebuffer as reported by the bootloader: its address in the higher
/// half direct map and its geometry.
#[derive(Debug, Clone, Copy, PartialEq, Eq, Structural)]
pub struct FramebufferInfo {
    /// Virtual address of the framebuffer in the higher half direct map.
    pub virt_addr: u64,
    /// Width in pixels.
    pub width: u64,
    /// Height in pixels.
    pub height: u64,
    /// Length of one scanline in bytes.
    pub pitch: u64,
}

/// The (physical address, width, height, pitch) of the first framebuffer,
/// translating its direct-map address back to a physical one by removing the
/// direct-map offset (saturating at 0); `None` without a framebuffer.
pub fn get_framebuffer_details(fb: Option<FramebufferInfo>, hhdm: u64) -> (r: Option<(u64, u64, u64, u64)>)
    ensures
        fb is None ==> r is None,
        fb matches Some(f) ==> r == Some(
            (
                if f.virt_addr >= hhdm {
                    (f.virt_addr - hhdm) as u64
                } else {
                    0u64
                },
                f.width,
                f.height,
                f.pitch,
            ),
        ),
{
    match fb {
        Some(f) => {
            let phys_addr = f.virt_addr.saturating_sub(hhdm);
            Some((phys_addr, f.width, f.height, f.pitch))
        },
        None => None,
    }
}

} // verus!
