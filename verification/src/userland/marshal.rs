//! Marshal, the user-space supervisor: heap and stack layout, its allocator's
//! rounding of requests, the framebuffer geometry it receives from the
//! kernel, and the clipping of the desktop's rectangles to the framebuffer.
use vstd::prelude::*;

verus! {

/// Base of the supervisor's heap.
pub const HEAP_START: u64 = 0x0000_4000_0000_0000;

/// Size of the supervisor's heap (16 MiB).
pub const HEAP_SIZE: u64 = 0x100_0000;

/// Base of the stack of the first driver; each further driver's stack is
/// 1 MiB higher.
pub const DRIVER_STACK_BASE: u64 = 0x0000_6000_0000_0000;

/// Distance between the stacks of consecutive drivers.
pub const DRIVER_STACK_STRIDE: u64 = 0x10_0000;

/// Pages of a driver's stack.
pub const DRIVER_STACK_PAGES: u64 = 16;

/// Base of the deep stack that the WebAssembly engine runs on.
pub const DEEP_STACK_BASE: u64 = 0x0000_6000_00F0_0000;

/// Size of the deep stack (16 MiB).
pub const DEEP_STACK_SIZE: u64 = 0x100_0000;

/// Smallest alignment the supervisor's allocator hands out.
pub const MIN_ALIGN: usize = 16;

/// User address at which the framebuffer is mapped.
pub const FRAMEBUFFER_VADDR: u64 = 0xB000_0000;

/// The stack pointer the engine starts with: the top of the deep stack,
/// aligned down to 16 bytes.
pub fn deep_stack_top() -> (r: u64)
    ensures
        r == DEEP_STACK_BASE + DEEP_STACK_SIZE,
        r % 16 == 0,
{
    let top = DEEP_STACK_BASE + DEEP_STACK_SIZE;
    let r = top & !0xFu64;
    assert(r == top) by (bit_vector)
        requires
            r == top & !0xFu64,
            top == 0x0000_6000_01F0_0000u64,
    ;
    r
}

/// The stack pointer a driver starts with: the top of its 16 pages.
pub fn driver_stack_top(stack_base: u64) -> (r: u64)
    requires
        stack_base + DRIVER_STACK_PAGES * 4096 <= u64::MAX,
    ensures
        r == stack_base + DRIVER_STACK_PAGES * 4096,
{
    stack_base + DRIVER_STACK_PAGES * 4096
}

/// The allocator's request for `size` bytes aligned to `align`: the
/// alignment raised to at least 16, the size rounded up with that alignment's
/// mask.
pub open spec fn rounded_request(size: usize, align: usize) -> (usize, usize) {
    let a = if align < MIN_ALIGN {
        MIN_ALIGN
    } else {
        align
    };
    ((((size + a - 1) as usize) & !((a - 1) as usize)) as usize, a)
}

/// The (size, alignment) the supervisor's allocator passes on for a request
/// of `size` bytes aligned to `align`.
pub fn aligned_request(size: usize, align: usize) -> (r: (usize, usize))
    requires
        align >= 1,
        size + (if align < MIN_ALIGN { MIN_ALIGN } else { align }) - 1 <= usize::MAX,
    ensures
        r == rounded_request(size, align),
{
    let align2 = if align < MIN_ALIGN {
        MIN_ALIGN
    } else {
        align
    };
    let size2 = (size + (align2 - 1)) & !(align2 - 1);
    (size2, align2)
}

/// For a power-of-two alignment the rounded size is the least multiple of
/// the alignment that holds the request.
pub proof fn lemma_rounded_request(size: usize, align: usize, k: usize)
    requires
        k < 32,
        align == 1usize << k,
        size + (if align < MIN_ALIGN { MIN_ALIGN } else { align }) - 1 <= usize::MAX,
    ensures
        ({
            let (s, a) = rounded_request(size, align);
            &&& s & ((a - 1) as usize) == 0
            &&& size <= s
            &&& s < size + a
        }),
{
    let a: usize = if align < MIN_ALIGN {
        MIN_ALIGN
    } else {
        align
    };
    let k2: usize = if align < MIN_ALIGN {
        4
    } else {
        k
    };
    assert(1usize << 4usize == 16usize) by (bit_vector);
    assert(a == 1usize << k2);
    let x = (size + a - 1) as usize;
    let s = x & !((a - 1) as usize);
    assert(s & ((a - 1) as usize) == 0 && size <= s && s < size + a) by (bit_vector)
        requires
            a == 1usize << k2,
            k2 < 32,
            x == size + a - 1,
            s == x & !((a - 1) as usize),
    ;
}

/// The width and height of the framebuffer as the supervisor reads them from
/// the kernel's mapping result.
#[derive(Debug, Clone, Copy, PartialEq, Eq, Structural)]
pub struct FbGeometry {
    pub width: u64,
    pub height: u64,
}

/// Reads the result of the framebuffer mapping call: nothing when the call
/// failed (0 or all ones), else the height (low 32 bits) and a width of a
/// quarter of the pitch (high 32 bits), at 4 bytes per pixel.
pub fn decode_fb_meta(fb_meta: u64) -> (r: Option<FbGeometry>)
    ensures
        (fb_meta == 0 || fb_meta == 0xFFFF_FFFF_FFFF_FFFF) ==> r is None,
        (fb_meta != 0 && fb_meta != 0xFFFF_FFFF_FFFF_FFFF) ==> r == Some(
            FbGeometry { width: (fb_meta / 0x1_0000_0000) / 4, height: fb_meta % 0x1_0000_0000 },
        ),
{
    if fb_meta != 0 && fb_meta != 0xFFFF_FFFF_FFFF_FFFF {
        let pitch = fb_meta >> 32;
        let height = fb_meta & 0xFFFF_FFFF;
        assert(pitch == fb_meta / 0x1_0000_0000 && height == fb_meta % 0x1_0000_0000) by (bit_vector)
            requires
                pitch == fb_meta >> 32,
                height == fb_meta & 0xFFFF_FFFF,
        ;
        Some(FbGeometry { width: pitch / 4, height })
    } else {
        None
    }
}

/// The geometry the supervisor reads back from the kernel's framebuffer
/// result `(pitch << 32) | height` is the framebuffer's height and a quarter
/// of its pitch, for a pitch and height below 2^32.
pub proof fn lemma_fb_meta_round_trip(pitch: u64, height: u64)
    requires
        pitch < 0x1_0000_0000,
        height < 0x1_0000_0000,
        pitch > 0 || height > 0,
    ensures
        ({
            let meta = (pitch << 32u64) | height;
            &&& meta != 0
            &&& meta != 0xFFFF_FFFF_FFFF_FFFF || (pitch == 0xFFFF_FFFF && height == 0xFFFF_FFFF)
            &&& meta / 0x1_0000_0000 == pitch
            &&& meta % 0x1_0000_0000 == height
        }),
{
    let meta = (pitch << 32u64) | height;
    assert(meta / 0x1_0000_0000 == pitch && meta % 0x1_0000_0000 == height && meta != 0 && (meta
        != 0xFFFF_FFFF_FFFF_FFFF || (pitch == 0xFFFF_FFFF && height == 0xFFFF_FFFF))) by (bit_vector)
        requires
            meta == (pitch << 32u64) | height,
            pitch < 0x1_0000_0000,
            height < 0x1_0000_0000,
            pitch > 0 || height > 0,
    ;
}

/// How a rectangle request of the desktop is carried out.
#[derive(Debug, Clone, Copy, PartialEq, Eq, Structural)]
pub enum ClipOutcome {
    /// A negative origin: nothing is drawn.
    Skip,
    /// Fill `width` x `height` pixels from (`x`, `y`).
    Fill { x: i32, y: i32, width: i32, height: i32 },
    /// The clipping arithmetic overflows (the request lies beyond the
    /// framebuffer, or its size is negative with a nonzero origin).
    Overflow,
}

/// A coordinate extent as the clipping code widens it to 64 bits (a negative
/// extent becomes a huge one).
pub open spec fn widen(v: i32) -> int {
    if v >= 0 {
        v as int
    } else {
        v + 0x1_0000_0000_0000_0000
    }
}

/// One extent clipped against the framebuffer's extent `limit` from origin
/// `o`: kept when it fits, else cut to the space left (as a 32-bit value);
/// `None` when the arithmetic overflows.
pub open spec fn clip_extent(o: i32, v: i32, limit: u64) -> Option<i32> {
    if o + widen(v) > u64::MAX {
        None
    } else if o + widen(v) > limit {
        if o > limit {
            None
        } else {
            Some((limit - o) as i32)
        }
    } else {
        Some(v)
    }
}

/// The outcome of a rectangle request at (`x`, `y`) of size (`width`,
/// `height`) on a framebuffer of the given size.
pub open spec fn clip_outcome(x: i32, y: i32, width: i32, height: i32, fb_width: u64, fb_height: u64) -> ClipOutcome {
    if x < 0 || y < 0 {
        ClipOutcome::Skip
    } else {
        match clip_extent(x, width, fb_width) {
            None => ClipOutcome::Overflow,
            Some(w) => match clip_extent(y, height, fb_height) {
                None => ClipOutcome::Overflow,
                Some(h) => ClipOutcome::Fill { x, y, width: w, height: h },
            },
        }
    }
}

fn clip_one(o: i32, v: i32, limit: u64) -> (r: Option<i32>)
    requires
        o >= 0,
    ensures
        r == clip_extent(o, v, limit),
{
    let ou = o as u64;
    let vu = v as u64;
    assert(vu == widen(v)) by (bit_vector)
        requires
            vu == v as u64,
    ;
    if vu > u64::MAX - ou {
        return None;
    }
    if ou + vu > limit {
        if ou > limit {
            return None;
        }
        Some((limit - ou) as i32)
    } else {
        Some(v)
    }
}

/// Clips a rectangle request of the desktop to the framebuffer.
pub fn clip_rect(x: i32, y: i32, width: i32, height: i32, fb_width: u64, fb_height: u64) -> (r: ClipOutcome)
    ensures
        r == clip_outcome(x, y, width, height, fb_width, fb_height),
{
    if x < 0 || y < 0 {
        return ClipOutcome::Skip;
    }
    let w = match clip_one(x, width, fb_width) {
        None => return ClipOutcome::Overflow,
        Some(w) => w,
    };
    let h = match clip_one(y, height, fb_height) {
        None => return ClipOutcome::Overflow,
        Some(h) => h,
    };
    ClipOutcome::Fill { x, y, width: w, height: h }
}

/// Every pixel of a filled rectangle lies inside a framebuffer whose
/// dimensions fit in 31 bits.
pub proof fn lemma_fill_inside_framebuffer(x: i32, y: i32, width: i32, height: i32, fb_width: u64, fb_height: u64)
    requires
        fb_width <= i32::MAX,
        fb_height <= i32::MAX,
        clip_outcome(x, y, width, height, fb_width, fb_height) is Fill,
    ensures
        ({
            let f = clip_outcome(x, y, width, height, fb_width, fb_height);
            &&& f->x >= 0
            &&& f->y >= 0
            &&& f->width > 0 ==> f->x + f->width <= fb_width
            &&& f->height > 0 ==> f->y + f->height <= fb_height
        }),
{
}


/// How a rectangle with a non-negative origin and size is clipped: a
/// rectangle that starts on the framebuffer is kept where it fits and cut at
/// the framebuffer's right and bottom edges; one that starts beyond an edge
/// is an overflow; one with a negative origin is skipped.
pub proof fn lemma_clip_cuts_at_edges(x: i32, y: i32, width: i32, height: i32, fb_width: u64, fb_height: u64)
    requires
        width >= 0,
        height >= 0,
        fb_width <= i32::MAX,
        fb_height <= i32::MAX,
    ensures
        (x < 0 || y < 0) ==> clip_outcome(x, y, width, height, fb_width, fb_height) == ClipOutcome::Skip,
        (x >= 0 && y >= 0 && (x > fb_width && x + width > fb_width || y > fb_height && y + height > fb_height))
            ==> clip_outcome(x, y, width, height, fb_width, fb_height) == ClipOutcome::Overflow,
        (0 <= x <= fb_width && 0 <= y <= fb_height) ==> clip_outcome(x, y, width, height, fb_width, fb_height)
            == (ClipOutcome::Fill {
                x,
                y,
                width: if x + width <= fb_width {
                    width
                } else {
                    (fb_width - x) as i32
                },
                height: if y + height <= fb_height {
                    height
                } else {
                    (fb_height - y) as i32
                },
            }),
{
}

} // verus!
