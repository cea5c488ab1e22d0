//! Decision procedures for setting a surface up: swap-chain extent, surface
//! format, present mode, queue family and image count, all over plain values
//! reported by the driver.

use vstd::prelude::*;

verus! {

/// The driver's raw identifier for the preferred surface pixel format.
pub const FORMAT_B8G8R8A8_UNORM: u32 = 44;

/// The driver's raw identifier for the preferred color space.
pub const COLOR_SPACE_SRGB_NONLINEAR: u32 = 0;

/// The marker a driver reports as "current extent undefined": the window
/// size decides instead.
pub const EXTENT_UNDEFINED: u32 = 0xffff_ffff;

/// Surface capabilities, as plain values: image-count floor, current extent
/// (or the undefined marker), and the extent bounds.
#[derive(Clone, Copy, PartialEq, Eq, Structural, Debug)]
pub struct SurfaceCaps {
    pub min_image_count: u32,
    pub current_width: u32,
    pub current_height: u32,
    pub min_width: u32,
    pub min_height: u32,
    pub max_width: u32,
    pub max_height: u32,
}

/// One advertised surface format: pixel format and color space, by the
/// driver's raw identifiers.
#[derive(Clone, Copy, PartialEq, Eq, Structural, Debug)]
pub struct SurfaceFormat {
    pub format: u32,
    pub color_space: u32,
}

/// A presentation mode the driver may advertise.
#[derive(Clone, Copy, PartialEq, Eq, Structural, Debug)]
pub enum PresentMode {
    Mailbox,
    Immediate,
    FifoRelaxed,
    Fifo,
    Other,
}

/// One queue family: its index and whether it supports graphics work.
#[derive(Clone, Copy, PartialEq, Eq, Structural, Debug)]
pub struct QueueFamilyInfo {
    pub index: u32,
    pub graphics: bool,
}

/// The smaller of two dimensions.
pub open spec fn min_dim(a: u32, b: u32) -> u32 {
    if a <= b {
        a
    } else {
        b
    }
}

/// The larger of two dimensions.
pub open spec fn max_dim(a: u32, b: u32) -> u32 {
    if a >= b {
        a
    } else {
        b
    }
}

/// `v` clamped into `[lo, hi]`, taking the ceiling `hi` first as the driver
/// protocol asks.
pub open spec fn clamp_dim(lo: u32, hi: u32, v: u32) -> u32 {
    max_dim(lo, min_dim(hi, v))
}

/// The preferred surface format: the fixed pixel format in the fixed color
/// space.
pub open spec fn preferred_format(f: SurfaceFormat) -> bool {
    f.format == FORMAT_B8G8R8A8_UNORM && f.color_space == COLOR_SPACE_SRGB_NONLINEAR
}

/// Preference order over present modes: lower is better.
pub open spec fn mode_rank(m: PresentMode) -> int {
    match m {
        PresentMode::Mailbox => 0,
        PresentMode::Immediate => 1,
        PresentMode::FifoRelaxed => 2,
        PresentMode::Fifo => 3,
        PresentMode::Other => 4,
    }
}

/// The swap-chain extent: the surface's current extent when the driver
/// defines one, otherwise the window's size clamped into the surface's
/// bounds.
pub fn compute_extent(caps: &SurfaceCaps, window_width: u32, window_height: u32) -> (r: (
    u32,
    u32,
))
    ensures
        caps.current_width != EXTENT_UNDEFINED ==> r == (caps.current_width, caps.current_height),
        caps.current_width == EXTENT_UNDEFINED ==> r == (
            clamp_dim(caps.min_width, caps.max_width, window_width),
            clamp_dim(caps.min_height, caps.max_height, window_height),
        ),
{
    if caps.current_width != EXTENT_UNDEFINED {
        (caps.current_width, caps.current_height)
    } else {
        let w0 = if window_width <= caps.max_width {
            window_width
        } else {
            caps.max_width
        };
        let w = if w0 >= caps.min_width {
            w0
        } else {
            caps.min_width
        };
        let h0 = if window_height <= caps.max_height {
            window_height
        } else {
            caps.max_height
        };
        let h = if h0 >= caps.min_height {
            h0
        } else {
            caps.min_height
        };
        (w, h)
    }
}

/// How many swap-chain images to ask for: one more than the surface's floor,
/// so one image can always be recorded while another is presented.
pub fn swapchain_image_count(caps: &SurfaceCaps) -> (r: u32)
    requires
        caps.min_image_count < u32::MAX,
    ensures
        r == caps.min_image_count + 1,
{
    caps.min_image_count + 1
}

/// Pick the surface format: the last advertised preferred format when one
/// exists, otherwise the last advertised format; nothing from an empty list.
pub fn choose_surface_format(formats: &Vec<SurfaceFormat>) -> (r: Option<SurfaceFormat>)
    ensures
        (r is Some) <==> formats@.len() > 0,
        r matches Some(f) ==> exists|i: int|
            {
                &&& 0 <= i < formats@.len()
                &&& #[trigger] formats@[i] == f
                &&& forall|j: int| i < j < formats@.len() ==> !preferred_format(#[trigger] formats@[j])
                &&& !preferred_format(f) ==> i == formats@.len() - 1
            },
{
    if formats.len() == 0 {
        return None;
    }
    let mut best: usize = 0;
    let mut i: usize = 1;
    while i < formats.len()
        invariant
            formats@.len() > 0,
            0 <= best < i <= formats@.len(),
            forall|j: int| best < j < i ==> !preferred_format(#[trigger] formats@[j]),
            !preferred_format(formats@[best as int]) ==> best == i - 1,
        decreases formats@.len() - i,
    {
        let cur = formats[i];
        let cur_preferred = cur.format == FORMAT_B8G8R8A8_UNORM && cur.color_space
            == COLOR_SPACE_SRGB_NONLINEAR;
        let best_preferred = formats[best].format == FORMAT_B8G8R8A8_UNORM
            && formats[best].color_space == COLOR_SPACE_SRGB_NONLINEAR;
        if cur_preferred || !best_preferred {
            best = i;
        }
        i += 1;
    }
    Some(formats[best])
}

/// Pick the present mode: the first advertised mode of the best rank;
/// nothing from an empty list.
pub fn choose_present_mode(modes: &Vec<PresentMode>) -> (r: Option<PresentMode>)
    ensures
        (r is Some) <==> modes@.len() > 0,
        r matches Some(m) ==> exists|i: int|
            {
                &&& 0 <= i < modes@.len()
                &&& #[trigger] modes@[i] == m
                &&& forall|j: int|
                    0 <= j < modes@.len() ==> mode_rank(#[trigger] modes@[j]) >= mode_rank(m)
                &&& forall|j: int| 0 <= j < i ==> mode_rank(#[trigger] modes@[j]) > mode_rank(m)
            },
{
    if modes.len() == 0 {
        return None;
    }
    let mut best: usize = 0;
    let mut i: usize = 1;
    while i < modes.len()
        invariant
            modes@.len() > 0,
            0 <= best < i <= modes@.len(),
            forall|j: int| 0 <= j < i ==> mode_rank(#[trigger] modes@[j]) >= mode_rank(
                modes@[best as int],
            ),
            forall|j: int| 0 <= j < best ==> mode_rank(#[trigger] modes@[j]) > mode_rank(
                modes@[best as int],
            ),
        decreases modes@.len() - i,
    {
        if rank_of(modes[i]) < rank_of(modes[best]) {
            best = i;
        }
        i += 1;
    }
    Some(modes[best])
}

/// The preference rank of one mode, as a value.
fn rank_of(m: PresentMode) -> (r: u32)
    ensures
        r == mode_rank(m),
{
    match m {
        PresentMode::Mailbox => 0,
        PresentMode::Immediate => 1,
        PresentMode::FifoRelaxed => 2,
        PresentMode::Fifo => 3,
        PresentMode::Other => 4,
    }
}

/// Pick the queue family: the first one advertised that supports graphics
/// work; nothing when none does.
pub fn choose_queue_family(families: &Vec<QueueFamilyInfo>) -> (r: Option<u32>)
    ensures
        r matches Some(idx) ==> exists|i: int|
            {
                &&& 0 <= i < families@.len()
                &&& (#[trigger] families@[i]).graphics
                &&& families@[i].index == idx
                &&& forall|j: int| 0 <= j < i ==> !(#[trigger] families@[j]).graphics
            },
        r is None ==> forall|j: int|
            0 <= j < families@.len() ==> !(#[trigger] families@[j]).graphics,
{
    let mut i: usize = 0;
    while i < families.len()
        invariant
            0 <= i <= families@.len(),
            forall|j: int| 0 <= j < i ==> !(#[trigger] families@[j]).graphics,
        decreases families@.len() - i,
    {
        let fam = families[i];
        if fam.graphics {
            return Some(fam.index);
        }
        i += 1;
    }
    None
}

} // verus!
