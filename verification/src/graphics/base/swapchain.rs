//! The choices a swapchain is created with: surface format, presentation
//! mode, extent, image count and sharing mode.
use vstd::prelude::*;

verus! {

/// `VK_FORMAT_B8G8R8A8_SRGB`.
pub const FORMAT_B8G8R8A8_SRGB: i32 = 50;

/// `VK_COLOR_SPACE_SRGB_NONLINEAR_KHR`.
pub const COLOR_SPACE_SRGB_NONLINEAR: i32 = 0;

/// `VK_PRESENT_MODE_MAILBOX_KHR`.
pub const PRESENT_MODE_MAILBOX: i32 = 1;

/// `VK_PRESENT_MODE_FIFO_KHR`.
pub const PRESENT_MODE_FIFO: i32 = 2;

/// `VK_IMAGE_USAGE_COLOR_ATTACHMENT_BIT`.
pub const IMAGE_USAGE_COLOR_ATTACHMENT: u32 = 0x10;

/// `VK_COMPOSITE_ALPHA_OPAQUE_BIT_KHR`.
pub const COMPOSITE_ALPHA_OPAQUE: u32 = 0x1;

/// A width and a height in pixels.
#[derive(Clone, Copy, Debug, PartialEq, Eq, Structural)]
pub struct Extent2D {
    pub width: u32,
    pub height: u32,
}

/// A format and color space a surface supports (raw `VkFormat` and
/// `VkColorSpaceKHR`).
#[derive(Clone, Copy, Debug, PartialEq, Eq, Structural)]
pub struct SurfaceFormat {
    pub format: i32,
    pub color_space: i32,
}

/// What the surface reports of the swapchains it accepts.
#[derive(Clone, Copy, Debug, PartialEq, Eq, Structural)]
pub struct SurfaceCapabilities {
    pub min_image_count: u32,
    /// 0 when there is no limit.
    pub max_image_count: u32,
    /// `u32::MAX` wide when the swapchain decides the extent.
    pub current_extent: Extent2D,
    pub min_image_extent: Extent2D,
    pub max_image_extent: Extent2D,
    /// Raw `VkSurfaceTransformFlagBitsKHR`: the surface's current transform.
    pub current_transform: u32,
}

/// The choices a swapchain is created with.
pub struct SwapchainPlan {
    pub surface_format: SurfaceFormat,
    /// Raw `VkPresentModeKHR`.
    pub present_mode: i32,
    pub extent: Extent2D,
    pub image_count: u32,
    /// Number of array layers of each image.
    pub image_array_layers: u32,
    /// Raw `VkImageUsageFlags`.
    pub image_usage: u32,
    /// Raw `VkSurfaceTransformFlagBitsKHR` applied before presentation.
    pub pre_transform: u32,
    /// Raw `VkCompositeAlphaFlagBitsKHR`.
    pub composite_alpha: u32,
    /// Whether pixels hidden by other windows may be left unrendered.
    pub clipped: bool,
    /// Whether images are shared between the graphics and present families
    /// (`VK_SHARING_MODE_CONCURRENT`) rather than owned by one.
    pub concurrent: bool,
    /// The families that share the images; empty when not shared.
    pub queue_family_indices: Vec<u32>,
    /// Raw handle of the swapchain this one replaces, 0 for none.
    pub old_swapchain: u64,
    /// Whether the replaced swapchain is to be destroyed once this one exists.
    pub destroy_old: bool,
}

/// `v` brought into `[lo, hi]`.
pub open spec fn clamp_spec(v: u32, lo: u32, hi: u32) -> u32 {
    if v < lo {
        lo
    } else if v > hi {
        hi
    } else {
        v
    }
}

/// The surface format chosen among `formats`: `wanted` if the surface
/// offers it, otherwise the first one offered.
pub open spec fn chosen_format(formats: Seq<SurfaceFormat>, wanted: SurfaceFormat) -> SurfaceFormat {
    if formats.contains(wanted) {
        wanted
    } else {
        formats[0]
    }
}

/// The presentation mode chosen: the one requested, else mailbox when the
/// surface offers it, else FIFO.
pub open spec fn chosen_present_mode(requested: Option<i32>, modes: Seq<i32>) -> i32 {
    match requested {
        Some(mode) => mode,
        None => if modes.contains(PRESENT_MODE_MAILBOX) {
            PRESENT_MODE_MAILBOX
        } else {
            PRESENT_MODE_FIFO
        },
    }
}

/// The extent chosen: the surface's current extent, or, when the surface
/// leaves it to the swapchain, the requested size clamped to the surface's
/// limits.
pub open spec fn chosen_extent(caps: SurfaceCapabilities, width: u32, height: u32) -> Extent2D {
    if caps.current_extent.width != u32::MAX {
        caps.current_extent
    } else {
        Extent2D {
            width: clamp_spec(width, caps.min_image_extent.width, caps.max_image_extent.width),
            height: clamp_spec(height, caps.min_image_extent.height, caps.max_image_extent.height),
        }
    }
}

/// One image more than the surface's minimum, within its maximum if it has one.
pub open spec fn chosen_image_count(caps: SurfaceCapabilities) -> u32 {
    if caps.max_image_count > 0 && caps.min_image_count + 1 > caps.max_image_count {
        caps.max_image_count
    } else {
        (caps.min_image_count + 1) as u32
    }
}

/// The capabilities a swapchain can be planned from: a minimum image count
/// that can be exceeded, and, where the extent is clamped, limits in order.
pub open spec fn capabilities_usable(caps: SurfaceCapabilities) -> bool {
    &&& caps.min_image_count < u32::MAX
    &&& caps.current_extent.width == u32::MAX ==> caps.min_image_extent.width
        <= caps.max_image_extent.width && caps.min_image_extent.height
        <= caps.max_image_extent.height
}

fn contains_format(formats: &Vec<SurfaceFormat>, wanted: SurfaceFormat) -> (found: bool)
    ensures
        found == formats@.contains(wanted),
{
    let n = formats.len();
    let mut i: usize = 0;
    while i < n
        invariant
            n == formats@.len(),
            i <= n,
            forall|j: int| 0 <= j < i ==> formats@[j] != wanted,
        decreases n - i,
    {
        if formats[i].format == wanted.format && formats[i].color_space == wanted.color_space {
            assert(formats@[i as int] == wanted);
            return true;
        }
        i = i + 1;
    }
    false
}

fn clamp_u32(v: u32, lo: u32, hi: u32) -> (r: u32)
    requires
        lo <= hi,
    ensures
        r == clamp_spec(v, lo, hi),
{
    if v < lo {
        lo
    } else if v > hi {
        hi
    } else {
        v
    }
}

/// Collects the preferences a swapchain is created with.
pub struct SwapchainBuilder {
    width: u32,
    height: u32,
    image_usage: u32,
    present_mode: Option<i32>,
    format: Option<SurfaceFormat>,
    old_handle: u64,
}

impl SwapchainBuilder {
    pub closed spec fn requested_width(&self) -> u32 {
        self.width
    }

    pub closed spec fn requested_height(&self) -> u32 {
        self.height
    }

    pub closed spec fn usage_flags(&self) -> u32 {
        self.image_usage
    }

    pub closed spec fn requested_present_mode(&self) -> Option<i32> {
        self.present_mode
    }

    pub closed spec fn requested_format(&self) -> Option<SurfaceFormat> {
        self.format
    }

    pub closed spec fn old_handle(&self) -> u64 {
        self.old_handle
    }

    /// The surface format wanted: the one set, or B8G8R8A8 sRGB with the
    /// sRGB non-linear color space.
    pub open spec fn wanted_format(&self) -> SurfaceFormat {
        match self.requested_format() {
            Some(f) => f,
            None => SurfaceFormat {
                format: FORMAT_B8G8R8A8_SRGB,
                color_space: COLOR_SPACE_SRGB_NONLINEAR,
            },
        }
    }

    /// A builder for a 256 x 256 swapchain of color-attachment images, with
    /// the format and presentation mode left to the defaults.
    pub fn new() -> (b: Self)
        ensures
            b.requested_width() == 256,
            b.requested_height() == 256,
            b.usage_flags() == IMAGE_USAGE_COLOR_ATTACHMENT,
            b.requested_present_mode() is None,
            b.requested_format() is None,
            b.old_handle() == 0,
    {
        SwapchainBuilder {
            width: 256,
            height: 256,
            image_usage: IMAGE_USAGE_COLOR_ATTACHMENT,
            present_mode: None,
            format: None,
            old_handle: 0,
        }
    }

    pub fn size(self, width: u32, height: u32) -> (b: Self)
        ensures
            b.requested_width() == width,
            b.requested_height() == height,
            b.usage_flags() == self.usage_flags(),
            b.requested_present_mode() == self.requested_present_mode(),
            b.requested_format() == self.requested_format(),
            b.old_handle() == self.old_handle(),
    {
        SwapchainBuilder { width, height, ..self }
    }

    pub fn image_usage(self, usage: u32) -> (b: Self)
        ensures
            b.requested_width() == self.requested_width(),
            b.requested_height() == self.requested_height(),
            b.usage_flags() == usage,
            b.requested_present_mode() == self.requested_present_mode(),
            b.requested_format() == self.requested_format(),
            b.old_handle() == self.old_handle(),
    {
        SwapchainBuilder { image_usage: usage, ..self }
    }

    pub fn present_mode(self, mode: i32) -> (b: Self)
        ensures
            b.requested_width() == self.requested_width(),
            b.requested_height() == self.requested_height(),
            b.usage_flags() == self.usage_flags(),
            b.requested_present_mode() == Some(mode),
            b.requested_format() == self.requested_format(),
            b.old_handle() == self.old_handle(),
    {
        SwapchainBuilder { present_mode: Some(mode), ..self }
    }

    pub fn format(self, format: i32, color_space: i32) -> (b: Self)
        ensures
            b.requested_width() == self.requested_width(),
            b.requested_height() == self.requested_height(),
            b.usage_flags() == self.usage_flags(),
            b.requested_present_mode() == self.requested_present_mode(),
            b.requested_format() == Some(SurfaceFormat { format, color_space }),
            b.old_handle() == self.old_handle(),
    {
        SwapchainBuilder { format: Some(SurfaceFormat { format, color_space }), ..self }
    }

    /// Replaces the swapchain with raw handle `old_swapchain`.
    pub fn old_swapchain(self, old_swapchain: u64) -> (b: Self)
        ensures
            b.requested_width() == self.requested_width(),
            b.requested_height() == self.requested_height(),
            b.usage_flags() == self.usage_flags(),
            b.requested_present_mode() == self.requested_present_mode(),
            b.requested_format() == self.requested_format(),
            b.old_handle() == old_swapchain,
    {
        SwapchainBuilder { old_handle: old_swapchain, ..self }
    }

    /// The choices of the swapchain, given what the surface supports and the
    /// device's graphics and present queue families.
    pub fn build(
        &self,
        caps: SurfaceCapabilities,
        formats: &Vec<SurfaceFormat>,
        present_modes: &Vec<i32>,
        graphics_family: u32,
        present_family: u32,
    ) -> (plan: SwapchainPlan)
        requires
            formats@.len() > 0,
            capabilities_usable(caps),
        ensures
            plan.surface_format == chosen_format(formats@, self.wanted_format()),
            plan.present_mode == chosen_present_mode(self.requested_present_mode(), present_modes@),
            plan.extent == chosen_extent(caps, self.requested_width(), self.requested_height()),
            plan.image_count == chosen_image_count(caps),
            plan.image_array_layers == 1,
            plan.image_usage == self.usage_flags(),
            plan.pre_transform == caps.current_transform,
            plan.composite_alpha == COMPOSITE_ALPHA_OPAQUE,
            plan.clipped,
            plan.concurrent == (graphics_family != present_family),
            plan.queue_family_indices@ == if graphics_family != present_family {
                seq![graphics_family, present_family]
            } else {
                Seq::<u32>::empty()
            },
            plan.old_swapchain == self.old_handle(),
            plan.destroy_old == (self.old_handle() != 0),
    {
        let wanted = match self.format {
            Some(f) => f,
            None => SurfaceFormat {
                format: FORMAT_B8G8R8A8_SRGB,
                color_space: COLOR_SPACE_SRGB_NONLINEAR,
            },
        };
        let surface_format = if contains_format(formats, wanted) {
            wanted
        } else {
            formats[0]
        };
        let present_mode = match self.present_mode {
            Some(mode) => mode,
            None => {
                let m = present_modes.len();
                let mut has_mailbox = false;
                let mut j: usize = 0;
                while j < m
                    invariant
                        m == present_modes@.len(),
                        j <= m,
                        has_mailbox == exists|t: int| 0 <= t < j && present_modes@[t] == PRESENT_MODE_MAILBOX,
                    decreases m - j,
                {
                    if present_modes[j] == PRESENT_MODE_MAILBOX {
                        has_mailbox = true;
                    }
                    j = j + 1;
                }
                proof {
                    if has_mailbox {
                        let t = choose|t: int| 0 <= t < m && present_modes@[t] == PRESENT_MODE_MAILBOX;
                        assert(present_modes@.contains(PRESENT_MODE_MAILBOX));
                    }
                }
                if has_mailbox {
                    PRESENT_MODE_MAILBOX
                } else {
                    PRESENT_MODE_FIFO
                }
            },
        };
        let extent = if caps.current_extent.width != u32::MAX {
            caps.current_extent
        } else {
            Extent2D {
                width: clamp_u32(self.width, caps.min_image_extent.width, caps.max_image_extent.width),
                height: clamp_u32(
                    self.height,
                    caps.min_image_extent.height,
                    caps.max_image_extent.height,
                ),
            }
        };
        let mut image_count = caps.min_image_count + 1;
        if caps.max_image_count > 0 && image_count > caps.max_image_count {
            image_count = caps.max_image_count;
        }
        let concurrent = graphics_family != present_family;
        let queue_family_indices = if concurrent {
            vec![graphics_family, present_family]
        } else {
            Vec::new()
        };
        SwapchainPlan {
            surface_format,
            present_mode,
            extent,
            image_count,
            image_array_layers: 1,
            image_usage: self.image_usage,
            pre_transform: caps.current_transform,
            composite_alpha: COMPOSITE_ALPHA_OPAQUE,
            clipped: true,
            concurrent,
            queue_family_indices,
            old_swapchain: self.old_handle,
            destroy_old: self.old_handle != 0,
        }
    }
}

/// The chosen extent stays within the surface's limits whenever the surface
/// leaves the extent to the swapchain, and the image count stays within the
/// surface's bounds (above its minimum, at most its maximum when it has one).
pub proof fn lemma_plan_within_limits(caps: SurfaceCapabilities, width: u32, height: u32)
    requires
        capabilities_usable(caps),
    ensures
        caps.current_extent.width == u32::MAX ==> {
            let e = chosen_extent(caps, width, height);
            &&& caps.min_image_extent.width <= e.width <= caps.max_image_extent.width
            &&& caps.min_image_extent.height <= e.height <= caps.max_image_extent.height
        },
        caps.max_image_count > 0 && caps.min_image_count < caps.max_image_count ==> caps.min_image_count
            < chosen_image_count(caps) <= caps.max_image_count,
        caps.max_image_count == 0 ==> chosen_image_count(caps) == caps.min_image_count + 1,
{
}

} // verus!
