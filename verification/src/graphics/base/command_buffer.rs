//! The contents of the commands the engine records: image layout
//! transitions, blits between images, and the aspect of an image.
use vstd::prelude::*;

use super::swapchain::Extent2D;

verus! {

/// `VK_IMAGE_LAYOUT_UNDEFINED`.
pub const LAYOUT_UNDEFINED: i32 = 0;
/// `VK_IMAGE_LAYOUT_GENERAL`.
pub const LAYOUT_GENERAL: i32 = 1;
/// `VK_IMAGE_LAYOUT_COLOR_ATTACHMENT_OPTIMAL`.
pub const LAYOUT_COLOR_ATTACHMENT_OPTIMAL: i32 = 2;
/// `VK_IMAGE_LAYOUT_DEPTH_STENCIL_ATTACHMENT_OPTIMAL`.
pub const LAYOUT_DEPTH_STENCIL_ATTACHMENT_OPTIMAL: i32 = 3;
/// `VK_IMAGE_LAYOUT_TRANSFER_SRC_OPTIMAL`.
pub const LAYOUT_TRANSFER_SRC_OPTIMAL: i32 = 6;
/// `VK_IMAGE_LAYOUT_TRANSFER_DST_OPTIMAL`.
pub const LAYOUT_TRANSFER_DST_OPTIMAL: i32 = 7;
/// `VK_IMAGE_LAYOUT_PRESENT_SRC_KHR`.
pub const LAYOUT_PRESENT_SRC: i32 = 1000001002;
/// `VK_IMAGE_LAYOUT_DEPTH_ATTACHMENT_OPTIMAL`.
pub const LAYOUT_DEPTH_ATTACHMENT_OPTIMAL: i32 = 1000241000;

/// `VK_IMAGE_ASPECT_COLOR_BIT`.
pub const ASPECT_COLOR: u32 = 1;
/// `VK_IMAGE_ASPECT_DEPTH_BIT`.
pub const ASPECT_DEPTH: u32 = 2;

/// `VK_PIPELINE_STAGE_2_ALL_COMMANDS_BIT`.
pub const STAGE_ALL_COMMANDS: u64 = 0x10000;
/// `VK_ACCESS_2_MEMORY_READ_BIT`.
pub const ACCESS_MEMORY_READ: u64 = 0x8000;
/// `VK_ACCESS_2_MEMORY_WRITE_BIT`.
pub const ACCESS_MEMORY_WRITE: u64 = 0x10000;

/// `VK_QUEUE_FAMILY_IGNORED`.
pub const QUEUE_FAMILY_IGNORED: u32 = 0xffff_ffff;
/// `VK_REMAINING_MIP_LEVELS`.
pub const REMAINING_MIP_LEVELS: u32 = 0xffff_ffff;
/// `VK_REMAINING_ARRAY_LAYERS`.
pub const REMAINING_ARRAY_LAYERS: u32 = 0xffff_ffff;

/// `VK_FORMAT_D32_SFLOAT`.
pub const FORMAT_D32_SFLOAT: i32 = 126;

/// `VK_FILTER_LINEAR`.
pub const FILTER_LINEAR: i32 = 1;

/// A layout that holds depth data.
pub open spec fn is_depth_layout(layout: i32) -> bool {
    layout == LAYOUT_DEPTH_ATTACHMENT_OPTIMAL || layout == LAYOUT_DEPTH_STENCIL_ATTACHMENT_OPTIMAL
}

/// The aspect a transition between `old_layout` and `new_layout` applies to:
/// depth when either layout holds depth data, color otherwise.
pub open spec fn transition_aspect_spec(old_layout: i32, new_layout: i32) -> u32 {
    if is_depth_layout(old_layout) || is_depth_layout(new_layout) {
        ASPECT_DEPTH
    } else {
        ASPECT_COLOR
    }
}

/// The aspect a transition between `old_layout` and `new_layout` applies to.
pub fn transition_aspect(old_layout: i32, new_layout: i32) -> (aspect: u32)
    ensures
        aspect == transition_aspect_spec(old_layout, new_layout),
{
    if new_layout == LAYOUT_DEPTH_ATTACHMENT_OPTIMAL || old_layout == LAYOUT_DEPTH_ATTACHMENT_OPTIMAL
        || new_layout == LAYOUT_DEPTH_STENCIL_ATTACHMENT_OPTIMAL || old_layout
        == LAYOUT_DEPTH_STENCIL_ATTACHMENT_OPTIMAL {
        ASPECT_DEPTH
    } else {
        ASPECT_COLOR
    }
}

/// An image memory barrier (`VkImageMemoryBarrier2`) without its image.
#[derive(Clone, Copy, Debug, PartialEq, Eq, Structural)]
pub struct ImageBarrier {
    pub src_stage_mask: u64,
    pub src_access_mask: u64,
    pub dst_stage_mask: u64,
    pub dst_access_mask: u64,
    pub old_layout: i32,
    pub new_layout: i32,
    pub src_queue_family_index: u32,
    pub dst_queue_family_index: u32,
    pub aspect_mask: u32,
    pub base_mip_level: u32,
    pub level_count: u32,
    pub base_array_layer: u32,
    pub layer_count: u32,
}

/// The barrier that moves a whole image from `old_layout` to `new_layout`:
/// all earlier commands' writes are made available to all later commands'
/// reads and writes, no queue-family transfer, every mip level and layer.
pub open spec fn transition_barrier(old_layout: i32, new_layout: i32) -> ImageBarrier {
    ImageBarrier {
        src_stage_mask: STAGE_ALL_COMMANDS,
        src_access_mask: ACCESS_MEMORY_WRITE,
        dst_stage_mask: STAGE_ALL_COMMANDS,
        dst_access_mask: ACCESS_MEMORY_WRITE | ACCESS_MEMORY_READ,
        old_layout,
        new_layout,
        src_queue_family_index: QUEUE_FAMILY_IGNORED,
        dst_queue_family_index: QUEUE_FAMILY_IGNORED,
        aspect_mask: transition_aspect_spec(old_layout, new_layout),
        base_mip_level: 0,
        level_count: REMAINING_MIP_LEVELS,
        base_array_layer: 0,
        layer_count: REMAINING_ARRAY_LAYERS,
    }
}

/// The barrier a layout transition of a whole image records.
pub fn image_transition(old_layout: i32, new_layout: i32) -> (barrier: ImageBarrier)
    ensures
        barrier == transition_barrier(old_layout, new_layout),
{
    ImageBarrier {
        src_stage_mask: STAGE_ALL_COMMANDS,
        src_access_mask: ACCESS_MEMORY_WRITE,
        dst_stage_mask: STAGE_ALL_COMMANDS,
        dst_access_mask: ACCESS_MEMORY_WRITE | ACCESS_MEMORY_READ,
        old_layout,
        new_layout,
        src_queue_family_index: QUEUE_FAMILY_IGNORED,
        dst_queue_family_index: QUEUE_FAMILY_IGNORED,
        aspect_mask: transition_aspect(old_layout, new_layout),
        base_mip_level: 0,
        level_count: REMAINING_MIP_LEVELS,
        base_array_layer: 0,
        layer_count: REMAINING_ARRAY_LAYERS,
    }
}

/// A point of an image (`VkOffset3D`).
#[derive(Clone, Copy, Debug, PartialEq, Eq, Structural)]
pub struct Offset3D {
    pub x: i32,
    pub y: i32,
    pub z: i32,
}

/// A blit from the color aspect of mip level 0, layer 0 of an image in
/// `TRANSFER_SRC_OPTIMAL` layout to the same subresource of an image in
/// `TRANSFER_DST_OPTIMAL` layout, with linear filtering.
#[derive(Clone, Copy, Debug, PartialEq, Eq, Structural)]
pub struct Blit {
    /// First corner of the source region.
    pub src_start: Offset3D,
    /// Opposite corner of the source region.
    pub src_end: Offset3D,
    pub dst_start: Offset3D,
    pub dst_end: Offset3D,
    pub src_layout: i32,
    pub dst_layout: i32,
    pub aspect_mask: u32,
    pub mip_level: u32,
    pub base_array_layer: u32,
    pub layer_count: u32,
    pub filter: i32,
}

/// The far corner of an extent, one layer deep.
pub open spec fn far_corner(size: Extent2D) -> Offset3D {
    Offset3D { x: size.width as i32, y: size.height as i32, z: 1 }
}

/// The blit that copies the whole of a `src_size` image onto the whole of a
/// `dst_size` image, scaling as needed.
pub open spec fn blit_between(src_size: Extent2D, dst_size: Extent2D) -> Blit {
    Blit {
        src_start: Offset3D { x: 0, y: 0, z: 0 },
        src_end: far_corner(src_size),
        dst_start: Offset3D { x: 0, y: 0, z: 0 },
        dst_end: far_corner(dst_size),
        src_layout: LAYOUT_TRANSFER_SRC_OPTIMAL,
        dst_layout: LAYOUT_TRANSFER_DST_OPTIMAL,
        aspect_mask: ASPECT_COLOR,
        mip_level: 0,
        base_array_layer: 0,
        layer_count: 1,
        filter: FILTER_LINEAR,
    }
}

/// The blit that copies the whole of a `src_size` image onto the whole of a
/// `dst_size` image.
pub fn image_blit(src_size: Extent2D, dst_size: Extent2D) -> (blit: Blit)
    ensures
        blit == blit_between(src_size, dst_size),
{
    let origin = Offset3D { x: 0, y: 0, z: 0 };
    let src_far = Offset3D {
        x: #[verifier::truncate] (src_size.width as i32),
        y: #[verifier::truncate] (src_size.height as i32),
        z: 1,
    };
    let dst_far = Offset3D {
        x: #[verifier::truncate] (dst_size.width as i32),
        y: #[verifier::truncate] (dst_size.height as i32),
        z: 1,
    };
    Blit {
        src_start: origin,
        src_end: src_far,
        dst_start: origin,
        dst_end: dst_far,
        src_layout: LAYOUT_TRANSFER_SRC_OPTIMAL,
        dst_layout: LAYOUT_TRANSFER_DST_OPTIMAL,
        aspect_mask: ASPECT_COLOR,
        mip_level: 0,
        base_array_layer: 0,
        layer_count: 1,
        filter: FILTER_LINEAR,
    }
}

/// The aspect of an image of the given format (raw `VkFormat`): depth for
/// `D32_SFLOAT`, color otherwise.
pub fn format_aspect(format: i32) -> (aspect: u32)
    ensures
        aspect == if format == FORMAT_D32_SFLOAT { ASPECT_DEPTH } else { ASPECT_COLOR },
{
    if format == FORMAT_D32_SFLOAT {
        ASPECT_DEPTH
    } else {
        ASPECT_COLOR
    }
}

} // verus!
