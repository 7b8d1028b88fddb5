//! The pass that clears the render target with a compute shader.
use vstd::prelude::*;

use crate::graphics::base::command_buffer::{transition_barrier, LAYOUT_GENERAL, LAYOUT_UNDEFINED};
use crate::graphics::base::swapchain::Extent2D;
use crate::graphics::frame::{transition, FrameCommand, FrameImage, PassPipeline};

verus! {

/// Width and height of the clear shader's workgroups.
pub const CLEAR_GROUP_SIZE: u32 = 16;

/// `VK_DESCRIPTOR_TYPE_STORAGE_IMAGE`.
pub const DESCRIPTOR_TYPE_STORAGE_IMAGE: i32 = 3;

/// Number of workgroups needed to cover `extent` pixels, 16 per group.
pub open spec fn groups_for(extent: u32) -> u32 {
    ((extent + 15) / 16) as u32
}

/// `c` is a dispatch of 16 x 16 workgroups, one layer deep, that covers
/// every pixel of a target of extent `e` with as few groups as possible:
/// each count of groups times 16 reaches the target's size, and one group
/// fewer would not.
pub open spec fn dispatch_covers(c: FrameCommand, e: Extent2D) -> bool {
    &&& c matches FrameCommand::Dispatch { x, y, z }
    &&& x * 16 >= e.width && (x == 0 || (x - 1) * 16 < e.width)
    &&& y * 16 >= e.height && (y == 0 || (y - 1) * 16 < e.height)
    &&& z == 1
}

/// What the clear pass records on a render target of extent `e`: the target
/// is moved to `GENERAL` (its old contents discarded), the clear pipeline is
/// bound, then a descriptor set with the target as storage image at binding
/// 0 as set 0, and enough 16 x 16 workgroups are dispatched to cover the
/// target.
pub open spec fn clear_pass_seq(e: Extent2D) -> Seq<FrameCommand> {
    seq![
        FrameCommand::Transition {
            image: FrameImage::Draw,
            barrier: transition_barrier(LAYOUT_UNDEFINED, LAYOUT_GENERAL),
        },
        FrameCommand::BindPipeline { pipeline: PassPipeline::Clear },
        FrameCommand::BindImageDescriptor {
            image: FrameImage::Draw,
            first_set: 0,
            binding: 0,
            descriptor_type: DESCRIPTOR_TYPE_STORAGE_IMAGE,
            layout: LAYOUT_GENERAL,
        },
        FrameCommand::Dispatch { x: groups_for(e.width), y: groups_for(e.height), z: 1 },
    ]
}

/// The commands the clear pass records on a render target of extent `extent`.
pub fn clear_pass_commands(extent: Extent2D) -> (cmds: Vec<FrameCommand>)
    requires
        extent.width <= u32::MAX - 15,
        extent.height <= u32::MAX - 15,
    ensures
        cmds@ == clear_pass_seq(extent),
        dispatch_covers(cmds@[3], extent),
{
    let mut cmds: Vec<FrameCommand> = Vec::new();
    cmds.push(transition(FrameImage::Draw, LAYOUT_UNDEFINED, LAYOUT_GENERAL));
    cmds.push(FrameCommand::BindPipeline { pipeline: PassPipeline::Clear });
    cmds.push(FrameCommand::BindImageDescriptor {
        image: FrameImage::Draw,
        first_set: 0,
        binding: 0,
        descriptor_type: DESCRIPTOR_TYPE_STORAGE_IMAGE,
        layout: LAYOUT_GENERAL,
    });
    cmds.push(FrameCommand::Dispatch { x: (extent.width + 15) / 16, y: (extent.height + 15) / 16, z: 1 });
    assert(cmds@ =~= clear_pass_seq(extent));
    cmds
}

/// The workgroup count for `extent` pixels is the least whose groups cover
/// them all.
pub proof fn lemma_groups_cover(extent: u32)
    requires
        extent <= u32::MAX - 15,
    ensures
        groups_for(extent) * CLEAR_GROUP_SIZE >= extent,
        groups_for(extent) == 0 || (groups_for(extent) - 1) * CLEAR_GROUP_SIZE < extent,
{
}

/// The clear pass dispatches once, last, and its workgroups cover the
/// whole target with no group to spare.
pub proof fn lemma_clear_pass_covers_target(e: Extent2D)
    requires
        e.width <= u32::MAX - 15,
        e.height <= u32::MAX - 15,
    ensures
        dispatch_covers(clear_pass_seq(e)[3], e),
        forall|i: int| 0 <= i < 3 ==> !(#[trigger] clear_pass_seq(e)[i] is Dispatch),
{
}

} // verus!
