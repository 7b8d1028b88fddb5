//! The pass that draws a triangle with mesh shaders onto the render target.
use vstd::prelude::*;

use crate::graphics::base::command_buffer::{transition_barrier, LAYOUT_COLOR_ATTACHMENT_OPTIMAL, LAYOUT_GENERAL};
use crate::graphics::base::swapchain::Extent2D;
use crate::graphics::frame::{transition, FrameCommand, FrameImage, PassPipeline};

verus! {

/// `VK_ATTACHMENT_LOAD_OP_LOAD`.
pub const ATTACHMENT_LOAD_OP_LOAD: i32 = 0;

/// `VK_ATTACHMENT_STORE_OP_STORE`.
pub const ATTACHMENT_STORE_OP_STORE: i32 = 0;

/// What the triangle pass records on a render target of extent `e`: the
/// target is moved from `GENERAL` to `COLOR_ATTACHMENT_OPTIMAL`, rendering
/// begins over the whole target with the target as its one color attachment,
/// kept (load) and stored, the viewport and scissor cover the target, the
/// triangle pipeline is bound, one mesh-task workgroup is drawn, and
/// rendering ends.
pub open spec fn triangle_pass_seq(e: Extent2D) -> Seq<FrameCommand> {
    seq![
        FrameCommand::Transition {
            image: FrameImage::Draw,
            barrier: transition_barrier(LAYOUT_GENERAL, LAYOUT_COLOR_ATTACHMENT_OPTIMAL),
        },
        FrameCommand::BeginRendering {
            image: FrameImage::Draw,
            area: e,
            layer_count: 1,
            layout: LAYOUT_COLOR_ATTACHMENT_OPTIMAL,
            load_op: ATTACHMENT_LOAD_OP_LOAD,
            store_op: ATTACHMENT_STORE_OP_STORE,
        },
        FrameCommand::SetViewport { extent: e },
        FrameCommand::SetScissor { extent: e },
        FrameCommand::BindPipeline { pipeline: PassPipeline::Triangle },
        FrameCommand::DrawMeshTasks { x: 1, y: 1, z: 1 },
        FrameCommand::EndRendering,
    ]
}

/// The commands the triangle pass records on a render target of extent `extent`.
pub fn triangle_pass_commands(extent: Extent2D) -> (cmds: Vec<FrameCommand>)
    ensures
        cmds@ == triangle_pass_seq(extent),
{
    let mut cmds: Vec<FrameCommand> = Vec::new();
    cmds.push(transition(FrameImage::Draw, LAYOUT_GENERAL, LAYOUT_COLOR_ATTACHMENT_OPTIMAL));
    cmds.push(FrameCommand::BeginRendering {
        image: FrameImage::Draw,
        area: extent,
        layer_count: 1,
        layout: LAYOUT_COLOR_ATTACHMENT_OPTIMAL,
        load_op: ATTACHMENT_LOAD_OP_LOAD,
        store_op: ATTACHMENT_STORE_OP_STORE,
    });
    cmds.push(FrameCommand::SetViewport { extent });
    cmds.push(FrameCommand::SetScissor { extent });
    cmds.push(FrameCommand::BindPipeline { pipeline: PassPipeline::Triangle });
    cmds.push(FrameCommand::DrawMeshTasks { x: 1, y: 1, z: 1 });
    cmds.push(FrameCommand::EndRendering);
    assert(cmds@ =~= triangle_pass_seq(extent));
    cmds
}

} // verus!
