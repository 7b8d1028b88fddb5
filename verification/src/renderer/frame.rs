//! What a frame of the renderer records: the draw image is cleared, then
//! copied onto the acquired swapchain image, which is made ready for
//! presentation.
use vstd::prelude::*;

use crate::graphics::base::command_buffer::{
    blit_between, image_blit, image_transition, transition_barrier, LAYOUT_GENERAL,
    LAYOUT_PRESENT_SRC, LAYOUT_TRANSFER_DST_OPTIMAL, LAYOUT_TRANSFER_SRC_OPTIMAL,
    LAYOUT_UNDEFINED,
};
use crate::graphics::base::swapchain::Extent2D;
use crate::graphics::frame::{copies_draw_onto_swapchain, layout_after, layouts_consistent, FrameCommand, FrameImage};

verus! {

/// The commands of a renderer frame, for a draw image of extent `d` and a
/// swapchain of extent `s`.
pub open spec fn renderer_frame_seq(d: Extent2D, s: Extent2D) -> Seq<FrameCommand> {
    seq![
        FrameCommand::Transition {
            image: FrameImage::Draw,
            barrier: transition_barrier(LAYOUT_UNDEFINED, LAYOUT_GENERAL),
        },
        FrameCommand::ClearColor { image: FrameImage::Draw, layout: LAYOUT_GENERAL },
        FrameCommand::Transition {
            image: FrameImage::Draw,
            barrier: transition_barrier(LAYOUT_GENERAL, LAYOUT_TRANSFER_SRC_OPTIMAL),
        },
        FrameCommand::Transition {
            image: FrameImage::Swapchain,
            barrier: transition_barrier(LAYOUT_UNDEFINED, LAYOUT_TRANSFER_DST_OPTIMAL),
        },
        FrameCommand::Blit { src: FrameImage::Draw, dst: FrameImage::Swapchain, blit: blit_between(d, s) },
        FrameCommand::Transition {
            image: FrameImage::Swapchain,
            barrier: transition_barrier(LAYOUT_TRANSFER_DST_OPTIMAL, LAYOUT_PRESENT_SRC),
        },
    ]
}

/// The commands a renderer frame records between beginning and ending its
/// command buffer.
pub fn frame_commands(draw_extent: Extent2D, swapchain_extent: Extent2D) -> (cmds: Vec<FrameCommand>)
    ensures
        cmds@ == renderer_frame_seq(draw_extent, swapchain_extent),
        copies_draw_onto_swapchain(cmds@[4], draw_extent, swapchain_extent),
{
    let mut cmds: Vec<FrameCommand> = Vec::new();
    cmds.push(FrameCommand::Transition {
        image: FrameImage::Draw,
        barrier: image_transition(LAYOUT_UNDEFINED, LAYOUT_GENERAL),
    });
    cmds.push(FrameCommand::ClearColor { image: FrameImage::Draw, layout: LAYOUT_GENERAL });
    cmds.push(FrameCommand::Transition {
        image: FrameImage::Draw,
        barrier: image_transition(LAYOUT_GENERAL, LAYOUT_TRANSFER_SRC_OPTIMAL),
    });
    cmds.push(FrameCommand::Transition {
        image: FrameImage::Swapchain,
        barrier: image_transition(LAYOUT_UNDEFINED, LAYOUT_TRANSFER_DST_OPTIMAL),
    });
    let blit = image_blit(draw_extent, swapchain_extent);
    cmds.push(FrameCommand::Blit { src: FrameImage::Draw, dst: FrameImage::Swapchain, blit });
    cmds.push(FrameCommand::Transition {
        image: FrameImage::Swapchain,
        barrier: image_transition(LAYOUT_TRANSFER_DST_OPTIMAL, LAYOUT_PRESENT_SRC),
    });
    assert(cmds@ =~= renderer_frame_seq(draw_extent, swapchain_extent));
    cmds
}

/// Whatever layouts the images start a frame in, every command of the
/// renderer's frame finds its images in the layouts it expects, the cleared
/// draw image keeps its contents up to the copy (only its first transition
/// starts from `UNDEFINED`), and the swapchain image ends ready for
/// presentation.
pub proof fn lemma_frame_layouts(d: Extent2D, s: Extent2D, draw_start: i32, swap_start: i32)
    ensures
        layouts_consistent(renderer_frame_seq(d, s), draw_start, swap_start),
        layout_after(renderer_frame_seq(d, s), FrameImage::Swapchain, swap_start) == LAYOUT_PRESENT_SRC,
        layout_after(renderer_frame_seq(d, s), FrameImage::Draw, draw_start) == LAYOUT_TRANSFER_SRC_OPTIMAL,
        renderer_frame_seq(d, s)[2]->barrier.old_layout != LAYOUT_UNDEFINED,
{
    let c = renderer_frame_seq(d, s);
    let c5 = c.drop_last();
    let c4 = c5.drop_last();
    let c3 = c4.drop_last();
    let c2 = c3.drop_last();
    let c1 = c2.drop_last();
    let c0 = c1.drop_last();
    assert(c0.len() == 0);
    assert(layout_after(c0, FrameImage::Swapchain, swap_start) == swap_start);
    assert(layout_after(c0, FrameImage::Draw, draw_start) == draw_start);
    assert(layouts_consistent(c0, draw_start, swap_start));
    assert(layout_after(c1, FrameImage::Draw, draw_start) == LAYOUT_GENERAL);
    assert(layout_after(c1, FrameImage::Swapchain, swap_start) == swap_start);
    assert(layouts_consistent(c1, draw_start, swap_start));
    assert(layout_after(c2, FrameImage::Draw, draw_start) == LAYOUT_GENERAL);
    assert(layout_after(c2, FrameImage::Swapchain, swap_start) == swap_start);
    assert(layouts_consistent(c2, draw_start, swap_start));
    assert(layout_after(c3, FrameImage::Draw, draw_start) == LAYOUT_TRANSFER_SRC_OPTIMAL);
    assert(layout_after(c3, FrameImage::Swapchain, swap_start) == swap_start);
    assert(layouts_consistent(c3, draw_start, swap_start));
    assert(layout_after(c4, FrameImage::Draw, draw_start) == LAYOUT_TRANSFER_SRC_OPTIMAL);
    assert(layout_after(c4, FrameImage::Swapchain, swap_start) == LAYOUT_TRANSFER_DST_OPTIMAL);
    assert(layouts_consistent(c4, draw_start, swap_start));
    assert(layout_after(c5, FrameImage::Draw, draw_start) == LAYOUT_TRANSFER_SRC_OPTIMAL);
    assert(layout_after(c5, FrameImage::Swapchain, swap_start) == LAYOUT_TRANSFER_DST_OPTIMAL);
    assert(layouts_consistent(c5, draw_start, swap_start));
}

/// A renderer frame makes exactly one copy, its fifth command, after the
/// clear: it copies the whole draw image onto the whole swapchain image.
pub proof fn lemma_frame_copies_whole_images(d: Extent2D, s: Extent2D)
    ensures
        copies_draw_onto_swapchain(renderer_frame_seq(d, s)[4], d, s),
        forall|i: int| 0 <= i < renderer_frame_seq(d, s).len() && i != 4 ==> !(#[trigger] renderer_frame_seq(d, s)[i] is Blit),
        renderer_frame_seq(d, s)[1] is ClearColor,
{
}

} // verus!
