//! The frame loop of the engine: which frame slot is in use, what a frame
//! records into its command buffer, and how the results of acquiring and
//! presenting a swapchain image decide what happens next.
use vstd::prelude::*;

use super::base::command_buffer::{
    blit_between, image_blit, image_transition, transition_barrier, Blit, ImageBarrier, Offset3D, LAYOUT_COLOR_ATTACHMENT_OPTIMAL, LAYOUT_GENERAL,
    LAYOUT_PRESENT_SRC, LAYOUT_TRANSFER_DST_OPTIMAL, LAYOUT_TRANSFER_SRC_OPTIMAL,
    LAYOUT_UNDEFINED,
};
use super::base::swapchain::Extent2D;
use super::pass::clear::{clear_pass_commands, clear_pass_seq};
use super::pass::triangle::{triangle_pass_commands, triangle_pass_seq};

verus! {

/// Number of frames the CPU may record ahead of the GPU.
pub const FRAMES_IN_FLIGHT: usize = 3;

/// `VK_ERROR_OUT_OF_DATE_KHR`.
pub const ERROR_OUT_OF_DATE: i32 = -1000001004;

/// What to do after trying to acquire a swapchain image.
#[derive(Clone, Copy, Debug, PartialEq, Eq, Structural)]
pub enum AcquireOutcome {
    /// Record and present a frame into the swapchain image with this index.
    Render(u32),
    /// The swapchain is out of date: draw nothing this time.
    Skip,
}

/// The outcome of `vkAcquireNextImageKHR` (the image index and whether the
/// swapchain is suboptimal, or the error): render into the image, skip the
/// frame when the swapchain is out of date, fail on any other error.
pub fn acquire_outcome(result: Result<(u32, bool), i32>) -> (r: Result<AcquireOutcome, i32>)
    ensures
        match result {
            Ok((index, _)) => r == Ok::<AcquireOutcome, i32>(AcquireOutcome::Render(index)),
            Err(e) => if e == ERROR_OUT_OF_DATE {
                r == Ok::<AcquireOutcome, i32>(AcquireOutcome::Skip)
            } else {
                r == Err::<AcquireOutcome, i32>(e)
            },
        },
{
    match result {
        Ok((index, _)) => Ok(AcquireOutcome::Render(index)),
        Err(e) => if e == ERROR_OUT_OF_DATE {
            Ok(AcquireOutcome::Skip)
        } else {
            Err(e)
        },
    }
}

/// The frame slot after `index`.
pub open spec fn next_slot(index: int) -> int {
    (index + 1) % (FRAMES_IN_FLIGHT as int)
}

/// The frame slot in use, one of `FRAMES_IN_FLIGHT`.
pub struct FrameCycle {
    frame_index: usize,
}

impl FrameCycle {
    #[verifier::type_invariant]
    spec fn slot_in_range(self) -> bool {
        self.frame_index < FRAMES_IN_FLIGHT
    }

    pub closed spec fn index(&self) -> int {
        self.frame_index as int
    }

    /// The first frame uses slot 0.
    pub fn new() -> (c: Self)
        ensures
            c.index() == 0,
    {
        FrameCycle { frame_index: 0 }
    }

    /// The slot in use.
    pub fn frame_index(&self) -> (i: usize)
        ensures
            i == self.index(),
            i < FRAMES_IN_FLIGHT,
    {
        proof {
            use_type_invariant(self);
        }
        self.frame_index
    }

    /// Moves on to the next slot, back to 0 after the last.
    pub fn advance(&mut self)
        ensures
            final(self).index() == next_slot(old(self).index()),
    {
        proof {
            use_type_invariant(&*self);
        }
        self.frame_index = (self.frame_index + 1) % FRAMES_IN_FLIGHT;
    }

    /// Ends a frame of the engine's `Graphics` given the outcome of
    /// `vkQueuePresentKHR` (whether the swapchain is suboptimal, or the
    /// error): any success, and an out-of-date swapchain, complete the frame
    /// and move on to the next slot; any other error fails the frame and
    /// keeps the slot.
    pub fn finish_frame(&mut self, present: Result<bool, i32>) -> (r: Result<(), i32>)
        ensures
            match present {
                Err(e) if e != ERROR_OUT_OF_DATE => r == Err::<(), i32>(e) && final(self).index() == old(self).index(),
                _ => r == Ok::<(), i32>(()) && final(self).index() == next_slot(old(self).index()),
            },
    {
        match present {
            Err(e) => {
                if e != ERROR_OUT_OF_DATE {
                    return Err(e);
                }
            },
            Ok(_) => {},
        }
        self.advance();
        Ok(())
    }

    /// Ends a frame of the renderer's `Graphics` given the outcome of
    /// `vkQueuePresentKHR`: a suboptimal or out-of-date swapchain ends the
    /// draw without moving on, an optimal present moves on to the next slot,
    /// any other error fails the draw.
    pub fn finish_renderer_frame(&mut self, present: Result<bool, i32>) -> (r: Result<(), i32>)
        ensures
            match present {
                Ok(false) => r == Ok::<(), i32>(()) && final(self).index() == next_slot(old(self).index()),
                Ok(true) => r == Ok::<(), i32>(()) && final(self).index() == old(self).index(),
                Err(e) => final(self).index() == old(self).index() && if e == ERROR_OUT_OF_DATE {
                    r == Ok::<(), i32>(())
                } else {
                    r == Err::<(), i32>(e)
                },
            },
    {
        match present {
            Ok(true) => Ok(()),
            Err(e) => if e == ERROR_OUT_OF_DATE {
                Ok(())
            } else {
                Err(e)
            },
            Ok(false) => {
                self.advance();
                Ok(())
            },
        }
    }
}

/// The frame slot stays in range and comes back to where it started after
/// `FRAMES_IN_FLIGHT` completed frames.
pub proof fn lemma_slots_cycle(index: int)
    requires
        0 <= index < FRAMES_IN_FLIGHT,
    ensures
        0 <= next_slot(index) < FRAMES_IN_FLIGHT,
        next_slot(next_slot(next_slot(index))) == index,
        next_slot(index) != index,
{
}

/// The images a frame records commands on.
#[derive(Clone, Copy, Debug, PartialEq, Eq, Structural)]
pub enum FrameImage {
    /// The image the frame renders into.
    Draw,
    /// The swapchain image acquired for the frame.
    Swapchain,
}

/// The pipelines of the engine's passes.
#[derive(Clone, Copy, Debug, PartialEq, Eq, Structural)]
pub enum PassPipeline {
    /// The compute pipeline of the clear pass.
    Clear,
    /// The mesh-shading graphics pipeline of the triangle pass.
    Triangle,
}

/// A command a frame records on its images.
#[derive(Clone, Copy, Debug, PartialEq, Eq, Structural)]
pub enum FrameCommand {
    /// A layout transition of a whole image.
    Transition { image: FrameImage, barrier: ImageBarrier },
    /// Clearing mip level 0, layer 0 of an image's color to the clear color,
    /// the image being in `layout`.
    ClearColor { image: FrameImage, layout: i32 },
    /// A blit from one image to the other.
    Blit { src: FrameImage, dst: FrameImage, blit: Blit },
    /// Binding a pass's pipeline.
    BindPipeline { pipeline: PassPipeline },
    /// Binding, as set `first_set` of the bound pipeline, a descriptor set
    /// allocated for its set layout 0 in which `image`, in `layout`, is
    /// written at `binding` (array element 0) as a descriptor of the raw
    /// `VkDescriptorType` `descriptor_type`.
    BindImageDescriptor { image: FrameImage, first_set: u32, binding: u32, descriptor_type: i32, layout: i32 },
    /// A compute dispatch of `x` by `y` by `z` workgroups.
    Dispatch { x: u32, y: u32, z: u32 },
    /// Beginning dynamic rendering over `area` from the origin, with
    /// `layer_count` layers and one color attachment: `image` in `layout`,
    /// loaded with `load_op` and stored with `store_op` (raw values).
    BeginRendering { image: FrameImage, area: Extent2D, layer_count: u32, layout: i32, load_op: i32, store_op: i32 },
    /// Setting the viewport to `extent` (as floats) from the origin.
    SetViewport { extent: Extent2D },
    /// Setting the scissor to `extent` from the origin.
    SetScissor { extent: Extent2D },
    /// Drawing `x` by `y` by `z` mesh-task workgroups.
    DrawMeshTasks { x: u32, y: u32, z: u32 },
    /// Ending dynamic rendering.
    EndRendering,
}

/// `c` copies the whole draw image, of extent `draw`, onto the whole
/// swapchain image, of extent `swapchain`: the source region runs from the
/// origin to the draw image's far corner and the destination region from
/// the origin to the swapchain image's far corner, one layer deep.
pub open spec fn copies_draw_onto_swapchain(c: FrameCommand, draw: Extent2D, swapchain: Extent2D) -> bool {
    &&& c matches FrameCommand::Blit { src, dst, blit }
    &&& src == FrameImage::Draw
    &&& dst == FrameImage::Swapchain
    &&& blit.src_start == Offset3D { x: 0, y: 0, z: 0 }
    &&& blit.src_end == Offset3D { x: draw.width as i32, y: draw.height as i32, z: 1 }
    &&& blit.dst_start == Offset3D { x: 0, y: 0, z: 0 }
    &&& blit.dst_end == Offset3D { x: swapchain.width as i32, y: swapchain.height as i32, z: 1 }
}

/// The layout of `image` after `cmds`, having started in `start`.
pub open spec fn layout_after(cmds: Seq<FrameCommand>, image: FrameImage, start: i32) -> i32
    decreases cmds.len(),
{
    if cmds.len() == 0 {
        start
    } else {
        let before = layout_after(cmds.drop_last(), image, start);
        match cmds.last() {
            FrameCommand::Transition { image: img, barrier } => if img == image {
                barrier.new_layout
            } else {
                before
            },
            _ => before,
        }
    }
}

/// Every command of `cmds` finds the images in the layouts it expects:
/// a transition starts from the image's layout or from `UNDEFINED` (which
/// discards the contents), a clear finds the image in the layout it names,
/// a blit finds its source in `TRANSFER_SRC_OPTIMAL` and its destination
/// in `TRANSFER_DST_OPTIMAL`, and a descriptor or a rendering attachment
/// finds its image in the layout it names.
pub open spec fn layouts_consistent(cmds: Seq<FrameCommand>, draw_start: i32, swap_start: i32) -> bool
    decreases cmds.len(),
{
    if cmds.len() == 0 {
        true
    } else {
        let prefix = cmds.drop_last();
        let current = |img: FrameImage| if img == FrameImage::Draw {
            layout_after(prefix, FrameImage::Draw, draw_start)
        } else {
            layout_after(prefix, FrameImage::Swapchain, swap_start)
        };
        layouts_consistent(prefix, draw_start, swap_start) && match cmds.last() {
            FrameCommand::Transition { image, barrier } => barrier.old_layout == LAYOUT_UNDEFINED
                || barrier.old_layout == current(image),
            FrameCommand::ClearColor { image, layout } => layout == current(image),
            FrameCommand::Blit { src, dst, blit } => current(src) == LAYOUT_TRANSFER_SRC_OPTIMAL
                && current(dst) == LAYOUT_TRANSFER_DST_OPTIMAL && blit.src_layout
                == LAYOUT_TRANSFER_SRC_OPTIMAL && blit.dst_layout == LAYOUT_TRANSFER_DST_OPTIMAL,
            FrameCommand::BindImageDescriptor { image, layout, .. } => layout == current(image),
            FrameCommand::BeginRendering { image, layout, .. } => layout == current(image),
            _ => true,
        }
    }
}

pub(crate) fn transition(image: FrameImage, old_layout: i32, new_layout: i32) -> (c: FrameCommand)
    ensures
        c == (FrameCommand::Transition { image, barrier: transition_barrier(old_layout, new_layout) }),
{
    FrameCommand::Transition { image, barrier: image_transition(old_layout, new_layout) }
}

/// What the engine's `Graphics` records at the end of a frame, after the
/// passes: the draw image and the swapchain image are made ready for
/// transfer, the draw image is blitted onto the swapchain image, and the
/// swapchain image is made ready for presentation.
pub fn end_frame_commands(draw_extent: Extent2D, swapchain_extent: Extent2D) -> (cmds: Vec<FrameCommand>)
    ensures
        cmds@ == end_frame_seq(draw_extent, swapchain_extent),
        copies_draw_onto_swapchain(cmds@[2], draw_extent, swapchain_extent),
{
    let mut cmds: Vec<FrameCommand> = Vec::new();
    cmds.push(transition(FrameImage::Draw, LAYOUT_UNDEFINED, LAYOUT_TRANSFER_SRC_OPTIMAL));
    cmds.push(transition(FrameImage::Swapchain, LAYOUT_UNDEFINED, LAYOUT_TRANSFER_DST_OPTIMAL));
    let blit = image_blit(draw_extent, swapchain_extent);
    cmds.push(FrameCommand::Blit { src: FrameImage::Draw, dst: FrameImage::Swapchain, blit });
    cmds.push(transition(FrameImage::Swapchain, LAYOUT_TRANSFER_DST_OPTIMAL, LAYOUT_PRESENT_SRC));
    assert(cmds@ =~= end_frame_seq(draw_extent, swapchain_extent));
    cmds
}

/// The commands `end_frame_commands` records, for extents `d` and `s`.
pub open spec fn end_frame_seq(d: Extent2D, s: Extent2D) -> Seq<FrameCommand> {
    seq![
        FrameCommand::Transition {
            image: FrameImage::Draw,
            barrier: transition_barrier(LAYOUT_UNDEFINED, LAYOUT_TRANSFER_SRC_OPTIMAL),
        },
        FrameCommand::Transition {
            image: FrameImage::Swapchain,
            barrier: transition_barrier(LAYOUT_UNDEFINED, LAYOUT_TRANSFER_DST_OPTIMAL),
        },
        FrameCommand::Blit { src: FrameImage::Draw, dst: FrameImage::Swapchain, blit: blit_between(d, s) },
        FrameCommand::Transition {
            image: FrameImage::Swapchain,
            barrier: transition_barrier(LAYOUT_TRANSFER_DST_OPTIMAL, LAYOUT_PRESENT_SRC),
        },
    ]
}

/// Whatever layouts the draw image and the swapchain image are in when a
/// frame ends, the end of the frame finds each image in the layout each of
/// its commands expects, leaves the swapchain image ready for presentation
/// and the draw image ready as a transfer source.
pub proof fn lemma_end_frame_layouts(d: Extent2D, s: Extent2D, draw_start: i32, swap_start: i32)
    ensures
        layouts_consistent(end_frame_seq(d, s), draw_start, swap_start),
        layout_after(end_frame_seq(d, s), FrameImage::Swapchain, swap_start) == LAYOUT_PRESENT_SRC,
        layout_after(end_frame_seq(d, s), FrameImage::Draw, draw_start) == LAYOUT_TRANSFER_SRC_OPTIMAL,
{
    let c = end_frame_seq(d, s);
    let c3 = c.drop_last();
    let c2 = c3.drop_last();
    let c1 = c2.drop_last();
    let c0 = c1.drop_last();
    assert(c0.len() == 0);
    assert(layout_after(c0, FrameImage::Swapchain, swap_start) == swap_start);
    assert(layout_after(c0, FrameImage::Draw, draw_start) == draw_start);
    assert(layouts_consistent(c0, draw_start, swap_start));
    assert(layout_after(c1, FrameImage::Draw, draw_start) == LAYOUT_TRANSFER_SRC_OPTIMAL);
    assert(layout_after(c1, FrameImage::Swapchain, swap_start) == swap_start);
    assert(layout_after(c2, FrameImage::Draw, draw_start) == LAYOUT_TRANSFER_SRC_OPTIMAL);
    assert(layout_after(c2, FrameImage::Swapchain, swap_start) == LAYOUT_TRANSFER_DST_OPTIMAL);
    assert(layout_after(c3, FrameImage::Draw, draw_start) == LAYOUT_TRANSFER_SRC_OPTIMAL);
    assert(layout_after(c3, FrameImage::Swapchain, swap_start) == LAYOUT_TRANSFER_DST_OPTIMAL);
    assert(layouts_consistent(c1, draw_start, swap_start));
    assert(layouts_consistent(c2, draw_start, swap_start));
    assert(layouts_consistent(c3, draw_start, swap_start));
}

/// What the engine's `Graphics` records in a frame, for a draw image of
/// extent `d` and a swapchain of extent `s`: the clear pass, then the
/// triangle pass, then the end of the frame.
pub open spec fn engine_frame_seq(d: Extent2D, s: Extent2D) -> Seq<FrameCommand> {
    clear_pass_seq(d) + triangle_pass_seq(d) + end_frame_seq(d, s)
}

/// The commands a frame of the engine's `Graphics` records between beginning
/// and ending its command buffer.
pub fn engine_frame_commands(draw_extent: Extent2D, swapchain_extent: Extent2D) -> (cmds: Vec<FrameCommand>)
    requires
        draw_extent.width <= u32::MAX - 15,
        draw_extent.height <= u32::MAX - 15,
    ensures
        cmds@ == engine_frame_seq(draw_extent, swapchain_extent),
{
    let mut cmds = clear_pass_commands(draw_extent);
    let mut triangle = triangle_pass_commands(draw_extent);
    cmds.append(&mut triangle);
    let mut end = end_frame_commands(draw_extent, swapchain_extent);
    cmds.append(&mut end);
    cmds
}

/// Layouts after two runs of commands are those after the second, started
/// from where the first left the image.
pub proof fn lemma_layout_after_concat(a: Seq<FrameCommand>, b: Seq<FrameCommand>, image: FrameImage, start: i32)
    ensures
        layout_after(a + b, image, start) == layout_after(b, image, layout_after(a, image, start)),
    decreases b.len(),
{
    if b.len() == 0 {
        assert(a + b =~= a);
    } else {
        assert((a + b).drop_last() =~= a + b.drop_last());
        assert((a + b).last() == b.last());
        lemma_layout_after_concat(a, b.drop_last(), image, start);
    }
}

/// Two runs of commands are consistent together when the first is, and the
/// second is from the layouts the first leaves.
pub proof fn lemma_layouts_consistent_concat(a: Seq<FrameCommand>, b: Seq<FrameCommand>, draw_start: i32, swap_start: i32)
    ensures
        layouts_consistent(a + b, draw_start, swap_start) == (layouts_consistent(a, draw_start, swap_start)
            && layouts_consistent(
            b,
            layout_after(a, FrameImage::Draw, draw_start),
            layout_after(a, FrameImage::Swapchain, swap_start),
        )),
    decreases b.len(),
{
    if b.len() == 0 {
        assert(a + b =~= a);
    } else {
        let p = b.drop_last();
        assert((a + b).drop_last() =~= a + p);
        assert((a + b).last() == b.last());
        lemma_layouts_consistent_concat(a, p, draw_start, swap_start);
        lemma_layout_after_concat(a, p, FrameImage::Draw, draw_start);
        lemma_layout_after_concat(a, p, FrameImage::Swapchain, swap_start);
    }
}

/// Whatever layouts the images start a frame in, every command of the
/// engine's frame finds its images in the layouts it expects, and the
/// swapchain image ends ready for presentation.
pub proof fn lemma_engine_frame_layouts(d: Extent2D, s: Extent2D, draw_start: i32, swap_start: i32)
    ensures
        layouts_consistent(engine_frame_seq(d, s), draw_start, swap_start),
        layout_after(engine_frame_seq(d, s), FrameImage::Swapchain, swap_start) == LAYOUT_PRESENT_SRC,
        layout_after(engine_frame_seq(d, s), FrameImage::Draw, draw_start) == LAYOUT_TRANSFER_SRC_OPTIMAL,
{
    let c = clear_pass_seq(d);
    let t = triangle_pass_seq(d);
    let e = end_frame_seq(d, s);
    reveal_with_fuel(layout_after, 8);
    reveal_with_fuel(layouts_consistent, 8);
    assert(layouts_consistent(c, draw_start, swap_start));
    assert(layout_after(c, FrameImage::Draw, draw_start) == LAYOUT_GENERAL);
    assert(layout_after(c, FrameImage::Swapchain, swap_start) == swap_start);
    assert(layouts_consistent(t, LAYOUT_GENERAL, swap_start));
    assert(layout_after(t, FrameImage::Draw, LAYOUT_GENERAL) == LAYOUT_COLOR_ATTACHMENT_OPTIMAL);
    assert(layout_after(t, FrameImage::Swapchain, swap_start) == swap_start);
    lemma_layouts_consistent_concat(c, t, draw_start, swap_start);
    lemma_layout_after_concat(c, t, FrameImage::Draw, draw_start);
    lemma_layout_after_concat(c, t, FrameImage::Swapchain, swap_start);
    lemma_end_frame_layouts(d, s, LAYOUT_COLOR_ATTACHMENT_OPTIMAL, swap_start);
    lemma_layouts_consistent_concat(c + t, e, draw_start, swap_start);
    lemma_layout_after_concat(c + t, e, FrameImage::Draw, draw_start);
    lemma_layout_after_concat(c + t, e, FrameImage::Swapchain, swap_start);
}

/// The end of a frame makes exactly one copy, its third command, and it
/// copies the whole draw image onto the whole swapchain image.
pub proof fn lemma_end_frame_copies_whole_images(d: Extent2D, s: Extent2D)
    ensures
        copies_draw_onto_swapchain(end_frame_seq(d, s)[2], d, s),
        forall|i: int| 0 <= i < end_frame_seq(d, s).len() && i != 2 ==> !(#[trigger] end_frame_seq(d, s)[i] is Blit),
{
}

/// An engine frame makes exactly one copy, after both passes, and it copies
/// the whole draw image onto the whole swapchain image.
pub proof fn lemma_engine_frame_copies_whole_images(d: Extent2D, s: Extent2D)
    ensures
        engine_frame_seq(d, s).len() == 15,
        copies_draw_onto_swapchain(engine_frame_seq(d, s)[13], d, s),
        forall|i: int| 0 <= i < engine_frame_seq(d, s).len() && i != 13 ==> !(#[trigger] engine_frame_seq(d, s)[i] is Blit),
{
    let c = clear_pass_seq(d);
    let t = triangle_pass_seq(d);
    let e = end_frame_seq(d, s);
    let f = engine_frame_seq(d, s);
    assert forall|i: int| 0 <= i < f.len() && i != 13 implies !(#[trigger] f[i] is Blit) by {
        if i < 4 {
            assert(f[i] == c[i]);
        } else if i < 11 {
            assert(f[i] == t[i - 4]);
        } else {
            assert(f[i] == e[i - 11]);
        }
    }
    assert(f[13] == e[2]);
}

} // verus!
