use kx_engine::graphics::base::command_buffer::{
    format_aspect, image_blit, image_transition, transition_aspect, Offset3D, ASPECT_COLOR, ASPECT_DEPTH,
    FORMAT_D32_SFLOAT, LAYOUT_DEPTH_ATTACHMENT_OPTIMAL, LAYOUT_DEPTH_STENCIL_ATTACHMENT_OPTIMAL, LAYOUT_GENERAL,
    LAYOUT_PRESENT_SRC, LAYOUT_TRANSFER_DST_OPTIMAL, LAYOUT_TRANSFER_SRC_OPTIMAL, LAYOUT_UNDEFINED,
};
use kx_engine::graphics::base::swapchain::Extent2D;
use kx_engine::graphics::frame::{
    acquire_outcome, end_frame_commands, AcquireOutcome, FrameCommand, FrameCycle, FrameImage, ERROR_OUT_OF_DATE,
    FRAMES_IN_FLIGHT,
};
use kx_engine::graphics::base::command_buffer::LAYOUT_COLOR_ATTACHMENT_OPTIMAL;
use kx_engine::graphics::frame::{engine_frame_commands, PassPipeline};
use kx_engine::graphics::pass::clear::{clear_pass_commands, DESCRIPTOR_TYPE_STORAGE_IMAGE};
use kx_engine::graphics::pass::triangle::{triangle_pass_commands, ATTACHMENT_LOAD_OP_LOAD, ATTACHMENT_STORE_OP_STORE};
use kx_engine::renderer::frame::frame_commands;

#[test]
fn acquire_outcomes() {
    assert_eq!(acquire_outcome(Ok((2, true))), Ok(AcquireOutcome::Render(2)));
    assert_eq!(acquire_outcome(Err(ERROR_OUT_OF_DATE)), Ok(AcquireOutcome::Skip));
    assert_eq!(acquire_outcome(Err(-4)), Err(-4));
}

#[test]
fn frame_slots_cycle_through_the_frames_in_flight() {
    let mut c = FrameCycle::new();
    assert_eq!(c.frame_index(), 0);
    for expected in [1, 2, 0, 1] {
        assert_eq!(c.finish_frame(Ok(false)), Ok(()));
        assert_eq!(c.frame_index(), expected);
    }
    assert_eq!(FRAMES_IN_FLIGHT, 3);
}

#[test]
fn graphics_frames_move_on_unless_presenting_fails() {
    let mut c = FrameCycle::new();
    assert_eq!(c.finish_frame(Ok(true)), Ok(()));
    assert_eq!(c.finish_frame(Err(ERROR_OUT_OF_DATE)), Ok(()));
    assert_eq!(c.frame_index(), 2);
    assert_eq!(c.finish_frame(Err(-3)), Err(-3));
    assert_eq!(c.frame_index(), 2);
}

#[test]
fn renderer_frames_move_on_only_after_an_optimal_present() {
    let mut c = FrameCycle::new();
    assert_eq!(c.finish_renderer_frame(Ok(true)), Ok(()));
    assert_eq!(c.frame_index(), 0);
    assert_eq!(c.finish_renderer_frame(Err(ERROR_OUT_OF_DATE)), Ok(()));
    assert_eq!(c.frame_index(), 0);
    assert_eq!(c.finish_renderer_frame(Err(-3)), Err(-3));
    assert_eq!(c.frame_index(), 0);
    assert_eq!(c.finish_renderer_frame(Ok(false)), Ok(()));
    assert_eq!(c.frame_index(), 1);
}

#[test]
fn transitions_pick_the_aspect_from_the_layouts() {
    assert_eq!(transition_aspect(LAYOUT_UNDEFINED, LAYOUT_GENERAL), ASPECT_COLOR);
    assert_eq!(transition_aspect(LAYOUT_DEPTH_ATTACHMENT_OPTIMAL, LAYOUT_GENERAL), ASPECT_DEPTH);
    assert_eq!(transition_aspect(LAYOUT_UNDEFINED, LAYOUT_DEPTH_STENCIL_ATTACHMENT_OPTIMAL), ASPECT_DEPTH);
    let b = image_transition(LAYOUT_UNDEFINED, LAYOUT_TRANSFER_DST_OPTIMAL);
    assert_eq!(b.old_layout, LAYOUT_UNDEFINED);
    assert_eq!(b.new_layout, LAYOUT_TRANSFER_DST_OPTIMAL);
    assert_eq!(b.src_stage_mask, 0x10000);
    assert_eq!(b.dst_access_mask, 0x18000);
    assert_eq!(b.level_count, u32::MAX);
    assert_eq!(format_aspect(FORMAT_D32_SFLOAT), ASPECT_DEPTH);
    assert_eq!(format_aspect(97), ASPECT_COLOR);
}

#[test]
fn blits_cover_both_images() {
    let blit = image_blit(Extent2D { width: 640, height: 480 }, Extent2D { width: 1280, height: 720 });
    assert_eq!(blit.src_start, Offset3D { x: 0, y: 0, z: 0 });
    assert_eq!(blit.src_end, Offset3D { x: 640, y: 480, z: 1 });
    assert_eq!(blit.dst_end, Offset3D { x: 1280, y: 720, z: 1 });
    assert_eq!(blit.layer_count, 1);
}

#[test]
fn the_end_of_a_frame_presents_the_swapchain_image() {
    let cmds = end_frame_commands(Extent2D { width: 4, height: 4 }, Extent2D { width: 8, height: 8 });
    assert_eq!(cmds.len(), 4);
    match cmds[3] {
        FrameCommand::Transition { image, barrier } => {
            assert_eq!(image, FrameImage::Swapchain);
            assert_eq!(barrier.new_layout, LAYOUT_PRESENT_SRC);
        }
        _ => panic!("expected a transition"),
    }
    assert!(matches!(cmds[2], FrameCommand::Blit { src: FrameImage::Draw, dst: FrameImage::Swapchain, .. }));
}

#[test]
fn a_renderer_frame_clears_then_copies() {
    let cmds = frame_commands(Extent2D { width: 4, height: 4 }, Extent2D { width: 8, height: 8 });
    assert_eq!(cmds.len(), 6);
    assert_eq!(cmds[1], FrameCommand::ClearColor { image: FrameImage::Draw, layout: LAYOUT_GENERAL });
    match cmds[2] {
        FrameCommand::Transition { barrier, .. } => {
            assert_eq!(barrier.old_layout, LAYOUT_GENERAL);
            assert_eq!(barrier.new_layout, LAYOUT_TRANSFER_SRC_OPTIMAL);
        }
        _ => panic!("expected a transition"),
    }
}

#[test]
fn clear_pass_covers_the_target_with_16_by_16_groups() {
    let cmds = clear_pass_commands(Extent2D { width: 1024, height: 769 });
    assert_eq!(
        cmds,
        vec![
            FrameCommand::Transition {
                image: FrameImage::Draw,
                barrier: image_transition(LAYOUT_UNDEFINED, LAYOUT_GENERAL),
            },
            FrameCommand::BindPipeline { pipeline: PassPipeline::Clear },
            FrameCommand::BindImageDescriptor {
                image: FrameImage::Draw,
                first_set: 0,
                binding: 0,
                descriptor_type: DESCRIPTOR_TYPE_STORAGE_IMAGE,
                layout: LAYOUT_GENERAL,
            },
            FrameCommand::Dispatch { x: 64, y: 49, z: 1 },
        ]
    );
    let cmds = clear_pass_commands(Extent2D { width: 0, height: 1 });
    assert_eq!(cmds[3], FrameCommand::Dispatch { x: 0, y: 1, z: 1 });
}

#[test]
fn the_triangle_pass_draws_over_the_whole_target() {
    let extent = Extent2D { width: 1024, height: 768 };
    let cmds = triangle_pass_commands(extent);
    assert_eq!(
        cmds,
        vec![
            FrameCommand::Transition {
                image: FrameImage::Draw,
                barrier: image_transition(LAYOUT_GENERAL, LAYOUT_COLOR_ATTACHMENT_OPTIMAL),
            },
            FrameCommand::BeginRendering {
                image: FrameImage::Draw,
                area: extent,
                layer_count: 1,
                layout: LAYOUT_COLOR_ATTACHMENT_OPTIMAL,
                load_op: ATTACHMENT_LOAD_OP_LOAD,
                store_op: ATTACHMENT_STORE_OP_STORE,
            },
            FrameCommand::SetViewport { extent },
            FrameCommand::SetScissor { extent },
            FrameCommand::BindPipeline { pipeline: PassPipeline::Triangle },
            FrameCommand::DrawMeshTasks { x: 1, y: 1, z: 1 },
            FrameCommand::EndRendering,
        ]
    );
    match cmds[0] {
        FrameCommand::Transition { barrier, .. } => assert_eq!(barrier.aspect_mask, ASPECT_COLOR),
        _ => panic!("the pass starts with a transition"),
    }
}

#[test]
fn an_engine_frame_is_the_clear_pass_the_triangle_pass_and_the_end_of_frame() {
    let d = Extent2D { width: 640, height: 480 };
    let s = Extent2D { width: 1280, height: 720 };
    let cmds = engine_frame_commands(d, s);
    let mut expected = clear_pass_commands(d);
    expected.extend(triangle_pass_commands(d));
    expected.extend(end_frame_commands(d, s));
    assert_eq!(cmds, expected);
    assert_eq!(cmds.len(), 15);
    match cmds[14] {
        FrameCommand::Transition { image, barrier } => {
            assert_eq!(image, FrameImage::Swapchain);
            assert_eq!(barrier.new_layout, LAYOUT_PRESENT_SRC);
        }
        _ => panic!("the frame ends with a transition"),
    }
}
