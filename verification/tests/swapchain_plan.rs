use kx_engine::graphics::base::swapchain::{
    Extent2D, SurfaceCapabilities, SurfaceFormat, SwapchainBuilder, COLOR_SPACE_SRGB_NONLINEAR,
    FORMAT_B8G8R8A8_SRGB, IMAGE_USAGE_COLOR_ATTACHMENT, PRESENT_MODE_FIFO, PRESENT_MODE_MAILBOX,
};

fn caps(current: Extent2D) -> SurfaceCapabilities {
    SurfaceCapabilities {
        min_image_count: 2,
        max_image_count: 0,
        current_extent: current,
        min_image_extent: Extent2D { width: 100, height: 100 },
        max_image_extent: Extent2D { width: 2000, height: 1000 },
        current_transform: 1,
    }
}

const FREE: Extent2D = Extent2D { width: u32::MAX, height: u32::MAX };

fn fmt(format: i32, color_space: i32) -> SurfaceFormat {
    SurfaceFormat { format, color_space }
}

#[test]
fn defaults_pick_srgb_and_mailbox() {
    let formats = vec![fmt(44, 0), fmt(FORMAT_B8G8R8A8_SRGB, COLOR_SPACE_SRGB_NONLINEAR)];
    let plan = SwapchainBuilder::new().build(caps(FREE), &formats, &vec![PRESENT_MODE_FIFO, PRESENT_MODE_MAILBOX], 0, 0);
    assert_eq!(plan.surface_format, fmt(FORMAT_B8G8R8A8_SRGB, COLOR_SPACE_SRGB_NONLINEAR));
    assert_eq!(plan.present_mode, PRESENT_MODE_MAILBOX);
    assert_eq!(plan.extent, Extent2D { width: 256, height: 256 });
    assert_eq!(plan.image_count, 3);
    assert_eq!(plan.image_usage, IMAGE_USAGE_COLOR_ATTACHMENT);
    assert!(!plan.concurrent);
    assert!(plan.queue_family_indices.is_empty());
    assert!(!plan.destroy_old);
    assert_eq!(plan.image_array_layers, 1);
    assert_eq!(plan.pre_transform, 1);
    assert_eq!(plan.composite_alpha, 1);
    assert!(plan.clipped);
}

#[test]
fn missing_format_falls_back_to_the_first_and_fifo() {
    let formats = vec![fmt(44, 0), fmt(37, 0)];
    let plan = SwapchainBuilder::new().format(37, 5).build(caps(FREE), &formats, &vec![0], 0, 0);
    assert_eq!(plan.surface_format, fmt(44, 0));
    assert_eq!(plan.present_mode, PRESENT_MODE_FIFO);
    let plan = SwapchainBuilder::new().format(37, 0).build(caps(FREE), &formats, &vec![0], 0, 0);
    assert_eq!(plan.surface_format, fmt(37, 0));
}

#[test]
fn requested_present_mode_is_used_as_is() {
    let plan = SwapchainBuilder::new().present_mode(0).build(caps(FREE), &vec![fmt(1, 0)], &vec![PRESENT_MODE_MAILBOX], 0, 0);
    assert_eq!(plan.present_mode, 0);
}

#[test]
fn extent_follows_the_surface_or_is_clamped() {
    let current = Extent2D { width: 800, height: 600 };
    let b = SwapchainBuilder::new().size(1024, 768);
    assert_eq!(b.build(caps(current), &vec![fmt(1, 0)], &vec![], 0, 0).extent, current);
    let b = SwapchainBuilder::new().size(4096, 50);
    assert_eq!(b.build(caps(FREE), &vec![fmt(1, 0)], &vec![], 0, 0).extent, Extent2D { width: 2000, height: 100 });
}

#[test]
fn image_count_respects_the_maximum() {
    let mut c = caps(FREE);
    c.min_image_count = 3;
    c.max_image_count = 3;
    assert_eq!(SwapchainBuilder::new().build(c, &vec![fmt(1, 0)], &vec![], 0, 0).image_count, 3);
    c.max_image_count = 8;
    assert_eq!(SwapchainBuilder::new().build(c, &vec![fmt(1, 0)], &vec![], 0, 0).image_count, 4);
}

#[test]
fn distinct_families_share_images_and_old_swapchains_are_destroyed() {
    let plan = SwapchainBuilder::new()
        .image_usage(0x10 | 0x2)
        .old_swapchain(77)
        .build(caps(FREE), &vec![fmt(1, 0)], &vec![], 0, 2);
    assert!(plan.concurrent);
    assert_eq!(plan.queue_family_indices, vec![0, 2]);
    assert_eq!(plan.image_usage, 0x12);
    assert_eq!(plan.old_swapchain, 77);
    assert!(plan.destroy_old);
}

#[test]
fn the_plan_keeps_the_surface_transform_and_fixed_settings() {
    let mut c = caps(Extent2D { width: 640, height: 480 });
    c.current_transform = 4;
    let plan = SwapchainBuilder::new().build(c, &vec![fmt(44, 0)], &vec![], 1, 1);
    assert_eq!(plan.pre_transform, 4);
    assert_eq!(plan.image_array_layers, 1);
    assert_eq!(plan.composite_alpha, 1);
    assert!(plan.clipped);
}
