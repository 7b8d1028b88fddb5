use ash::vk;
use kx_engine::graphics::base::command_buffer as cb;
use kx_engine::graphics::base::device as dev;
use kx_engine::graphics::base::swapchain as sc;
use kx_engine::graphics::frame::ERROR_OUT_OF_DATE;
use kx_engine::graphics::pass::clear::DESCRIPTOR_TYPE_STORAGE_IMAGE;
use kx_engine::graphics::pass::triangle::{ATTACHMENT_LOAD_OP_LOAD, ATTACHMENT_STORE_OP_STORE};

#[test]
fn layouts_match_vulkan() {
    assert_eq!(cb::LAYOUT_UNDEFINED, vk::ImageLayout::UNDEFINED.as_raw());
    assert_eq!(cb::LAYOUT_GENERAL, vk::ImageLayout::GENERAL.as_raw());
    assert_eq!(cb::LAYOUT_COLOR_ATTACHMENT_OPTIMAL, vk::ImageLayout::COLOR_ATTACHMENT_OPTIMAL.as_raw());
    assert_eq!(cb::LAYOUT_DEPTH_STENCIL_ATTACHMENT_OPTIMAL, vk::ImageLayout::DEPTH_STENCIL_ATTACHMENT_OPTIMAL.as_raw());
    assert_eq!(cb::LAYOUT_TRANSFER_SRC_OPTIMAL, vk::ImageLayout::TRANSFER_SRC_OPTIMAL.as_raw());
    assert_eq!(cb::LAYOUT_TRANSFER_DST_OPTIMAL, vk::ImageLayout::TRANSFER_DST_OPTIMAL.as_raw());
    assert_eq!(cb::LAYOUT_PRESENT_SRC, vk::ImageLayout::PRESENT_SRC_KHR.as_raw());
    assert_eq!(cb::LAYOUT_DEPTH_ATTACHMENT_OPTIMAL, vk::ImageLayout::DEPTH_ATTACHMENT_OPTIMAL.as_raw());
}

#[test]
fn flags_match_vulkan() {
    assert_eq!(cb::ASPECT_COLOR, vk::ImageAspectFlags::COLOR.as_raw());
    assert_eq!(cb::ASPECT_DEPTH, vk::ImageAspectFlags::DEPTH.as_raw());
    assert_eq!(cb::STAGE_ALL_COMMANDS, vk::PipelineStageFlags2::ALL_COMMANDS.as_raw());
    assert_eq!(cb::ACCESS_MEMORY_READ, vk::AccessFlags2::MEMORY_READ.as_raw());
    assert_eq!(cb::ACCESS_MEMORY_WRITE, vk::AccessFlags2::MEMORY_WRITE.as_raw());
    assert_eq!(cb::QUEUE_FAMILY_IGNORED, vk::QUEUE_FAMILY_IGNORED);
    assert_eq!(cb::REMAINING_MIP_LEVELS, vk::REMAINING_MIP_LEVELS);
    assert_eq!(cb::REMAINING_ARRAY_LAYERS, vk::REMAINING_ARRAY_LAYERS);
    assert_eq!(cb::FORMAT_D32_SFLOAT, vk::Format::D32_SFLOAT.as_raw());
    assert_eq!(cb::FILTER_LINEAR, vk::Filter::LINEAR.as_raw());
    assert_eq!(dev::VK_TRUE, vk::TRUE);
    assert_eq!(dev::QUEUE_GRAPHICS_BIT, vk::QueueFlags::GRAPHICS.as_raw());
    assert_eq!(dev::PHYSICAL_DEVICE_TYPE_DISCRETE_GPU, vk::PhysicalDeviceType::DISCRETE_GPU.as_raw());
}

#[test]
fn swapchain_values_match_vulkan() {
    assert_eq!(sc::FORMAT_B8G8R8A8_SRGB, vk::Format::B8G8R8A8_SRGB.as_raw());
    assert_eq!(sc::COLOR_SPACE_SRGB_NONLINEAR, vk::ColorSpaceKHR::SRGB_NONLINEAR.as_raw());
    assert_eq!(sc::PRESENT_MODE_MAILBOX, vk::PresentModeKHR::MAILBOX.as_raw());
    assert_eq!(sc::PRESENT_MODE_FIFO, vk::PresentModeKHR::FIFO.as_raw());
    assert_eq!(sc::IMAGE_USAGE_COLOR_ATTACHMENT, vk::ImageUsageFlags::COLOR_ATTACHMENT.as_raw());
    assert_eq!(sc::COMPOSITE_ALPHA_OPAQUE, vk::CompositeAlphaFlagsKHR::OPAQUE.as_raw());
    assert_eq!(ERROR_OUT_OF_DATE, vk::Result::ERROR_OUT_OF_DATE_KHR.as_raw());
    assert_eq!(DESCRIPTOR_TYPE_STORAGE_IMAGE, vk::DescriptorType::STORAGE_IMAGE.as_raw());
    assert_eq!(ATTACHMENT_LOAD_OP_LOAD, vk::AttachmentLoadOp::LOAD.as_raw());
    assert_eq!(ATTACHMENT_STORE_OP_STORE, vk::AttachmentStoreOp::STORE.as_raw());
}
