pub mod words;
pub mod shader;
pub mod pipeline;
pub mod device;
pub mod swapchain;
pub mod instance;
pub mod command_buffer;
