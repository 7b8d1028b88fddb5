//! The verified core of the kx engine: the decisions, plans and byte formats
//! behind its Vulkan renderer, separated from the calls into the driver.
pub mod graphics;
pub mod renderer;
