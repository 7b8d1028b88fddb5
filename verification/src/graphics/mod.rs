pub mod base;
pub mod frame;
pub mod pass;
