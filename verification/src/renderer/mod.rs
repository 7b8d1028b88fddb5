pub mod context;
pub mod frame;
