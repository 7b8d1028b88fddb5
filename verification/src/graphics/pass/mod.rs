pub mod clear;
pub mod triangle;
