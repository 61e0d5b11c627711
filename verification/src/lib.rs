pub mod cell;
pub mod config;
pub mod entropy;
pub mod grid;
pub mod patterns;
pub mod rle;
pub mod sizer;
pub mod universe;
