//! A software triangle rasterizer for the terminal: mesh storage, texture
//! sampling, the integer side of rasterization, and depth-ordered frame
//! composition, with their contracts proved.
pub mod color;
pub mod esc;
pub mod frame;
pub mod input;
pub mod model;
pub mod obj;
pub mod raster;
pub mod shading;
pub mod texture;
