//! Screenshot annotation: the stroke model, the pixel layout conversions, the
//! viewport mapping and the capture decisions of a screenshot editor.
pub mod geometry;
pub mod pixels;
pub mod render;
pub mod codec;
pub mod capture;
pub mod tools;
pub mod viewport;
pub mod window;
