//! In-memory pixel-buffer transforms for screenshot post-processing:
//! rectangular cropping of a frame and an experimental corner-rounding
//! filter that masks the four corners to an approximate quarter circle.

pub mod buffer;
pub mod corners;
pub mod crop;
