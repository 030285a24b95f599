//! Operations on images.
pub mod cast;
pub mod resize;
