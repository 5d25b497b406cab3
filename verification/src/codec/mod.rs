//! The decoders of framebuffer updates: for each encoding, how many bytes a
//! rectangle takes and what event it gives.

pub mod cursor;
pub mod raw;
pub mod rectangle;
pub mod tight;
pub mod trle;
pub mod zlib;
pub mod zrle;

pub use rectangle::RectHeader;
