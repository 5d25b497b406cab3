pub mod encoding;
pub mod messages;
pub mod pixel_format;
pub mod rect;
pub mod security;
pub mod version;

pub use encoding::VncEncoding;
pub use messages::{ClientMsg, ServerMsg};
pub use pixel_format::PixelFormat;
pub use rect::{Rect, Screen};
pub use version::VncVersion;
