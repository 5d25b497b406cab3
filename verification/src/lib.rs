//! A client-side core for the Remote Framebuffer (RFB) protocol.
//!
//! The library never touches a socket. Each stage of a connection is a
//! function from the bytes a server sent to the bytes the client answers
//! with, so that a driver only has to move bytes between the two.

pub mod client;
pub mod codec;
pub mod error;
pub mod events;
pub mod protocol;
pub mod wire;

pub use client::{Credentials, VncClient, VncConnector, VncState};
pub use error::{VncError, VncErrorView};
pub use events::{VncEvent, X11Event};
pub use protocol::{PixelFormat, Rect, Screen, VncEncoding, VncVersion};
