//! What crosses the boundary of the library: the events that a live client
//! hands to its caller, and the input that the caller hands to it.

use vstd::prelude::*;
use crate::protocol::pixel_format::PixelFormat;
use crate::protocol::rect::{Rect, Screen};

verus! {

/// Something that the server made known, for the caller to act on.
#[derive(Debug, Clone, PartialEq, Eq)]
pub enum VncEvent {
    /// The framebuffer has this size.
    SetResolution(Screen),
    /// Pixels come in this format.
    SetPixelFormat(PixelFormat),
    /// The pixels of a rectangle, row by row, in the client's format.
    RawImage(Rect, Vec<u8>),
    /// A JPEG image that covers a rectangle.
    JpegImage(Rect, Vec<u8>),
    /// The first rectangle takes the pixels that the second now shows.
    Copy(Rect, Rect),
    /// The shape of the cursor: its size in the rectangle's width and
    /// height, its hotspot in the rectangle's `x` and `y`, and its pixels,
    /// four bytes each with the last one telling whether the pixel shows.
    SetCursor(Rect, Vec<u8>),
    /// The server rang its bell.
    Bell,
    /// The server's clipboard holds this text.
    Text(String),
}

/// The mathematical value of a [`VncEvent`].
pub enum VncEventView {
    SetResolution(Screen),
    SetPixelFormat(PixelFormat),
    RawImage(Rect, Seq<u8>),
    JpegImage(Rect, Seq<u8>),
    Copy(Rect, Rect),
    SetCursor(Rect, Seq<u8>),
    Bell,
    Text(Seq<char>),
}

impl View for VncEvent {
    type V = VncEventView;

    open spec fn view(&self) -> VncEventView {
        match *self {
            VncEvent::SetResolution(screen) => VncEventView::SetResolution(screen),
            VncEvent::SetPixelFormat(format) => VncEventView::SetPixelFormat(format),
            VncEvent::RawImage(rect, pixels) => VncEventView::RawImage(rect, pixels@),
            VncEvent::JpegImage(rect, data) => VncEventView::JpegImage(rect, data@),
            VncEvent::Copy(to, from) => VncEventView::Copy(to, from),
            VncEvent::SetCursor(rect, pixels) => VncEventView::SetCursor(rect, pixels@),
            VncEvent::Bell => VncEventView::Bell,
            VncEvent::Text(text) => VncEventView::Text(text@),
        }
    }
}

impl VncEventView {
    /// The part of the framebuffer that the event paints, if it paints one.
    pub open spec fn painted(self) -> Option<Rect> {
        match self {
            VncEventView::RawImage(rect, _) => Some(rect),
            VncEventView::JpegImage(rect, _) => Some(rect),
            VncEventView::Copy(rect, _) => Some(rect),
            _ => None,
        }
    }

    /// Whether an event that carries the pixels of a rectangle carries as
    /// many as the rectangle has: an image in the given format, the shape
    /// of a cursor in four bytes for each pixel.
    pub open spec fn holds_its_pixels(self, format: PixelFormat) -> bool {
        match self {
            VncEventView::RawImage(rect, pixels) => pixels.len() == rect.width * rect.height
                * format.spec_bytes_per_pixel(),
            VncEventView::SetCursor(rect, pixels) => pixels.len() == 4 * (rect.width
                * rect.height),
            _ => true,
        }
    }

    /// Whether the event paints nothing outside the given rectangle.
    pub open spec fn paints_within(self, outer: Rect) -> bool {
        match self.painted() {
            Some(rect) => rect.within(outer),
            None => true,
        }
    }
}

/// The mathematical value of a list of events.
pub open spec fn view_events(events: Seq<VncEvent>) -> Seq<VncEventView> {
    Seq::new(events.len(), |i: int| events[i]@)
}

/// Something that the caller wants the server to know.
#[derive(Debug, Clone, PartialEq, Eq)]
pub enum X11Event {
    /// Ask the server for what changed on the screen.
    Refresh,
    /// A key went down or up. `keysym` names the key as X11 does.
    KeyEvent { keysym: u32, down: bool },
    /// The pointer is at `x`, `y`, with the buttons of `buttons` held:
    /// 1 is the left button, 2 the middle, 4 the right, 8 the wheel turned
    /// up and 16 the wheel turned down.
    PointerEvent { x: u16, y: u16, buttons: u8 },
    /// The client's clipboard holds this text.
    CutText(String),
}

impl X11Event {
    /// The two inputs that make one notch of the wheel at `x`, `y`: the
    /// pointer with the button of the wheel held, 8 for a turn up and 16
    /// for a turn down, and the pointer with no button held right after.
    pub fn wheel(x: u16, y: u16, up: bool) -> (turn: (X11Event, X11Event))
        ensures
            turn.0@ == (X11EventView::PointerEvent {
                x,
                y,
                buttons: if up {
                    8u8
                } else {
                    16u8
                },
            }),
            turn.1@ == (X11EventView::PointerEvent { x, y, buttons: 0 }),
    {
        let held: u8 = if up {
            8
        } else {
            16
        };
        (
            X11Event::PointerEvent { x, y, buttons: held },
            X11Event::PointerEvent { x, y, buttons: 0 },
        )
    }
}

/// The mathematical value of an [`X11Event`].
pub enum X11EventView {
    Refresh,
    KeyEvent { keysym: u32, down: bool },
    PointerEvent { x: u16, y: u16, buttons: u8 },
    CutText(Seq<char>),
}

impl View for X11Event {
    type V = X11EventView;

    open spec fn view(&self) -> X11EventView {
        match *self {
            X11Event::Refresh => X11EventView::Refresh,
            X11Event::KeyEvent { keysym, down } => X11EventView::KeyEvent { keysym, down },
            X11Event::PointerEvent { x, y, buttons } => X11EventView::PointerEvent {
                x,
                y,
                buttons,
            },
            X11Event::CutText(text) => X11EventView::CutText(text@),
        }
    }
}

} // verus!
