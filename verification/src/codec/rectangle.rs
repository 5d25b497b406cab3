//! One rectangle of a framebuffer update: its header, the length of its
//! payload and the event that it gives.

use vstd::prelude::*;
use crate::codec::{cursor, raw, tight, trle, zrle};
use crate::error::{VncError, VncErrorView};
use crate::events::{view_events, VncEvent, VncEventView};
use crate::protocol::encoding::VncEncoding;
use crate::protocol::messages::{read_rect, rect_at};
use crate::protocol::pixel_format::PixelFormat;
use crate::protocol::rect::{Rect, Screen};
use crate::wire::{as_signed, u16_at, u32_at};

verus! {

/// The header of a rectangle: where it lies and how its payload is encoded.
/// On the wire it takes twelve bytes.
#[derive(Debug, Clone, Copy, PartialEq, Eq, Structural)]
pub struct RectHeader {
    pub rect: Rect,
    pub encoding: i32,
}

impl RectHeader {
    /// The header that twelve bytes at offset `at` spell.
    pub open spec fn at(bytes: Seq<u8>, at: int) -> RectHeader {
        RectHeader { rect: rect_at(bytes, at), encoding: as_signed(u32_at(bytes, at + 8)) as i32 }
    }

    /// Reads the header that twelve bytes at offset `at` spell. Fails with
    /// `Io` where the bytes end before the header does.
    pub fn read(bytes: &[u8], at: usize) -> (res: Result<RectHeader, VncError>)
        ensures
            at + 12 <= bytes@.len() ==> res == Ok::<RectHeader, VncError>(
                RectHeader::at(bytes@, at as int),
            ),
            at + 12 > bytes@.len() ==> res == Err::<RectHeader, VncError>(VncError::Io),
    {
        let total = bytes.len();
        if total < 12 || at > total - 12 {
            return Err(VncError::Io);
        }
        let rect = read_rect(bytes, at);
        let word = bytes[at + 8] as u32 * 16777216 + bytes[at + 9] as u32 * 65536 + bytes[at
            + 10] as u32 * 256 + bytes[at + 11] as u32;
        Ok(RectHeader { rect, encoding: crate::wire::to_signed(word) })
    }
}

/// The width and height of the tiles of the tiled run-length encoding.
pub const TRLE_TILE: u16 = 16;

/// How many bytes the payload of a rectangle takes, as far as the bytes
/// after its header tell: `Ok(None)` where they end before the length is
/// known. For the tiled run-length encoding the tiles themselves tell, so
/// that this is where their errors show.
#[verifier::opaque]
pub open spec fn payload_length(
    encoding: VncEncoding,
    rect: Rect,
    client: PixelFormat,
    server: PixelFormat,
    rest: Seq<u8>,
) -> Result<Option<int>, VncErrorView> {
    match encoding {
        VncEncoding::Raw => Ok(Some(raw::raw_length(rect.width, rect.height, server))),
        VncEncoding::CopyRect => Ok(Some(4)),
        VncEncoding::Tight => tight::payload_length(rest, rect, server),
        VncEncoding::Trle => match trle::spec_parse(rest, rect, TRLE_TILE as int, client, server) {
            Err(e) => Err(e),
            Ok(None) => Ok(None),
            Ok(Some((_, next))) => Ok(Some(next)),
        },
        VncEncoding::Zrle => Ok(zrle::payload_length(rest)),
        VncEncoding::CursorPseudo => Ok(
            Some(cursor::cursor_length(rect.width, rect.height, server)),
        ),
        VncEncoding::DesktopSizePseudo => Ok(Some(0)),
        VncEncoding::LastRectPseudo => Ok(Some(0)),
    }
}

/// What a rectangle asks of the zlib streams of the connection.
#[derive(Debug, Clone, Copy, PartialEq, Eq, Structural)]
pub struct Plan {
    /// The streams of the Tight encoding to put back to their start, one
    /// bit for each.
    pub resets: u8,
    /// Whether a part of the payload is to be decompressed.
    pub compressed: bool,
    /// The number of the stream to decompress it with.
    pub stream: u8,
    /// Where that part starts after the header, and how long it is.
    pub from: usize,
    pub len: usize,
    /// The most that it may give.
    pub limit: usize,
}

/// A plan that asks for no decompression.
pub open spec fn idle_plan(resets: u8) -> Plan {
    Plan { resets, compressed: false, stream: 0, from: 0, len: 0, limit: 0 }
}

/// What a rectangle asks of the zlib streams, given the bytes after its
/// header, which hold its whole payload. ZRLE sends everything after its
/// length through its own stream. The Tight encoding names the streams to
/// reset and, where its pixel data is compressed, the stream for it; that
/// data may not come to more than the layout tells.
pub open spec fn spec_plan(encoding: VncEncoding, rect: Rect, server: PixelFormat, rest: Seq<u8>)
    -> Plan {
    match encoding {
        VncEncoding::Zrle => match zrle::payload_length(rest) {
            Some(length) => if rest.len() < length {
                idle_plan(0)
            } else {
                Plan {
                    resets: 0,
                    compressed: true,
                    stream: crate::codec::zlib::ZRLE_STREAM,
                    from: 4,
                    len: (length - 4) as usize,
                    limit: zrle::spec_limit(rect),
                }
            },
            None => idle_plan(0),
        },
        VncEncoding::Tight => match tight::spec_layout(rest, rect, server) {
            Ok(Some(layout)) => if layout.compressed && layout.total() <= rest.len() {
                Plan {
                    resets: layout.resets,
                    compressed: true,
                    stream: layout.stream,
                    from: layout.data_at as usize,
                    len: layout.chunk_len as usize,
                    limit: layout.data_len as usize,
                }
            } else {
                idle_plan(layout.resets)
            },
            _ => idle_plan(0),
        },
        _ => idle_plan(0),
    }
}

/// The events that a rectangle gives. `rest` holds the bytes after the
/// header, at least as many as `payload_length` says, and `inflated` what
/// the zlib stream gave for the part of them that `spec_plan` names, if it
/// names one and the stream took it. Fewer bytes than the payload takes
/// are an error.
#[verifier::opaque]
pub open spec fn spec_decode(
    encoding: VncEncoding,
    rect: Rect,
    client: PixelFormat,
    server: PixelFormat,
    rest: Seq<u8>,
    inflated: Option<Seq<u8>>,
) -> Result<Seq<VncEventView>, VncErrorView> {
    match encoding {
        VncEncoding::Raw => if rest.len() < raw::raw_length(rect.width, rect.height, server) {
            Err(VncErrorView::Protocol)
        } else {
            match raw::spec_translate_pixels(
                client,
                server,
                rest.subrange(0, raw::raw_length(rect.width, rect.height, server)),
            ) {
                Ok(pixels) => Ok(seq![VncEventView::RawImage(rect, pixels)]),
                Err(e) => Err(e),
            }
        },
        VncEncoding::CopyRect => if rest.len() < 4 {
            Err(VncErrorView::Protocol)
        } else {
            Ok(
                seq![
                    VncEventView::Copy(
                        rect,
                        Rect {
                            x: u16_at(rest, 0) as u16,
                            y: u16_at(rest, 2) as u16,
                            width: rect.width,
                            height: rect.height,
                        },
                    ),
                ],
            )
        },
        VncEncoding::Tight => tight::spec_decode(rect, client, server, rest, inflated),
        VncEncoding::Trle => match trle::spec_parse(rest, rect, TRLE_TILE as int, client, server) {
            Err(e) => Err(e),
            Ok(None) => Err(VncErrorView::Protocol),
            Ok(Some((events, _))) => Ok(events),
        },
        VncEncoding::Zrle => zrle::spec_decode(inflated, rect, client, server),
        VncEncoding::CursorPseudo => if rest.len() < cursor::cursor_length(
            rect.width,
            rect.height,
            server,
        ) {
            Err(VncErrorView::Protocol)
        } else {
            match cursor::spec_decode(
                client,
                server,
                rect.width,
                rect.height,
                rest.subrange(0, cursor::cursor_length(rect.width, rect.height, server)),
            ) {
                Ok(pixels) => Ok(seq![VncEventView::SetCursor(rect, pixels)]),
                Err(e) => Err(e),
            }
        },
        VncEncoding::DesktopSizePseudo => Ok(
            seq![
                VncEventView::SetResolution(Screen { width: rect.width, height: rect.height }),
            ],
        ),
        VncEncoding::LastRectPseudo => Ok(Seq::empty()),
    }
}

/// The mathematical value of what decoding a rectangle gives.
pub open spec fn view_decoded(res: Result<Vec<VncEvent>, VncError>) -> Result<
    Seq<VncEventView>,
    VncErrorView,
> {
    match res {
        Ok(events) => Ok(view_events(events@)),
        Err(e) => Err(e@),
    }
}

/// The mathematical value of what a zlib stream gave.
pub open spec fn view_inflated(inflated: Option<&[u8]>) -> Option<Seq<u8>> {
    match inflated {
        Some(data) => Some(data@),
        None => None,
    }
}

/// How many bytes the payload of a rectangle takes, as far as `rest` tells.
pub fn measure(
    encoding: VncEncoding,
    rect: &Rect,
    client: &PixelFormat,
    server: &PixelFormat,
    rest: &[u8],
) -> (res: Result<Option<u64>, VncError>)
    ensures
        match payload_length(encoding, *rect, *client, *server, rest@) {
            Ok(Some(n)) => res matches Ok(Some(m)) && m == n,
            Ok(None) => res matches Ok(None),
            Err(e) => res matches Err(f) && f@ == e,
        },
{
    reveal(payload_length);
    match encoding {
        VncEncoding::Raw => Ok(Some(raw::measure(rect.width, rect.height, server))),
        VncEncoding::CopyRect => Ok(Some(4)),
        VncEncoding::Tight => match tight::read_layout(rest, rect, server) {
            Err(e) => Err(e),
            Ok(None) => Ok(None),
            Ok(Some(layout)) => Ok(Some(layout.data_at + layout.chunk_len)),
        },
        VncEncoding::Trle => match trle::parse(rest, rect, TRLE_TILE, client, server) {
            Err(e) => Err(e),
            Ok(None) => Ok(None),
            Ok(Some((_, next))) => Ok(Some(next as u64)),
        },
        VncEncoding::Zrle => match crate::wire::read_u32(rest, 0) {
            Ok(length) => Ok(Some(4 + length as u64)),
            Err(e) => Ok(None),
        },
        VncEncoding::CursorPseudo => Ok(Some(cursor::measure(rect.width, rect.height, server))),
        VncEncoding::DesktopSizePseudo => Ok(Some(0)),
        VncEncoding::LastRectPseudo => Ok(Some(0)),
    }
}

/// What a rectangle asks of the zlib streams of the connection.
pub fn plan(encoding: VncEncoding, rect: &Rect, server: &PixelFormat, rest: &[u8]) -> (plan: Plan)
    ensures
        plan == spec_plan(encoding, *rect, *server, rest@),
        plan.compressed ==> plan.from + plan.len <= rest@.len(),
{
    let idle = Plan { resets: 0, compressed: false, stream: 0, from: 0, len: 0, limit: 0 };
    match encoding {
        VncEncoding::Zrle => match crate::wire::read_u32(rest, 0) {
            Ok(length) => {
                if ((rest.len() - 4) as u64) < length as u64 {
                    idle
                } else {
                    Plan {
                        resets: 0,
                        compressed: true,
                        stream: crate::codec::zlib::ZRLE_STREAM,
                        from: 4,
                        len: length as usize,
                        limit: zrle::limit(rect),
                    }
                }
            },
            Err(e) => idle,
        },
        VncEncoding::Tight => match tight::read_layout(rest, rect, server) {
            Ok(Some(layout)) => {
                if layout.compressed && layout.data_at + layout.chunk_len <= rest.len() as u64 {
                    Plan {
                        resets: layout.resets,
                        compressed: true,
                        stream: layout.stream,
                        from: layout.data_at as usize,
                        len: layout.chunk_len as usize,
                        limit: layout.data_len as usize,
                    }
                } else {
                    Plan {
                        resets: layout.resets,
                        compressed: false,
                        stream: 0,
                        from: 0,
                        len: 0,
                        limit: 0,
                    }
                }
            },
            _ => idle,
        },
        _ => idle,
    }
}

/// Decodes a rectangle from the bytes after its header and from what the
/// zlib stream gave for the compressed part of it, if there is one.
pub fn decode(
    encoding: VncEncoding,
    rect: &Rect,
    client: &PixelFormat,
    server: &PixelFormat,
    rest: &[u8],
    inflated: Option<&[u8]>,
) -> (res: Result<Vec<VncEvent>, VncError>)
    ensures
        view_decoded(res) == spec_decode(
            encoding,
            *rect,
            *client,
            *server,
            rest@,
            view_inflated(inflated),
        ),
{
    reveal(spec_decode);
    let mut events: Vec<VncEvent> = Vec::new();
    match encoding {
        VncEncoding::Raw => {
            let length = raw::measure(rect.width, rect.height, server);
            if (rest.len() as u64) < length {
                return Err(VncError::Protocol);
            }
            let payload = vstd::slice::slice_subrange(rest, 0, length as usize);
            match raw::translate_pixels(client, server, payload) {
                Ok(pixels) => {
                    events.push(VncEvent::RawImage(*rect, pixels));
                },
                Err(e) => {
                    return Err(e);
                },
            }
        },
        VncEncoding::CopyRect => {
            if rest.len() < 4 {
                return Err(VncError::Protocol);
            }
            let from = Rect {
                x: rest[0] as u16 * 256 + rest[1] as u16,
                y: rest[2] as u16 * 256 + rest[3] as u16,
                width: rect.width,
                height: rect.height,
            };
            events.push(VncEvent::Copy(*rect, from));
        },
        VncEncoding::Tight => {
            return tight::decode(rect, client, server, rest, inflated);
        },
        VncEncoding::Trle => {
            return match trle::parse(rest, rect, TRLE_TILE, client, server) {
                Err(e) => Err(e),
                Ok(None) => Err(VncError::Protocol),
                Ok(Some((events, _))) => Ok(events),
            };
        },
        VncEncoding::Zrle => {
            return zrle::decode(inflated, rect, client, server);
        },
        VncEncoding::CursorPseudo => {
            let length = cursor::measure(rect.width, rect.height, server);
            if (rest.len() as u64) < length {
                return Err(VncError::Protocol);
            }
            let payload = vstd::slice::slice_subrange(rest, 0, length as usize);
            match cursor::decode(client, server, rect.width, rect.height, payload) {
                Ok(pixels) => {
                    events.push(VncEvent::SetCursor(*rect, pixels));
                },
                Err(e) => {
                    return Err(e);
                },
            }
        },
        VncEncoding::DesktopSizePseudo => {
            events.push(
                VncEvent::SetResolution(Screen { width: rect.width, height: rect.height }),
            );
        },
        VncEncoding::LastRectPseudo => {},
    }
    assert(view_events(events@) =~= spec_decode(
        encoding,
        *rect,
        *client,
        *server,
        rest@,
        view_inflated(inflated),
    )->Ok_0);
    Ok(events)
}

/// Where the bytes after the header hold the payload of a rectangle of
/// tiles, the rectangle gives its events: what tells the length of the
/// tiles is what reads them.
pub proof fn lemma_measured_tiles_decode(
    rect: Rect,
    client: PixelFormat,
    server: PixelFormat,
    rest: Seq<u8>,
    inflated: Option<Seq<u8>>,
)
    requires
        payload_length(VncEncoding::Trle, rect, client, server, rest) matches Ok(Some(_)),
    ensures
        spec_decode(VncEncoding::Trle, rect, client, server, rest, inflated) is Ok,
{
    reveal(payload_length);
    reveal(spec_decode);
}

} // verus!
