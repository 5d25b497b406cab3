//! ZRLE: the tiles of the tiled run-length encoding, 64 pixels wide and
//! high, sent through the connection's one zlib stream for it.

use vstd::prelude::*;
use crate::codec::trle;
use crate::error::{VncError, VncErrorView};
use crate::events::{VncEvent, VncEventView};
use crate::protocol::pixel_format::PixelFormat;
use crate::protocol::rect::Rect;
use crate::wire::u32_at;

verus! {

/// The width and height of a tile.
pub const TILE: u16 = 64;

/// How many bytes the payload takes: four for the length of the
/// compressed data, and the compressed data. `Ok(None)` where the bytes
/// end before the length does.
pub open spec fn payload_length(rest: Seq<u8>) -> Option<int> {
    if rest.len() < 4 {
        None
    } else {
        Some(4 + u32_at(rest, 0))
    }
}

/// The events that the decompressed data of a rectangle gives: one for
/// each tile. Data that ends before the last tile does, data that goes on
/// after it, and data that no decompression gave are protocol errors.
pub open spec fn spec_decode(
    inflated: Option<Seq<u8>>,
    rect: Rect,
    client: PixelFormat,
    server: PixelFormat,
) -> Result<Seq<VncEventView>, VncErrorView> {
    match inflated {
        None => Err(VncErrorView::Protocol),
        Some(data) => match trle::spec_parse(data, rect, TILE as int, client, server) {
            Err(e) => Err(e),
            Ok(None) => Err(VncErrorView::Protocol),
            Ok(Some((events, next))) => if next == data.len() {
                Ok(events)
            } else {
                Err(VncErrorView::Protocol)
            },
        },
    }
}

/// Decompressed data that ends before the tiles of its rectangle do is a
/// protocol error.
pub proof fn lemma_short_data_is_refused(
    data: Seq<u8>,
    rect: Rect,
    client: PixelFormat,
    server: PixelFormat,
)
    requires
        trle::spec_parse(data, rect, TILE as int, client, server) == Ok::<
            Option<(Seq<VncEventView>, int)>,
            VncErrorView,
        >(None),
    ensures
        spec_decode(Some(data), rect, client, server) == Err::<Seq<VncEventView>, VncErrorView>(
            VncErrorView::Protocol,
        ),
{
}

/// Data that holds nothing at all is too short for a rectangle that has
/// pixels, whatever its tiles are.
pub proof fn lemma_empty_data_is_refused(rect: Rect, client: PixelFormat, server: PixelFormat)
    requires
        rect.width > 0,
        rect.height > 0,
        rect.x + rect.width <= 0xffff,
        rect.y + rect.height <= 0xffff,
        1 <= server.spec_bytes_per_pixel() <= 4,
    ensures
        spec_decode(Some(Seq::empty()), rect, client, server) == Err::<
            Seq<VncEventView>,
            VncErrorView,
        >(VncErrorView::Protocol),
{
}

/// The most that the tiles of a rectangle can take before compression:
/// five bytes for each pixel and 520 for each tile, as far as the machine
/// can count.
pub open spec fn spec_limit(rect: Rect) -> usize {
    let most = ((rect.width + 63) / 64) * ((rect.height + 63) / 64) * 520 + rect.width
        * rect.height * 5;
    if most > usize::MAX {
        usize::MAX
    } else {
        most as usize
    }
}

/// The most that the tiles of a rectangle can take before compression.
pub fn limit(rect: &Rect) -> (most: usize)
    ensures
        most == spec_limit(*rect),
{
    let columns: u64 = (rect.width as u64 + 63) / 64;
    let rows: u64 = (rect.height as u64 + 63) / 64;
    proof {
        crate::codec::raw::lemma_product_bound(columns as int, rows as int, 1024, 1024);
        crate::codec::raw::lemma_product_bound(
            rect.width as int,
            rect.height as int,
            65535,
            65535,
        );
    }
    let most: u64 = columns * rows * 520 + rect.width as u64 * rect.height as u64 * 5;
    if most > usize::MAX as u64 {
        usize::MAX
    } else {
        most as usize
    }
}

/// Reads the tiles of a rectangle from its decompressed data.
pub fn decode(inflated: Option<&[u8]>, rect: &Rect, client: &PixelFormat, server: &PixelFormat)
    -> (res: Result<Vec<VncEvent>, VncError>)
    ensures
        crate::codec::rectangle::view_decoded(res) == spec_decode(
            crate::codec::rectangle::view_inflated(inflated),
            *rect,
            *client,
            *server,
        ),
{
    let data = match inflated {
        Some(data) => data,
        None => {
            return Err(VncError::Protocol);
        },
    };
    match trle::parse(data, rect, TILE, client, server) {
        Err(e) => Err(e),
        Ok(None) => Err(VncError::Protocol),
        Ok(Some((events, next))) => {
            if next == data.len() {
                Ok(events)
            } else {
                Err(VncError::Protocol)
            }
        },
    }
}

} // verus!
