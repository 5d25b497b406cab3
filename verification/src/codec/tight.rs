//! The Tight encoding: a rectangle filled with one colour, sent as a JPEG
//! image, or sent as pixels that went through a filter and, where they
//! take twelve bytes or more, through one of four zlib streams.
//!
//! The pixels of this encoding are compact pixels: where a pixel of 32
//! bits holds three channels of eight bits each, they are sent as three
//! bytes, red, then green, then blue.

use vstd::prelude::*;
use crate::codec::raw;
use crate::codec::rectangle::{view_decoded, view_inflated};
use crate::codec::trle::{packed_index, palette_entry, repeat};
use crate::error::{VncError, VncErrorView};
use crate::events::{VncEvent, VncEventView};
use crate::protocol::pixel_format::{
    channel_of, channel_placed, pixel_value, value_bytes, PixelFormat,
};
use crate::protocol::rect::Rect;

verus! {

/// Whether pixels of the format are sent as three bytes.
pub open spec fn spec_is_compact(format: PixelFormat) -> bool {
    format.true_color_flag != 0 && format.bits_per_pixel == 32 && format.depth == 24
        && format.red_max == 255 && format.green_max == 255 && format.blue_max == 255
}

/// How many bytes a compact pixel takes.
pub open spec fn spec_unit(format: PixelFormat) -> int {
    if spec_is_compact(format) {
        3
    } else {
        format.spec_bytes_per_pixel()
    }
}

/// The pixel of the server's format that three channels make.
pub open spec fn spec_compose(format: PixelFormat, red: u32, green: u32, blue: u32) -> Seq<u8> {
    value_bytes(
        (channel_placed(red, format.red_shift) | channel_placed(green, format.green_shift)
            | channel_placed(blue, format.blue_shift)) as int,
        format.spec_bytes_per_pixel(),
        format.big_endian_flag != 0,
    )
}

/// The three channels of a compact pixel: red, green and blue.
pub open spec fn spec_channels(format: PixelFormat, pixel: Seq<u8>) -> (u32, u32, u32) {
    if spec_is_compact(format) {
        (pixel[0] as u32, pixel[1] as u32, pixel[2] as u32)
    } else {
        let value = pixel_value(pixel, format.big_endian_flag != 0) as u32;
        (
            channel_of(value, format.red_max, format.red_shift),
            channel_of(value, format.green_max, format.green_shift),
            channel_of(value, format.blue_max, format.blue_shift),
        )
    }
}

/// The largest value of each channel of a compact pixel.
pub open spec fn spec_maxes(format: PixelFormat) -> (u32, u32, u32) {
    if spec_is_compact(format) {
        (255, 255, 255)
    } else {
        (format.red_max as u32, format.green_max as u32, format.blue_max as u32)
    }
}

/// The pixel of the server's format that a compact pixel stands for.
pub open spec fn spec_pixel_of(format: PixelFormat, pixel: Seq<u8>) -> Seq<u8> {
    if spec_is_compact(format) {
        spec_compose(format, pixel[0] as u32, pixel[1] as u32, pixel[2] as u32)
    } else {
        pixel
    }
}

/// A length in the compact form of one to three bytes: seven bits in the
/// first byte, seven in the second and eight in the third, lowest first;
/// the top bit of the first and of the second byte says that another
/// byte follows. With the length comes the offset after it.
pub open spec fn compact_length(data: Seq<u8>, at: int) -> Option<(int, int)> {
    if at < 0 || at >= data.len() {
        None
    } else if data[at] < 128 {
        Some((data[at] as int, at + 1))
    } else if at + 1 >= data.len() {
        None
    } else if data[at + 1] < 128 {
        Some((data[at] - 128 + data[at + 1] * 128, at + 2))
    } else if at + 2 >= data.len() {
        None
    } else {
        Some((data[at] - 128 + (data[at + 1] - 128) * 128 + data[at + 2] * 16384, at + 3))
    }
}

/// How a rectangle is sent.
#[derive(Debug, Clone, Copy, PartialEq, Eq, Structural)]
pub enum Method {
    /// One compact pixel, which fills the rectangle.
    Fill,
    /// A JPEG image.
    Jpeg,
    /// The compact pixels of the rectangle, row by row.
    Plain,
    /// A palette of compact pixels, then an index for each pixel: one bit
    /// where the palette holds two colours at most, else one byte.
    Palette { colours: u16 },
    /// For each pixel, what each of its channels is above what its
    /// neighbours to the left and above let expect.
    Gradient,
}

/// Where the parts of a rectangle lie in its payload.
#[derive(Debug, Clone, Copy, PartialEq, Eq, Structural)]
pub struct Layout {
    /// The streams to put back to their start, one bit for each.
    pub resets: u8,
    /// The stream that the data went through, if it went through one.
    pub stream: u8,
    pub method: Method,
    /// The offset of the palette.
    pub palette_at: u64,
    /// The offset of the data: of the pixel that fills, of the image, or of
    /// the pixel data, compressed or not.
    pub data_at: u64,
    /// How many bytes the pixel data takes before compression.
    pub data_len: u64,
    /// Whether the pixel data went through a zlib stream.
    pub compressed: bool,
    /// How many bytes the data takes in the payload.
    pub chunk_len: u64,
}

impl Layout {
    /// How many bytes the payload takes.
    pub open spec fn total(self) -> int {
        self.data_at + self.chunk_len
    }

    /// What holds of every layout of a rectangle: its data is as long as
    /// its method asks for, data that did not go through a zlib stream
    /// takes its own length in the payload, and a palette lies before the
    /// data.
    pub open spec fn fits(self, rect: Rect, server: PixelFormat) -> bool {
        let unit = spec_unit(server);
        let area = rect.width as int * rect.height as int;
        &&& !self.compressed ==> self.chunk_len == self.data_len
        &&& self.data_at <= 0x1_0000
        &&& self.data_len <= 65535 * 65535 * 31
        &&& self.chunk_len <= 65535 * 65535 * 31
        &&& match self.method {
            Method::Fill => self.data_len == unit && !self.compressed,
            Method::Jpeg => !self.compressed,
            Method::Plain => self.data_len == area * unit,
            Method::Gradient => self.data_len == area * unit,
            Method::Palette { colours } => {
                &&& 1 <= colours <= 256
                &&& self.palette_at == 3
                &&& self.data_at >= 3 + colours * unit
                &&& self.data_len == index_length(
                    colours as int,
                    rect.width as int,
                    rect.height as int,
                )
            },
        }
    }
}

/// How many bytes the indices of a palette take: a bit for each pixel, in
/// rows of whole bytes, for two colours at most, else a byte for each pixel.
pub open spec fn index_length(colours: int, width: int, height: int) -> int {
    if colours <= 2 {
        ((width + 7) / 8) * height
    } else {
        width * height
    }
}

/// The layout of pixel data of `data_len` bytes that starts at offset
/// `at`: data of fewer than twelve bytes is sent as it is, and longer data
/// goes through a zlib stream, with its compressed length in front.
pub open spec fn data_layout(
    rest: Seq<u8>,
    at: int,
    resets: u8,
    stream: u8,
    method: Method,
    palette_at: int,
    data_len: int,
) -> Option<Layout> {
    if data_len < 12 {
        Some(
            Layout {
                resets,
                stream,
                method,
                palette_at: palette_at as u64,
                data_at: at as u64,
                data_len: data_len as u64,
                compressed: false,
                chunk_len: data_len as u64,
            },
        )
    } else {
        match compact_length(rest, at) {
            None => None,
            Some((length, next)) => Some(
                Layout {
                    resets,
                    stream,
                    method,
                    palette_at: palette_at as u64,
                    data_at: next as u64,
                    data_len: data_len as u64,
                    compressed: true,
                    chunk_len: length as u64,
                },
            ),
        }
    }
}

/// The layout of the payload of a rectangle, as far as the bytes after
/// the header tell: `Ok(None)` where they end before the layout is known.
/// The low four bits of the first byte name the streams to put back to
/// their start. The high four bits say how the rectangle is sent: 8 as a
/// fill, 9 as a JPEG image, and 0 to 7 as pixel data, where the two low
/// bits of them name the stream and the third says that a byte follows
/// which names the filter: 0 for plain pixels, 1 for a palette, 2 for the
/// gradient.
#[verifier::opaque]
pub open spec fn spec_layout(rest: Seq<u8>, rect: Rect, server: PixelFormat) -> Result<
    Option<Layout>,
    VncErrorView,
> {
    let unit = spec_unit(server);
    let area = rect.width as int * rect.height as int;
    if rest.len() < 1 {
        Ok(None)
    } else {
        let resets = rest[0] % 16;
        let kind = rest[0] / 16;
        let stream = kind % 4;
        if kind == 8 {
            Ok(
                Some(
                    Layout {
                        resets,
                        stream: 0,
                        method: Method::Fill,
                        palette_at: 1,
                        data_at: 1,
                        data_len: unit as u64,
                        compressed: false,
                        chunk_len: unit as u64,
                    },
                ),
            )
        } else if kind == 9 {
            match compact_length(rest, 1) {
                None => Ok(None),
                Some((length, next)) => Ok(
                    Some(
                        Layout {
                            resets,
                            stream: 0,
                            method: Method::Jpeg,
                            palette_at: next as u64,
                            data_at: next as u64,
                            data_len: length as u64,
                            compressed: false,
                            chunk_len: length as u64,
                        },
                    ),
                ),
            }
        } else if kind > 9 {
            Err(VncErrorView::Protocol)
        } else if kind < 4 {
            Ok(data_layout(rest, 1, resets, stream, Method::Plain, 1, area * unit))
        } else if rest.len() < 2 {
            Ok(None)
        } else if rest[1] == 0 {
            Ok(data_layout(rest, 2, resets, stream, Method::Plain, 2, area * unit))
        } else if rest[1] == 2 {
            Ok(data_layout(rest, 2, resets, stream, Method::Gradient, 2, area * unit))
        } else if rest[1] != 1 {
            Err(VncErrorView::Protocol)
        } else if rest.len() < 3 {
            Ok(None)
        } else {
            let colours = rest[2] + 1;
            Ok(
                data_layout(
                    rest,
                    3 + colours * unit,
                    resets,
                    stream,
                    Method::Palette { colours: colours as u16 },
                    3,
                    index_length(colours, rect.width as int, rect.height as int),
                ),
            )
        }
    }
}

/// How many bytes the payload of a rectangle takes, as far as the bytes
/// after the header tell.
pub open spec fn payload_length(rest: Seq<u8>, rect: Rect, server: PixelFormat) -> Result<
    Option<int>,
    VncErrorView,
> {
    match spec_layout(rest, rect, server) {
        Err(e) => Err(e),
        Ok(None) => Ok(None),
        Ok(Some(layout)) => Ok(Some(layout.total())),
    }
}

/// Compact pixels, each as a pixel of the server's format, in order.
pub open spec fn all_pixels(format: PixelFormat, data: Seq<u8>) -> Seq<u8>
    decreases data.len(),
{
    let unit = spec_unit(format);
    if unit <= 0 || data.len() < unit {
        Seq::empty()
    } else {
        all_pixels(format, data.subrange(0, data.len() - unit)) + spec_pixel_of(
            format,
            data.subrange(data.len() - unit, data.len() as int),
        )
    }
}

/// The index of pixel `k` in the indices of a palette.
pub open spec fn index_of(data: Seq<u8>, colours: int, width: int, k: int) -> u8 {
    if colours <= 2 {
        packed_index(data, 0, width, 1, k)
    } else {
        data[k]
    }
}

/// The pixels that the indices of a palette stand for, from pixel `k` on.
/// The palette lies at offset `palette_at` of `payload`. An index past the
/// palette is an error.
pub open spec fn indexed_pixels(
    format: PixelFormat,
    payload: Seq<u8>,
    palette_at: int,
    colours: int,
    data: Seq<u8>,
    width: int,
    k: int,
    out: Seq<u8>,
    count: int,
) -> Result<Seq<u8>, VncErrorView>
    decreases count - k,
{
    if k >= count {
        Ok(out)
    } else {
        let index = index_of(data, colours, width, k);
        if index >= colours {
            Err(VncErrorView::Protocol)
        } else {
            indexed_pixels(
                format,
                payload,
                palette_at,
                colours,
                data,
                width,
                k + 1,
                out + spec_pixel_of(
                    format,
                    palette_entry(payload, palette_at, spec_unit(format), index as int),
                ),
                count,
            )
        }
    }
}

/// A number kept between 0 and `max`.
pub open spec fn clamp(value: int, max: int) -> int {
    if value < 0 {
        0
    } else if value > max {
        max
    } else {
        value
    }
}

/// What the neighbours of pixel `k` let expect of its channel `c`: the
/// channel of the pixel to the left plus that of the pixel above less that
/// of the pixel above to the left, kept between 0 and `max`. A neighbour
/// outside the rectangle counts as 0. `channels` holds the three channels
/// of each pixel before `k`.
pub open spec fn predicted(channels: Seq<u32>, width: int, k: int, c: int, max: int) -> int {
    let left = if k % width > 0 {
        channels[3 * (k - 1) + c] as int
    } else {
        0
    };
    let above = if k >= width {
        channels[3 * (k - width) + c] as int
    } else {
        0
    };
    let corner = if k % width > 0 && k >= width {
        channels[3 * (k - width - 1) + c] as int
    } else {
        0
    };
    clamp(left + above - corner, max)
}

/// A channel of a pixel under the gradient filter: what was expected plus
/// what was sent, masked with the channel's largest value.
pub open spec fn corrected(expected: int, sent: u32, max: u32) -> u32 {
    ((expected + sent) as u32) & max
}

/// The pixels that data under the gradient filter stands for, from pixel
/// `k` on.
pub open spec fn gradient_pixels(
    format: PixelFormat,
    data: Seq<u8>,
    width: int,
    k: int,
    channels: Seq<u32>,
    out: Seq<u8>,
    count: int,
) -> Seq<u8>
    decreases count - k,
{
    if k >= count {
        out
    } else {
        let unit = spec_unit(format);
        let sent = spec_channels(format, data.subrange(k * unit, k * unit + unit));
        let maxes = spec_maxes(format);
        let red = corrected(predicted(channels, width, k, 0, maxes.0 as int), sent.0, maxes.0);
        let green = corrected(predicted(channels, width, k, 1, maxes.1 as int), sent.1, maxes.1);
        let blue = corrected(predicted(channels, width, k, 2, maxes.2 as int), sent.2, maxes.2);
        gradient_pixels(
            format,
            data,
            width,
            k + 1,
            channels + seq![red, green, blue],
            out + spec_compose(format, red, green, blue),
            count,
        )
    }
}

/// The pixel data of a rectangle: what the zlib stream gave where the data
/// went through one, which has to be as long as the layout says, and
/// else the data as it lies after the header.
pub open spec fn pixel_data(layout: Layout, payload: Seq<u8>, inflated: Option<Seq<u8>>) -> Result<
    Seq<u8>,
    VncErrorView,
> {
    if layout.compressed {
        match inflated {
            Some(data) => if data.len() == layout.data_len {
                Ok(data)
            } else {
                Err(VncErrorView::Protocol)
            },
            None => Err(VncErrorView::Protocol),
        }
    } else {
        Ok(payload.subrange(layout.data_at as int, layout.data_at + layout.data_len))
    }
}

/// The pixels of a rectangle in the server's format, from its pixel data.
/// For a JPEG image they are the image as it was sent.
pub open spec fn pixels_of(
    layout: Layout,
    rect: Rect,
    server: PixelFormat,
    payload: Seq<u8>,
    data: Seq<u8>,
) -> Result<Seq<u8>, VncErrorView> {
    let area = rect.width as int * rect.height as int;
    match layout.method {
        Method::Fill => Ok(repeat(spec_pixel_of(server, data), area)),
        Method::Jpeg => Ok(data),
        Method::Plain => Ok(all_pixels(server, data)),
        Method::Palette { colours } => indexed_pixels(
            server,
            payload,
            layout.palette_at as int,
            colours as int,
            data,
            rect.width as int,
            0,
            Seq::empty(),
            area,
        ),
        Method::Gradient => Ok(
            gradient_pixels(
                server,
                data,
                rect.width as int,
                0,
                Seq::empty(),
                Seq::empty(),
                area,
            ),
        ),
    }
}

/// The pixels of a rectangle in the server's format.
pub open spec fn spec_pixels(
    layout: Layout,
    rect: Rect,
    server: PixelFormat,
    payload: Seq<u8>,
    inflated: Option<Seq<u8>>,
) -> Result<Seq<u8>, VncErrorView> {
    match pixel_data(layout, payload, inflated) {
        Err(e) => Err(e),
        Ok(data) => pixels_of(layout, rect, server, payload, data),
    }
}

/// The event that a rectangle gives: a JPEG image as it was sent, or the
/// pixels of the rectangle in the client's format. `payload` holds the
/// bytes after the header, at least as many as `payload_length` says, and
/// `inflated` what the zlib stream gave for the compressed part, if there
/// is one. The server's pixels have to take one to four bytes each.
pub open spec fn spec_decode(
    rect: Rect,
    client: PixelFormat,
    server: PixelFormat,
    payload: Seq<u8>,
    inflated: Option<Seq<u8>>,
) -> Result<Seq<VncEventView>, VncErrorView> {
    let n = server.spec_bytes_per_pixel();
    match spec_layout(payload, rect, server) {
        Err(e) => Err(e),
        Ok(None) => Err(VncErrorView::Protocol),
        Ok(Some(layout)) => if n < 1 || n > 4 || payload.len() < layout.total() {
            Err(VncErrorView::Protocol)
        } else {
            match spec_pixels(layout, rect, server, payload, inflated) {
                Err(e) => Err(e),
                Ok(pixels) => if layout.method == Method::Jpeg {
                    Ok(seq![VncEventView::JpegImage(rect, pixels)])
                } else {
                    match raw::spec_translate_pixels(client, server, pixels) {
                        Err(e) => Err(e),
                        Ok(translated) => Ok(seq![VncEventView::RawImage(rect, translated)]),
                    }
                },
            }
        },
    }
}

/// The layout of a rectangle fits the rectangle.
pub proof fn lemma_layout_fits(rest: Seq<u8>, rect: Rect, server: PixelFormat)
    requires
        spec_layout(rest, rect, server) matches Ok(Some(_)),
    ensures
        spec_layout(rest, rect, server)->Ok_0->Some_0.fits(rect, server),
{
    reveal(spec_layout);
    let unit = spec_unit(server);
    let area = rect.width as int * rect.height as int;
    raw::lemma_product_bound(rect.width as int, rect.height as int, 65535, 65535);
    raw::lemma_product_bound(area, unit, 4294836225, 31);
    raw::lemma_product_bound((rect.width as int + 7) / 8, rect.height as int, 8192, 65535);
    if rest.len() >= 3 {
        raw::lemma_product_bound(rest[2] as int + 1, unit, 256, 31);
    }
}

/// Three channels make a pixel of the server's format.
pub proof fn lemma_compose_len(format: PixelFormat, red: u32, green: u32, blue: u32)
    ensures
        spec_compose(format, red, green, blue).len() == format.spec_bytes_per_pixel(),
{
    crate::protocol::pixel_format::lemma_value_bytes_len(
        (channel_placed(red, format.red_shift) | channel_placed(green, format.green_shift)
            | channel_placed(blue, format.blue_shift)) as int,
        format.spec_bytes_per_pixel(),
        format.big_endian_flag != 0,
    );
}

/// A compact pixel stands for a pixel of the server's format.
pub proof fn lemma_pixel_of_len(format: PixelFormat, pixel: Seq<u8>)
    requires
        pixel.len() == spec_unit(format),
    ensures
        spec_pixel_of(format, pixel).len() == format.spec_bytes_per_pixel(),
{
    if spec_is_compact(format) {
        lemma_compose_len(format, pixel[0] as u32, pixel[1] as u32, pixel[2] as u32);
    }
}

/// `count` compact pixels stand for `count` pixels.
pub proof fn lemma_all_pixels_len(format: PixelFormat, data: Seq<u8>, count: int)
    requires
        count >= 0,
        spec_unit(format) >= 1,
        data.len() == count * spec_unit(format),
    ensures
        all_pixels(format, data).len() == count * format.spec_bytes_per_pixel(),
    decreases count,
{
    let unit = spec_unit(format);
    raw::lemma_product_step(count, unit);
    raw::lemma_product_step(count, format.spec_bytes_per_pixel());
    if count > 0 {
        assert(count * unit >= unit) by (nonlinear_arith)
            requires
                count >= 1,
                unit >= 1,
        ;
        lemma_all_pixels_len(format, data.subrange(0, data.len() - unit), count - 1);
        lemma_pixel_of_len(format, data.subrange(data.len() - unit, data.len() as int));
    }
}

/// The indices of a palette, once they are read, stand for a pixel each.
pub proof fn lemma_indexed_pixels_len(
    format: PixelFormat,
    payload: Seq<u8>,
    palette_at: int,
    colours: int,
    data: Seq<u8>,
    width: int,
    k: int,
    out: Seq<u8>,
    count: int,
)
    requires
        0 <= k <= count,
        spec_unit(format) >= 1,
        0 <= palette_at,
        palette_at + colours * spec_unit(format) <= payload.len(),
        out.len() == k * format.spec_bytes_per_pixel(),
        indexed_pixels(format, payload, palette_at, colours, data, width, k, out, count) is Ok,
    ensures
        indexed_pixels(format, payload, palette_at, colours, data, width, k, out, count)->Ok_0.len()
            == count * format.spec_bytes_per_pixel(),
    decreases count - k,
{
    if k < count {
        let unit = spec_unit(format);
        let index = index_of(data, colours, width, k) as int;
        assert(0 <= index * unit && index * unit + unit <= colours * unit) by (nonlinear_arith)
            requires
                0 <= index,
                index + 1 <= colours,
                unit >= 1,
        ;
        let entry = palette_entry(payload, palette_at, unit, index);
        lemma_pixel_of_len(format, entry);
        raw::lemma_product_step(k, format.spec_bytes_per_pixel());
        lemma_indexed_pixels_len(
            format,
            payload,
            palette_at,
            colours,
            data,
            width,
            k + 1,
            out + spec_pixel_of(format, entry),
            count,
        );
    }
}

/// Data under the gradient filter stands for a pixel for each of its pixels.
pub proof fn lemma_gradient_pixels_len(
    format: PixelFormat,
    data: Seq<u8>,
    width: int,
    k: int,
    channels: Seq<u32>,
    out: Seq<u8>,
    count: int,
)
    requires
        0 <= k <= count,
        out.len() == k * format.spec_bytes_per_pixel(),
    ensures
        gradient_pixels(format, data, width, k, channels, out, count).len() == count
            * format.spec_bytes_per_pixel(),
    decreases count - k,
{
    if k < count {
        let unit = spec_unit(format);
        let sent = spec_channels(format, data.subrange(k * unit, k * unit + unit));
        let maxes = spec_maxes(format);
        let red = corrected(predicted(channels, width, k, 0, maxes.0 as int), sent.0, maxes.0);
        let green = corrected(predicted(channels, width, k, 1, maxes.1 as int), sent.1, maxes.1);
        let blue = corrected(predicted(channels, width, k, 2, maxes.2 as int), sent.2, maxes.2);
        lemma_compose_len(format, red, green, blue);
        raw::lemma_product_step(k, format.spec_bytes_per_pixel());
        lemma_gradient_pixels_len(
            format,
            data,
            width,
            k + 1,
            channels + seq![red, green, blue],
            out + spec_compose(format, red, green, blue),
            count,
        );
    }
}

/// A rectangle that is not a JPEG image gives one image, with a pixel of
/// the client's format for each of its pixels; a JPEG image gives itself.
pub proof fn lemma_rectangle_holds_its_pixels(
    rect: Rect,
    client: PixelFormat,
    server: PixelFormat,
    payload: Seq<u8>,
    inflated: Option<Seq<u8>>,
)
    requires
        spec_decode(rect, client, server, payload, inflated) is Ok,
    ensures
        ({
            let events = spec_decode(rect, client, server, payload, inflated)->Ok_0;
            &&& events.len() == 1
            &&& events[0].painted() == Some(rect)
            &&& events[0].holds_its_pixels(client)
        }),
{
    let layout = spec_layout(payload, rect, server)->Ok_0->Some_0;
    lemma_layout_fits(payload, rect, server);
    let n = server.spec_bytes_per_pixel();
    let unit = spec_unit(server);
    let area = rect.width as int * rect.height as int;
    raw::lemma_product_bound(rect.width as int, rect.height as int, 65535, 65535);
    let data = pixel_data(layout, payload, inflated)->Ok_0;
    let pixels = spec_pixels(layout, rect, server, payload, inflated)->Ok_0;
    match layout.method {
        Method::Jpeg => {},
        Method::Fill => {
            lemma_pixel_of_len(server, data);
            crate::codec::trle::lemma_repeat_len(spec_pixel_of(server, data), area);
            assert(area * n == pixels.len()) by (nonlinear_arith)
                requires
                    pixels.len() == area * spec_pixel_of(server, data).len(),
                    spec_pixel_of(server, data).len() == n,
            ;
        },
        Method::Plain => {
            lemma_all_pixels_len(server, data, area);
        },
        Method::Palette { colours } => {
            raw::lemma_product_step(0, n);
            lemma_indexed_pixels_len(
                server,
                payload,
                layout.palette_at as int,
                colours as int,
                data,
                rect.width as int,
                0,
                Seq::empty(),
                area,
            );
        },
        Method::Gradient => {
            raw::lemma_product_step(0, n);
            lemma_gradient_pixels_len(
                server,
                data,
                rect.width as int,
                0,
                Seq::empty(),
                Seq::empty(),
                area,
            );
        },
    }
    if layout.method != Method::Jpeg {
        raw::lemma_translate_all_len(client, server, pixels, area);
    }
}

/// Whether pixels of the format are sent as three bytes.
pub fn is_compact(format: &PixelFormat) -> (compact: bool)
    ensures
        compact == spec_is_compact(*format),
{
    format.true_color_flag != 0 && format.bits_per_pixel == 32 && format.depth == 24
        && format.red_max == 255 && format.green_max == 255 && format.blue_max == 255
}

/// How many bytes a compact pixel takes.
pub fn unit(format: &PixelFormat) -> (bytes: usize)
    ensures
        bytes == spec_unit(*format),
        bytes <= 31,
{
    if is_compact(format) {
        3
    } else {
        format.bytes_per_pixel()
    }
}

/// Reads a length in the compact form.
pub fn read_compact(data: &[u8], at: usize) -> (res: Option<(u32, usize)>)
    ensures
        match compact_length(data@, at as int) {
            Some((length, next)) => res matches Some((l, n)) && l == length && n == next,
            None => res is None,
        },
        res matches Some((l, n)) ==> l < 0x40_0000 && n <= at + 3,
{
    let end = data.len();
    if at >= end {
        return None;
    }
    let first = data[at] as u32;
    if first < 128 {
        return Some((first, at + 1));
    }
    if end - at < 2 {
        return None;
    }
    let second = data[at + 1] as u32;
    if second < 128 {
        return Some((first - 128 + second * 128, at + 2));
    }
    if end - at < 3 {
        return None;
    }
    let third = data[at + 2] as u32;
    Some((first - 128 + (second - 128) * 128 + third * 16384, at + 3))
}

/// The layout of pixel data of `data_len` bytes that starts at offset `at`.
fn read_data_layout(
    rest: &[u8],
    at: usize,
    resets: u8,
    stream: u8,
    method: Method,
    palette_at: usize,
    data_len: u64,
) -> (res: Option<Layout>)
    requires
        at <= 0x1_0000,
        palette_at <= 0x1_0000,
    ensures
        res == data_layout(
            rest@,
            at as int,
            resets,
            stream,
            method,
            palette_at as int,
            data_len as int,
        ),
{
    if data_len < 12 {
        Some(
            Layout {
                resets,
                stream,
                method,
                palette_at: palette_at as u64,
                data_at: at as u64,
                data_len,
                compressed: false,
                chunk_len: data_len,
            },
        )
    } else {
        match read_compact(rest, at) {
            None => None,
            Some((length, next)) => Some(
                Layout {
                    resets,
                    stream,
                    method,
                    palette_at: palette_at as u64,
                    data_at: next as u64,
                    data_len,
                    compressed: true,
                    chunk_len: length as u64,
                },
            ),
        }
    }
}

/// The layout of the payload of a rectangle, as far as `rest` tells.
pub fn read_layout(rest: &[u8], rect: &Rect, server: &PixelFormat) -> (res: Result<
    Option<Layout>,
    VncError,
>)
    ensures
        match spec_layout(rest@, *rect, *server) {
            Ok(layout) => res matches Ok(l) && l == layout,
            Err(e) => res matches Err(f) && f@ == e,
        },
        res matches Ok(Some(layout)) ==> layout.fits(*rect, *server),
{
    reveal(spec_layout);
    let unit = unit(server);
    proof {
        raw::lemma_product_bound(rect.width as int, rect.height as int, 65535, 65535);
    }
    let area: u64 = rect.width as u64 * rect.height as u64;
    proof {
        raw::lemma_product_bound(area as int, unit as int, 4294836225, 31);
    }
    if rest.len() < 1 {
        return Ok(None);
    }
    let resets = rest[0] % 16;
    let kind = rest[0] / 16;
    let stream = kind % 4;
    if kind == 8 {
        Ok(
            Some(
                Layout {
                    resets,
                    stream: 0,
                    method: Method::Fill,
                    palette_at: 1,
                    data_at: 1,
                    data_len: unit as u64,
                    compressed: false,
                    chunk_len: unit as u64,
                },
            ),
        )
    } else if kind == 9 {
        match read_compact(rest, 1) {
            None => Ok(None),
            Some((length, next)) => Ok(
                Some(
                    Layout {
                        resets,
                        stream: 0,
                        method: Method::Jpeg,
                        palette_at: next as u64,
                        data_at: next as u64,
                        data_len: length as u64,
                        compressed: false,
                        chunk_len: length as u64,
                    },
                ),
            ),
        }
    } else if kind > 9 {
        Err(VncError::Protocol)
    } else if kind < 4 {
        Ok(read_data_layout(rest, 1, resets, stream, Method::Plain, 1, area * unit as u64))
    } else if rest.len() < 2 {
        Ok(None)
    } else if rest[1] == 0 {
        Ok(read_data_layout(rest, 2, resets, stream, Method::Plain, 2, area * unit as u64))
    } else if rest[1] == 2 {
        Ok(read_data_layout(rest, 2, resets, stream, Method::Gradient, 2, area * unit as u64))
    } else if rest[1] != 1 {
        Err(VncError::Protocol)
    } else if rest.len() < 3 {
        Ok(None)
    } else {
        let colours: usize = rest[2] as usize + 1;
        proof {
            raw::lemma_product_bound(colours as int, unit as int, 256, 31);
            raw::lemma_product_bound(
                (rect.width as int + 7) / 8,
                rect.height as int,
                8192,
                65535,
            );
        }
        let indices: u64 = if colours <= 2 {
            ((rect.width as u64 + 7) / 8) * rect.height as u64
        } else {
            area
        };
        Ok(
            read_data_layout(
                rest,
                3 + colours * unit,
                resets,
                stream,
                Method::Palette { colours: colours as u16 },
                3,
                indices,
            ),
        )
    }
}

/// Appends the pixel of the server's format that three channels make.
fn push_composed(out: &mut Vec<u8>, format: &PixelFormat, red: u32, green: u32, blue: u32)
    ensures
        final(out)@ == old(out)@ + spec_compose(*format, red, green, blue),
{
    let value = crate::protocol::pixel_format::place(red, format.red_shift)
        | crate::protocol::pixel_format::place(green, format.green_shift)
        | crate::protocol::pixel_format::place(blue, format.blue_shift);
    crate::protocol::pixel_format::write_value(
        out,
        value,
        format.bytes_per_pixel(),
        format.big_endian_flag != 0,
    );
}

/// Appends the pixel of the server's format that the compact pixel at
/// offset `at` stands for.
fn push_pixel(out: &mut Vec<u8>, format: &PixelFormat, data: &[u8], at: usize)
    requires
        at + spec_unit(*format) <= data@.len(),
    ensures
        final(out)@ == old(out)@ + spec_pixel_of(
            *format,
            data@.subrange(at as int, at + spec_unit(*format)),
        ),
{
    let end = data.len();
    if is_compact(format) {
        push_composed(out, format, data[at] as u32, data[at + 1] as u32, data[at + 2] as u32);
    } else {
        let pixel = vstd::slice::slice_subrange(data, at, at + format.bytes_per_pixel());
        crate::wire::write_bytes(out, pixel);
    }
}

/// Compact pixels, each as a pixel of the server's format.
fn read_all_pixels(format: &PixelFormat, data: &[u8]) -> (out: Vec<u8>)
    requires
        spec_unit(*format) >= 1,
        data@.len() % (spec_unit(*format) as nat) == 0,
    ensures
        out@ == all_pixels(*format, data@),
{
    let unit = unit(format);
    let total = data.len();
    let mut out: Vec<u8> = Vec::new();
    let mut at: usize = 0;
    assert(data@.subrange(0, 0) =~= Seq::<u8>::empty());
    while at < total
        invariant
            at <= total,
            total == data@.len(),
            unit == spec_unit(*format),
            unit >= 1,
            total as int % unit as int == 0,
            at as int % unit as int == 0,
            out@ == all_pixels(*format, data@.subrange(0, at as int)),
        decreases total - at,
    {
        proof {
            raw::lemma_step_within(at as int, total as int, unit as int);
            let upto = data@.subrange(0, at + unit);
            assert(upto.subrange(0, upto.len() - unit) =~= data@.subrange(0, at as int));
            assert(upto.subrange(upto.len() - unit, upto.len() as int) =~= data@.subrange(
                at as int,
                at + unit,
            ));
        }
        push_pixel(&mut out, format, data, at);
        at += unit;
    }
    assert(data@.subrange(0, total as int) =~= data@);
    out
}

/// The three channels of the compact pixel at offset `at`.
fn read_channels(format: &PixelFormat, data: &[u8], at: usize) -> (channels: (u32, u32, u32))
    requires
        at + spec_unit(*format) <= data@.len(),
        spec_unit(*format) <= 4,
    ensures
        channels == spec_channels(*format, data@.subrange(at as int, at + spec_unit(*format))),
        channels.0 <= spec_maxes(*format).0,
        channels.1 <= spec_maxes(*format).1,
        channels.2 <= spec_maxes(*format).2,
{
    let end = data.len();
    if is_compact(format) {
        (data[at] as u32, data[at + 1] as u32, data[at + 2] as u32)
    } else {
        let pixel = vstd::slice::slice_subrange(data, at, at + format.bytes_per_pixel());
        let value = crate::protocol::pixel_format::read_value(pixel, format.big_endian_flag != 0);
        (
            crate::protocol::pixel_format::channel(value, format.red_max, format.red_shift),
            crate::protocol::pixel_format::channel(value, format.green_max, format.green_shift),
            crate::protocol::pixel_format::channel(value, format.blue_max, format.blue_shift),
        )
    }
}

/// The largest value of each channel of a compact pixel.
fn maxes(format: &PixelFormat) -> (most: (u32, u32, u32))
    ensures
        most == spec_maxes(*format),
        most.0 <= 0xffff && most.1 <= 0xffff && most.2 <= 0xffff,
{
    if is_compact(format) {
        (255, 255, 255)
    } else {
        (format.red_max as u32, format.green_max as u32, format.blue_max as u32)
    }
}

/// What the neighbours of pixel `k` let expect of its channel `c`.
fn predict(channels: &Vec<u32>, width: usize, k: usize, c: usize, max: u32) -> (expected: u32)
    requires
        channels@.len() == 3 * k,
        width >= 1,
        c < 3,
        max <= 0xffff,
        forall|i: int| 0 <= i < channels@.len() ==> channels@[i] <= 0xffff,
    ensures
        expected == predicted(channels@, width as int, k as int, c as int, max as int),
        expected <= max,
{
    let total = channels.len();
    proof {
        lemma_neighbours(k as int, width as int);
    }
    let left: i64 = if k % width > 0 {
        channels[3 * (k - 1) + c] as i64
    } else {
        0
    };
    let above: i64 = if k >= width {
        channels[3 * (k - width) + c] as i64
    } else {
        0
    };
    let corner: i64 = if k % width > 0 && k >= width {
        channels[3 * (k - width - 1) + c] as i64
    } else {
        0
    };
    let sum: i64 = left + above - corner;
    if sum < 0 {
        0
    } else if sum > max as i64 {
        max
    } else {
        sum as u32
    }
}

/// A pixel that is not the first of its row has one before it, and if it
/// is not in the first row either, one above that.
proof fn lemma_neighbours(k: int, width: int)
    requires
        0 <= k,
        1 <= width,
    ensures
        k % width > 0 ==> k >= 1,
        k % width > 0 && k >= width ==> k >= width + 1,
{
    vstd::arithmetic::div_mod::lemma_fundamental_div_mod(k, width);
    vstd::arithmetic::div_mod::lemma_mod_bound(k, width);
    let q = k / width;
    if k % width > 0 && k >= width {
        assert(q >= 1) by (nonlinear_arith)
            requires
                k == width * q + k % width,
                k % width < width,
                k >= width,
                width >= 1,
        ;
        assert(width * q >= width) by (nonlinear_arith)
            requires
                q >= 1,
                width >= 1,
        ;
    }
    if k == 0 {
        vstd::arithmetic::div_mod::lemma_small_mod(0, width as nat);
    }
}

/// Reads the pixels of data under the gradient filter.
fn read_gradient(format: &PixelFormat, data: &[u8], width: usize, count: usize) -> (out: Vec<u8>)
    requires
        1 <= spec_unit(*format) <= 4,
        data@.len() == count * spec_unit(*format),
        count > 0 ==> width >= 1,
    ensures
        out@ == gradient_pixels(
            *format,
            data@,
            width as int,
            0,
            Seq::empty(),
            Seq::empty(),
            count as int,
        ),
{
    let unit = unit(format);
    let most = maxes(format);
    let total = data.len();
    let mut channels: Vec<u32> = Vec::new();
    let mut out: Vec<u8> = Vec::new();
    let mut k: usize = 0;
    while k < count
        invariant
            k <= count,
            total == data@.len(),
            unit == spec_unit(*format),
            1 <= unit <= 4,
            most == spec_maxes(*format),
            most.0 <= 0xffff && most.1 <= 0xffff && most.2 <= 0xffff,
            data@.len() == count * unit,
            count > 0 ==> width >= 1,
            channels@.len() == 3 * k,
            forall|i: int| 0 <= i < channels@.len() ==> channels@[i] <= 0xffff,
            gradient_pixels(
                *format,
                data@,
                width as int,
                0,
                Seq::empty(),
                Seq::empty(),
                count as int,
            ) == gradient_pixels(
                *format,
                data@,
                width as int,
                k as int,
                channels@,
                out@,
                count as int,
            ),
        decreases count - k,
    {
        assert(k * unit + unit <= count * unit) by (nonlinear_arith)
            requires
                k + 1 <= count,
                unit >= 1,
        ;
        let sent = read_channels(format, data, k * unit);
        let red = correct(predict(&channels, width, k, 0, most.0), sent.0, most.0);
        let green = correct(predict(&channels, width, k, 1, most.1), sent.1, most.1);
        let blue = correct(predict(&channels, width, k, 2, most.2), sent.2, most.2);
        let ghost before = channels@;
        channels.push(red);
        channels.push(green);
        channels.push(blue);
        assert(channels@ =~= before + seq![red, green, blue]);
        push_composed(&mut out, format, red, green, blue);
        k += 1;
    }
    out
}

/// A channel of a pixel under the gradient filter.
fn correct(expected: u32, sent: u32, max: u32) -> (value: u32)
    requires
        expected <= 0xffff,
        sent <= 0xffff,
        max <= 0xffff,
    ensures
        value == corrected(expected as int, sent, max),
        value <= 0xffff,
{
    let sum: u32 = expected + sent;
    assert(sum & max <= 0xffff) by (bit_vector)
        requires
            max <= 0xffff,
    ;
    sum & max
}

/// Reads the pixels that the indices of a palette stand for.
fn read_indexed(
    format: &PixelFormat,
    payload: &[u8],
    palette_at: usize,
    colours: usize,
    data: &[u8],
    width: usize,
    height: usize,
) -> (res: Result<Vec<u8>, VncError>)
    requires
        1 <= colours <= 256,
        spec_unit(*format) >= 1,
        palette_at + colours * spec_unit(*format) <= payload@.len(),
        width <= 0xffff,
        height <= 0xffff,
        data@.len() == index_length(colours as int, width as int, height as int),
    ensures
        crate::error::view_result(res) == indexed_pixels(
            *format,
            payload@,
            palette_at as int,
            colours as int,
            data@,
            width as int,
            0,
            Seq::empty(),
            width * height,
        ),
{
    let unit = unit(format);
    proof {
        raw::lemma_product_bound(width as int, height as int, 65535, 65535);
    }
    let count: usize = width * height;
    let stride: usize = (width + 7) / 8;
    let total = data.len();
    let end = payload.len();
    let mut out: Vec<u8> = Vec::new();
    let mut k: usize = 0;
    while k < count
        invariant
            k <= count,
            total == data@.len(),
            end == payload@.len(),
            count == width * height,
            width <= 0xffff,
            height <= 0xffff,
            stride == (width + 7) / 8,
            unit == spec_unit(*format),
            unit >= 1,
            1 <= colours <= 256,
            palette_at + colours * unit <= payload@.len(),
            data@.len() == index_length(colours as int, width as int, height as int),
            indexed_pixels(
                *format,
                payload@,
                palette_at as int,
                colours as int,
                data@,
                width as int,
                0,
                Seq::empty(),
                count as int,
            ) == indexed_pixels(
                *format,
                payload@,
                palette_at as int,
                colours as int,
                data@,
                width as int,
                k as int,
                out@,
                count as int,
            ),
        decreases count - k,
    {
        assert(width >= 1) by (nonlinear_arith)
            requires
                k < width * height,
                0 <= k,
                0 <= width,
                0 <= height,
        ;
        let index: usize = if colours <= 2 {
            proof {
                lemma_bit_place(k as int, width as int, height as int);
            }
            let x = k % width;
            let byte = data[(k / width) * stride + x / 8];
            let shift: usize = 8 - (x % 8 + 1);
            ((byte >> (shift as u8)) & 1) as usize
        } else {
            data[k] as usize
        };
        assert(index == index_of(data@, colours as int, width as int, k as int));
        if index >= colours {
            return Err(VncError::Protocol);
        }
        assert(index * unit + unit <= colours * unit) by (nonlinear_arith)
            requires
                index + 1 <= colours,
                unit >= 1,
        ;
        push_pixel(&mut out, format, payload, palette_at + index * unit);
        k += 1;
    }
    Ok(out)
}

/// Pixel `k` of a rectangle lies in one of its rows, and its bit in one of
/// the bytes of that row of the mask.
proof fn lemma_bit_place(k: int, width: int, height: int)
    requires
        0 <= k < width * height,
        1 <= width,
    ensures
        0 <= k / width < height,
        0 <= k % width < width,
        0 <= (k / width) * ((width + 7) / 8) + (k % width) / 8 < ((width + 7) / 8) * height,
        crate::codec::trle::packed_stride(width, 1) == (width + 7) / 8,
{
    vstd::arithmetic::div_mod::lemma_fundamental_div_mod(k, width);
    vstd::arithmetic::div_mod::lemma_mod_bound(k, width);
    let row = k / width;
    let stride = (width + 7) / 8;
    assert(0 <= row < height) by (nonlinear_arith)
        requires
            k == width * row + k % width,
            0 <= k % width < width,
            0 <= k < width * height,
            1 <= width,
    ;
    assert(0 <= row * stride && row * stride + stride <= stride * height) by (nonlinear_arith)
        requires
            0 <= row,
            row + 1 <= height,
            stride >= 0,
    ;
}

/// Reads the pixels of a rectangle from its pixel data.
fn read_pixels(layout: &Layout, rect: &Rect, server: &PixelFormat, payload: &[u8], data: &[u8])
    -> (res: Result<Vec<u8>, VncError>)
    requires
        layout.fits(*rect, *server),
        layout.method != Method::Jpeg,
        1 <= server.spec_bytes_per_pixel() <= 4,
        payload@.len() >= layout.total(),
        data@.len() == layout.data_len,
    ensures
        crate::error::view_result(res) == pixels_of(*layout, *rect, *server, payload@, data@),
{
    let unit = unit(server);
    proof {
        raw::lemma_product_bound(rect.width as int, rect.height as int, 65535, 65535);
    }
    let area: usize = rect.width as usize * rect.height as usize;
    match layout.method {
        Method::Jpeg => Err(VncError::Protocol),
        Method::Fill => {
            let mut pixel: Vec<u8> = Vec::new();
            push_pixel(&mut pixel, server, data, 0);
            assert(data@.subrange(0, unit as int) =~= data@);
            assert(pixel@ =~= spec_pixel_of(*server, data@));
            let mut out: Vec<u8> = Vec::new();
            crate::codec::trle::push_repeated(&mut out, pixel.as_slice(), 0, pixel.len(), area);
            assert(pixel@.subrange(0, pixel@.len() as int) =~= pixel@);
            assert(out@ =~= repeat(pixel@, area as int));
            Ok(out)
        },
        Method::Plain => {
            assert(data@.len() % (unit as nat) == 0) by {
                vstd::arithmetic::div_mod::lemma_mod_multiples_basic(area as int, unit as int);
            }
            Ok(read_all_pixels(server, data))
        },
        Method::Palette { colours } => read_indexed(
            server,
            payload,
            layout.palette_at as usize,
            colours as usize,
            data,
            rect.width as usize,
            rect.height as usize,
        ),
        Method::Gradient => {
            assert(area > 0 ==> rect.width >= 1) by (nonlinear_arith)
                requires
                    area == rect.width as int * rect.height as int,
            ;
            Ok(read_gradient(server, data, rect.width as usize, area))
        },
    }
}

/// The one event that holds the given image or pixels.
fn one_event(rect: &Rect, jpeg: bool, bytes: Vec<u8>) -> (events: Vec<VncEvent>)
    ensures
        crate::events::view_events(events@) == if jpeg {
            seq![VncEventView::JpegImage(*rect, bytes@)]
        } else {
            seq![VncEventView::RawImage(*rect, bytes@)]
        },
{
    let mut events: Vec<VncEvent> = Vec::new();
    if jpeg {
        events.push(VncEvent::JpegImage(*rect, bytes));
        assert(crate::events::view_events(events@) =~= seq![
            VncEventView::JpegImage(*rect, bytes@),
        ]);
    } else {
        events.push(VncEvent::RawImage(*rect, bytes));
        assert(crate::events::view_events(events@) =~= seq![
            VncEventView::RawImage(*rect, bytes@),
        ]);
    }
    events
}

/// Decodes a rectangle from its payload and from what the zlib stream
/// gave for the compressed part of it, if there is one.
pub fn decode(
    rect: &Rect,
    client: &PixelFormat,
    server: &PixelFormat,
    payload: &[u8],
    inflated: Option<&[u8]>,
) -> (res: Result<Vec<VncEvent>, VncError>)
    ensures
        view_decoded(res) == spec_decode(
            *rect,
            *client,
            *server,
            payload@,
            view_inflated(inflated),
        ),
{
    let n = server.bytes_per_pixel();
    let layout = match read_layout(payload, rect, server) {
        Err(e) => {
            return Err(e);
        },
        Ok(None) => {
            return Err(VncError::Protocol);
        },
        Ok(Some(layout)) => layout,
    };
    if n < 1 || n > 4 || (payload.len() as u64) < layout.data_at + layout.chunk_len {
        return Err(VncError::Protocol);
    }
    let data: &[u8] = if layout.compressed {
        match inflated {
            Some(data) => {
                if data.len() as u64 != layout.data_len {
                    return Err(VncError::Protocol);
                }
                data
            },
            None => {
                return Err(VncError::Protocol);
            },
        }
    } else {
        vstd::slice::slice_subrange(
            payload,
            layout.data_at as usize,
            (layout.data_at + layout.data_len) as usize,
        )
    };
    match layout.method {
        Method::Jpeg => {
            let mut image: Vec<u8> = Vec::new();
            crate::wire::write_bytes(&mut image, data);
            assert(image@ =~= data@);
            Ok(one_event(rect, true, image))
        },
        _ => {
            let pixels = match read_pixels(&layout, rect, server, payload, data) {
                Ok(pixels) => pixels,
                Err(e) => {
                    return Err(e);
                },
            };
            match raw::translate_pixels(client, server, pixels.as_slice()) {
                Err(e) => Err(e),
                Ok(translated) => Ok(one_event(rect, false, translated)),
            }
        },
    }
}

} // verus!
