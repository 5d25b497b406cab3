//! Tiled run-length encoding: a rectangle cut into square tiles, each of
//! which is sent raw, as one colour, through a palette, or as runs.
//!
//! The pixels of a tile are compressed pixels: where a pixel of 32 bits
//! keeps its colour in three of its four bytes, only those three are sent.

use vstd::prelude::*;
use crate::codec::raw;
use crate::error::{VncError, VncErrorView};
use crate::events::{view_events, VncEvent, VncEventView};
use crate::protocol::pixel_format::{channel_placed, PixelFormat};
use crate::protocol::rect::Rect;

verus! {

/// What reading a piece of a tile gives: the bytes read and the offset
/// after them; `Ok(None)` where the data ends before the piece does; an
/// error where the data cannot be a tile.
pub type Piece = Result<Option<(Seq<u8>, int)>, VncErrorView>;

/// The bits of a pixel that carry colour.
pub open spec fn colour_mask(format: PixelFormat) -> u32 {
    channel_placed(format.red_max as u32, format.red_shift) | channel_placed(
        format.green_max as u32,
        format.green_shift,
    ) | channel_placed(format.blue_max as u32, format.blue_shift)
}

/// How many bytes a compressed pixel takes, and whether the byte that it
/// leaves out is the first of the pixel on the wire. A pixel is compressed
/// to three bytes where it has true colour in 32 bits with a depth of at
/// most 24, and its colour lies in its three low bytes or in its three
/// high bytes.
pub open spec fn spec_compressed(format: PixelFormat) -> (int, bool) {
    if format.true_color_flag != 0 && format.bits_per_pixel == 32 && format.depth <= 24 {
        if colour_mask(format) & 0xff00_0000u32 == 0 {
            (3, format.big_endian_flag != 0)
        } else if colour_mask(format) & 0x0000_00ffu32 == 0 {
            (3, format.big_endian_flag == 0)
        } else {
            (4, false)
        }
    } else {
        (format.spec_bytes_per_pixel(), false)
    }
}

/// Compressed pixels of three bytes filled up to pixels of four: each gets
/// a zero byte in front if `pad_first`, and behind otherwise.
pub open spec fn expand(pixels: Seq<u8>, pad_first: bool) -> Seq<u8> {
    Seq::new(
        (pixels.len() as int / 3 * 4) as nat,
        |j: int|
            if pad_first {
                if j % 4 == 0 {
                    0u8
                } else {
                    pixels[(j / 4) * 3 + j % 4 - 1]
                }
            } else {
                if j % 4 == 3 {
                    0u8
                } else {
                    pixels[(j / 4) * 3 + j % 4]
                }
            },
    )
}

/// The pixels of a tile in the server's format: its compressed pixels,
/// filled up where they are shorter than a pixel.
pub open spec fn spec_full_pixels(format: PixelFormat, pixels: Seq<u8>) -> Seq<u8> {
    if spec_compressed(format).0 == format.spec_bytes_per_pixel() {
        pixels
    } else {
        expand(pixels, spec_compressed(format).1)
    }
}

/// The length of a run, which is written as one or more bytes: one more
/// than their sum, where every byte but the last is 255. `so_far` is what
/// the bytes before `at` have come to. A run of more than `most` pixels is
/// an error as soon as it shows.
pub open spec fn run_length(data: Seq<u8>, at: int, so_far: int, most: int) -> Result<
    Option<(int, int)>,
    VncErrorView,
>
    decreases data.len() - at,
{
    if so_far > most {
        Err(VncErrorView::Protocol)
    } else if at < 0 || at >= data.len() {
        Ok(None)
    } else if data[at] != 255 {
        if so_far + data[at] > most {
            Err(VncErrorView::Protocol)
        } else {
            Ok(Some((so_far + data[at], at + 1)))
        }
    } else {
        run_length(data, at + 1, so_far + 255, most)
    }
}

/// `count` copies of a pixel, one after the other.
pub open spec fn repeat(pixel: Seq<u8>, count: int) -> Seq<u8>
    decreases count,
{
    if count <= 0 {
        Seq::empty()
    } else {
        repeat(pixel, count - 1) + pixel
    }
}

/// The `len` bytes at offset `at`, if the data holds them.
pub open spec fn take(data: Seq<u8>, at: int, len: int) -> Piece {
    if at + len > data.len() {
        Ok(None)
    } else {
        Ok(Some((data.subrange(at, at + len), at + len)))
    }
}

/// The rest of a tile of plain runs: each run is a pixel and a length.
/// `out` holds the pixels of the runs before `at`, and the tile is full
/// when it holds `total` bytes.
pub open spec fn plain_runs(data: Seq<u8>, at: int, unit: int, out: Seq<u8>, total: int) -> Piece
    decreases data.len() - at,
{
    if out.len() >= total {
        Ok(Some((out, at)))
    } else if unit < 1 || at < 0 || at + unit > data.len() {
        Ok(None)
    } else {
        match run_length(data, at + unit, 1, (total - out.len()) / unit) {
            Err(e) => Err(e),
            Ok(None) => Ok(None),
            Ok(Some((length, next))) => {
                proof {
                    lemma_run_length_bounds(data, at + unit, 1, (total - out.len()) / unit);
                }
                plain_runs(
                    data,
                    next,
                    unit,
                    out + repeat(data.subrange(at, at + unit), length),
                    total,
                )
            },
        }
    }
}

/// Entry `index` of the palette that starts at offset `palette`.
pub open spec fn palette_entry(data: Seq<u8>, palette: int, unit: int, index: int) -> Seq<u8> {
    data.subrange(palette + index * unit, palette + index * unit + unit)
}

/// The run that starts with the index byte at offset `at`: where the top
/// bit of the byte is set, a length follows, else the run is one pixel long.
pub open spec fn indexed_run(data: Seq<u8>, at: int, most: int) -> Result<
    Option<(int, int)>,
    VncErrorView,
> {
    if data[at] >= 128 {
        run_length(data, at + 1, 1, most)
    } else if most < 1 {
        Err(VncErrorView::Protocol)
    } else {
        Ok(Some((1, at + 1)))
    }
}

/// The rest of a tile of palette runs: each run is an index into the
/// palette, with or without a length. An index past the palette is an error.
pub open spec fn palette_runs(
    data: Seq<u8>,
    palette: int,
    size: int,
    at: int,
    unit: int,
    out: Seq<u8>,
    total: int,
) -> Piece
    decreases data.len() - at,
{
    if out.len() >= total {
        Ok(Some((out, at)))
    } else if unit < 1 || at < 0 || at >= data.len() {
        Ok(None)
    } else if data[at] % 128 >= size {
        Err(VncErrorView::Protocol)
    } else {
        match indexed_run(data, at, (total - out.len()) / unit) {
            Err(e) => Err(e),
            Ok(None) => Ok(None),
            Ok(Some((length, next))) => {
                proof {
                    lemma_run_length_bounds(data, at + 1, 1, (total - out.len()) / unit);
                }
                palette_runs(
                    data,
                    palette,
                    size,
                    next,
                    unit,
                    out + repeat(
                        palette_entry(data, palette, unit, (data[at] % 128) as int),
                        length,
                    ),
                    total,
                )
            },
        }
    }
}

/// How many bits a packed index takes in a palette of the given size: one
/// for two colours, two for up to four, four for up to sixteen.
pub open spec fn index_bits(size: int) -> int {
    if size <= 2 {
        1
    } else if size <= 4 {
        2
    } else {
        4
    }
}

/// How many indices of the given number of bits a byte holds.
pub open spec fn per_byte(bits: int) -> int {
    if bits <= 1 {
        8
    } else if bits == 2 {
        4
    } else {
        2
    }
}

/// How many bytes a row of packed indices takes: rows end on whole bytes.
pub open spec fn packed_stride(width: int, bits: int) -> int {
    (width + per_byte(bits) - 1) / per_byte(bits)
}

/// The largest index that the given number of bits can hold.
pub open spec fn index_mask(bits: int) -> u8 {
    if bits <= 1 {
        1
    } else if bits == 2 {
        3
    } else {
        15
    }
}

/// The packed index of pixel `k` of a tile, whose rows of `width` indices
/// start at offset `packed`. The first index of a byte lies in its top bits.
pub open spec fn packed_index(data: Seq<u8>, packed: int, width: int, bits: int, k: int) -> u8 {
    let x = k % width;
    let byte = data[packed + (k / width) * packed_stride(width, bits) + x / per_byte(bits)];
    (byte >> ((8 - bits * (x % per_byte(bits) + 1)) as u8)) & index_mask(bits)
}

/// The rest of a tile of packed indices, from pixel `k` on.
pub open spec fn packed_pixels(
    data: Seq<u8>,
    palette: int,
    size: int,
    packed: int,
    width: int,
    unit: int,
    k: int,
    out: Seq<u8>,
    count: int,
) -> Result<Seq<u8>, VncErrorView>
    decreases count - k,
{
    if k >= count {
        Ok(out)
    } else {
        let index = packed_index(data, packed, width, index_bits(size), k);
        if index >= size {
            Err(VncErrorView::Protocol)
        } else {
            packed_pixels(
                data,
                palette,
                size,
                packed,
                width,
                unit,
                k + 1,
                out + palette_entry(data, palette, unit, index as int),
                count,
            )
        }
    }
}

/// A tile of packed indices: the palette, then one index for each pixel,
/// row by row.
pub open spec fn packed_tile(data: Seq<u8>, at: int, size: int, width: int, height: int, unit: int)
    -> Piece {
    let packed = at + size * unit;
    let end = packed + packed_stride(width, index_bits(size)) * height;
    if end > data.len() {
        Ok(None)
    } else {
        match packed_pixels(data, at, size, packed, width, unit, 0, Seq::empty(), width * height) {
            Ok(out) => Ok(Some((out, end))),
            Err(e) => Err(e),
        }
    }
}

/// One tile of `width` by `height` pixels that starts at offset `at`: the
/// compressed pixels that it holds, row by row, and the offset after it.
/// The first byte tells how the tile is sent: 0 raw, 1 as one colour, 2 to
/// 16 with packed indices into a palette of that size, 128 as plain runs,
/// 130 to 255 as runs of indices into a palette of that size less 128. No
/// other first byte is allowed.
pub open spec fn spec_tile(data: Seq<u8>, at: int, width: int, height: int, unit: int) -> Piece {
    if at < 0 || at >= data.len() {
        Ok(None)
    } else if data[at] == 0 {
        take(data, at + 1, width * height * unit)
    } else if data[at] == 1 {
        match take(data, at + 1, unit) {
            Ok(Some((pixel, next))) => Ok(Some((repeat(pixel, width * height), next))),
            other => other,
        }
    } else if data[at] <= 16 {
        packed_tile(data, at + 1, data[at] as int, width, height, unit)
    } else if data[at] == 128 {
        plain_runs(data, at + 1, unit, Seq::empty(), width * height * unit)
    } else if data[at] >= 130 {
        if at + 1 + (data[at] - 128) * unit > data.len() {
            Ok(None)
        } else {
            palette_runs(
                data,
                at + 1,
                data[at] - 128,
                at + 1 + (data[at] - 128) * unit,
                unit,
                Seq::empty(),
                width * height * unit,
            )
        }
    } else {
        Err(VncErrorView::Protocol)
    }
}

/// The mathematical value of what reading a piece gives.
pub open spec fn view_piece(res: Result<Option<(Vec<u8>, usize)>, VncError>) -> Piece {
    match res {
        Ok(Some((bytes, next))) => Ok(Some((bytes@, next as int))),
        Ok(None) => Ok(None),
        Err(e) => Err(e@),
    }
}

/// The mathematical value of what reading a run length gives.
pub open spec fn view_run(res: Result<Option<(u32, usize)>, VncError>) -> Result<
    Option<(int, int)>,
    VncErrorView,
> {
    match res {
        Ok(Some((length, next))) => Ok(Some((length as int, next as int))),
        Ok(None) => Ok(None),
        Err(e) => Err(e@),
    }
}

/// A run that is read is at least as long as what came before, at most
/// `most` pixels long, and ends after `at`.
pub proof fn lemma_run_length_bounds(data: Seq<u8>, at: int, so_far: int, most: int)
    requires
        0 <= at,
    ensures
        run_length(data, at, so_far, most) matches Ok(Some((length, next))) ==> so_far <= length
            <= most && at < next <= data.len(),
    decreases data.len() - at,
{
    if so_far <= most && at < data.len() && data[at] == 255 {
        lemma_run_length_bounds(data, at + 1, so_far + 255, most);
    }
}

/// `count` copies of a pixel take `count` times its bytes.
pub proof fn lemma_repeat_len(pixel: Seq<u8>, count: int)
    requires
        count >= 0,
    ensures
        repeat(pixel, count).len() == count * pixel.len(),
    decreases count,
{
    let n = pixel.len() as int;
    if count > 0 {
        lemma_repeat_len(pixel, count - 1);
        assert(count * n == (count - 1) * n + n) by (nonlinear_arith);
    } else {
        assert(count * n == 0) by (nonlinear_arith)
            requires
                count == 0,
        ;
    }
}

/// Reads the length of a run of at most `most` pixels, whose bytes start
/// at offset `at`.
pub fn read_run_length(data: &[u8], at: usize, most: u32) -> (res: Result<
    Option<(u32, usize)>,
    VncError,
>)
    ensures
        view_run(res) == run_length(data@, at as int, 1, most as int),
{
    let mut so_far: u64 = 1;
    let mut i: usize = at;
    loop
        invariant
            at <= i,
            so_far <= most + 255,
            run_length(data@, at as int, 1, most as int) == run_length(
                data@,
                i as int,
                so_far as int,
                most as int,
            ),
        decreases data@.len() - i + (if so_far > most { 0int } else { 1int }),
    {
        if so_far > most as u64 {
            return Err(VncError::Protocol);
        }
        if i >= data.len() {
            return Ok(None);
        }
        let byte = data[i];
        if byte != 255 {
            let length = so_far + byte as u64;
            if length > most as u64 {
                return Err(VncError::Protocol);
            }
            return Ok(Some((length as u32, i + 1)));
        }
        so_far += 255;
        i += 1;
    }
}

/// Appends `count` copies of the `unit` bytes of `data` at offset `from`.
pub(crate) fn push_repeated(out: &mut Vec<u8>, data: &[u8], from: usize, unit: usize, count: usize)
    requires
        from + unit <= data@.len(),
    ensures
        final(out)@ == old(out)@ + repeat(data@.subrange(from as int, from + unit), count as int),
{
    let ghost pixel = data@.subrange(from as int, from + unit);
    let end = data.len();
    let mut done: usize = 0;
    assert(old(out)@ + repeat(pixel, 0) =~= old(out)@);
    while done < count
        invariant
            done <= count,
            from + unit <= data@.len() == end,
            pixel == data@.subrange(from as int, from + unit),
            out@ == old(out)@ + repeat(pixel, done as int),
        decreases count - done,
    {
        let ghost before = out@;
        let mut b: usize = 0;
        while b < unit
            invariant
                b <= unit,
                from + unit <= data@.len() == end,
                pixel == data@.subrange(from as int, from + unit),
                out@ == before + pixel.subrange(0, b as int),
            decreases unit - b,
        {
            out.push(data[from + b]);
            b += 1;
            assert(out@ =~= before + pixel.subrange(0, b as int));
        }
        assert(pixel.subrange(0, unit as int) =~= pixel);
        done += 1;
        assert(out@ =~= old(out)@ + repeat(pixel, done as int));
    }
}

/// How many bytes a compressed pixel takes, and whether the byte that it
/// leaves out is the first of the pixel on the wire.
pub fn compressed(format: &PixelFormat) -> (layout: (usize, bool))
    ensures
        (layout.0 as int, layout.1) == spec_compressed(*format),
{
    if format.true_color_flag != 0 && format.bits_per_pixel == 32 && format.depth <= 24 {
        let mask = crate::protocol::pixel_format::place(format.red_max as u32, format.red_shift)
            | crate::protocol::pixel_format::place(format.green_max as u32, format.green_shift)
            | crate::protocol::pixel_format::place(format.blue_max as u32, format.blue_shift);
        if mask & 0xff00_0000u32 == 0 {
            (3, format.big_endian_flag != 0)
        } else if mask & 0x0000_00ffu32 == 0 {
            (3, format.big_endian_flag == 0)
        } else {
            (4, false)
        }
    } else {
        (format.bytes_per_pixel(), false)
    }
}

/// Fills compressed pixels of three bytes up to pixels of four.
pub fn expand_pixels(pixels: &Vec<u8>, pad_first: bool) -> (out: Vec<u8>)
    ensures
        out@ == expand(pixels@, pad_first),
{
    let len = pixels.len();
    let count = len / 3;
    let mut out: Vec<u8> = Vec::new();
    let mut k: usize = 0;
    while k < count
        invariant
            k <= count,
            len == pixels@.len(),
            count == pixels@.len() / 3,
            out@.len() == 4 * k,
            forall|j: int| 0 <= j < 4 * k ==> out@[j] == expand(pixels@, pad_first)[j],
        decreases count - k,
    {
        let at = 3 * k;
        if pad_first {
            out.push(0);
            out.push(pixels[at]);
            out.push(pixels[at + 1]);
            out.push(pixels[at + 2]);
        } else {
            out.push(pixels[at]);
            out.push(pixels[at + 1]);
            out.push(pixels[at + 2]);
            out.push(0);
        }
        k += 1;
    }
    assert(out@ =~= expand(pixels@, pad_first));
    out
}

/// The pixels of a tile in the server's format.
pub fn full_pixels(format: &PixelFormat, pixels: Vec<u8>) -> (out: Vec<u8>)
    ensures
        out@ == spec_full_pixels(*format, pixels@),
{
    let layout = compressed(format);
    if layout.0 == format.bytes_per_pixel() {
        pixels
    } else {
        expand_pixels(&pixels, layout.1)
    }
}

/// A run of at most `rest / unit` pixels fits into `rest` bytes.
proof fn lemma_run_fits(length: int, rest: int, unit: int)
    requires
        unit >= 1,
        rest >= 0,
        0 <= length <= rest / unit,
    ensures
        0 <= length * unit <= rest,
{
    vstd::arithmetic::div_mod::lemma_fundamental_div_mod(rest, unit);
    let q = rest / unit;
    assert(0 <= length * unit <= q * unit) by (nonlinear_arith)
        requires
            0 <= length <= q,
            unit >= 1,
    ;
    assert(unit * q == q * unit) by (nonlinear_arith);
    vstd::arithmetic::div_mod::lemma_mod_bound(rest, unit);
}

/// Reads a tile of plain runs, which starts at offset `at`.
fn read_plain_runs(data: &[u8], at: usize, unit: usize, total: usize) -> (res: Result<
    Option<(Vec<u8>, usize)>,
    VncError,
>)
    requires
        1 <= unit <= 4,
        total <= 0x1_0000,
    ensures
        view_piece(res) == plain_runs(
            data@,
            at as int,
            unit as int,
            Seq::empty(),
            total as int,
        ),
{
    let mut out: Vec<u8> = Vec::new();
    let mut i: usize = at;
    let end = data.len();
    loop
        invariant
            1 <= unit <= 4,
            total <= 0x1_0000,
            end == data@.len(),
            out@.len() <= total,
            plain_runs(data@, at as int, unit as int, Seq::empty(), total as int) == plain_runs(
                data@,
                i as int,
                unit as int,
                out@,
                total as int,
            ),
        decreases end + 1 - i,
    {
        if out.len() >= total {
            return Ok(Some((out, i)));
        }
        if i > end || unit > end - i {
            return Ok(None);
        }
        let most = ((total - out.len()) / unit) as u32;
        proof {
            lemma_run_length_bounds(data@, i + unit, 1, most as int);
        }
        match read_run_length(data, i + unit, most) {
            Err(e) => {
                return Err(e);
            },
            Ok(None) => {
                return Ok(None);
            },
            Ok(Some((length, next))) => {
                proof {
                    lemma_run_fits(length as int, total - out@.len(), unit as int);
                    lemma_repeat_len(data@.subrange(i as int, i + unit), length as int);
                }
                push_repeated(&mut out, data, i, unit, length as usize);
                i = next;
            },
        }
    }
}

/// Reads the runs of a tile of palette runs. The palette starts at offset
/// `palette`, the runs at offset `at`.
fn read_palette_runs(
    data: &[u8],
    palette: usize,
    size: usize,
    at: usize,
    unit: usize,
    total: usize,
) -> (res: Result<Option<(Vec<u8>, usize)>, VncError>)
    requires
        1 <= unit <= 4,
        total <= 0x1_0000,
        size <= 127,
        palette + size * unit <= data@.len(),
    ensures
        view_piece(res) == palette_runs(
            data@,
            palette as int,
            size as int,
            at as int,
            unit as int,
            Seq::empty(),
            total as int,
        ),
{
    let mut out: Vec<u8> = Vec::new();
    let mut i: usize = at;
    let end = data.len();
    loop
        invariant
            1 <= unit <= 4,
            total <= 0x1_0000,
            size <= 127,
            palette + size * unit <= data@.len(),
            end == data@.len(),
            out@.len() <= total,
            palette_runs(
                data@,
                palette as int,
                size as int,
                at as int,
                unit as int,
                Seq::empty(),
                total as int,
            ) == palette_runs(
                data@,
                palette as int,
                size as int,
                i as int,
                unit as int,
                out@,
                total as int,
            ),
        decreases end + 1 - i,
    {
        if out.len() >= total {
            return Ok(Some((out, i)));
        }
        if i >= end {
            return Ok(None);
        }
        let byte = data[i];
        let index = (byte % 128) as usize;
        if index >= size {
            return Err(VncError::Protocol);
        }
        assert(index * unit + unit <= size * unit) by (nonlinear_arith)
            requires
                index + 1 <= size,
                unit >= 1,
        ;
        let entry = palette + index * unit;
        let most = ((total - out.len()) / unit) as u32;
        proof {
            lemma_run_length_bounds(data@, i + 1, 1, most as int);
        }
        let run = if byte >= 128 {
            read_run_length(data, i + 1, most)
        } else if most < 1 {
            Err(VncError::Protocol)
        } else {
            Ok(Some((1, i + 1)))
        };
        match run {
            Err(e) => {
                return Err(e);
            },
            Ok(None) => {
                return Ok(None);
            },
            Ok(Some((length, next))) => {
                proof {
                    lemma_run_fits(length as int, total - out@.len(), unit as int);
                    lemma_repeat_len(data@.subrange(entry as int, entry + unit), length as int);
                }
                push_repeated(&mut out, data, entry, unit, length as usize);
                i = next;
            },
        }
    }
}

/// Pixel `k` of a tile lies in one of its rows, and its packed index in
/// one of the bytes of that row.
proof fn lemma_packed_place(k: int, width: int, height: int, bits: int)
    requires
        0 <= k < width * height,
        1 <= width,
        bits == 1 || bits == 2 || bits == 4,
    ensures
        0 <= k / width < height,
        0 <= k % width < width,
        0 <= (k % width) / per_byte(bits) < packed_stride(width, bits),
        0 <= (k / width) * packed_stride(width, bits),
        (k / width) * packed_stride(width, bits) + packed_stride(width, bits) <= packed_stride(
            width,
            bits,
        ) * height,
        1 <= bits * ((k % width) % per_byte(bits) + 1) <= 8,
{
    vstd::arithmetic::div_mod::lemma_fundamental_div_mod(k, width);
    vstd::arithmetic::div_mod::lemma_mod_bound(k, width);
    let row = k / width;
    let stride = packed_stride(width, bits);
    assert(0 <= row < height) by (nonlinear_arith)
        requires
            k == width * row + k % width,
            0 <= k % width < width,
            0 <= k < width * height,
            1 <= width,
    ;
    assert(stride >= 0);
    assert(0 <= row * stride && row * stride + stride <= stride * height) by (nonlinear_arith)
        requires
            0 <= row,
            row + 1 <= height,
            stride >= 0,
    ;
}

/// Reads a tile of packed indices: the palette at offset `at`, then the indices.
fn read_packed_tile(
    data: &[u8],
    at: usize,
    size: usize,
    width: usize,
    height: usize,
    unit: usize,
) -> (res: Result<Option<(Vec<u8>, usize)>, VncError>)
    requires
        at <= data@.len(),
        2 <= size <= 16,
        1 <= width <= 64,
        1 <= height <= 64,
        1 <= unit <= 4,
    ensures
        view_piece(res) == packed_tile(
            data@,
            at as int,
            size as int,
            width as int,
            height as int,
            unit as int,
        ),
{
    let bits: usize = if size <= 2 {
        1
    } else if size <= 4 {
        2
    } else {
        4
    };
    let each: usize = if bits <= 1 {
        8
    } else if bits == 2 {
        4
    } else {
        2
    };
    let stride: usize = (width + each - 1) / each;
    assert(stride <= 64);
    assert(stride * height <= 64 * 64) by (nonlinear_arith)
        requires
            stride <= 64,
            height <= 64,
    ;
    assert(size * unit <= 64) by (nonlinear_arith)
        requires
            size <= 16,
            unit <= 4,
    ;
    let needed: usize = size * unit + stride * height;
    if needed > data.len() - at {
        return Ok(None);
    }
    let packed: usize = at + size * unit;
    let end: usize = packed + stride * height;
    assert(width * height <= 64 * 64) by (nonlinear_arith)
        requires
            width <= 64,
            height <= 64,
    ;
    let count: usize = width * height;
    let mask: u8 = if bits <= 1 {
        1
    } else if bits == 2 {
        3
    } else {
        15
    };
    let mut out: Vec<u8> = Vec::new();
    let mut k: usize = 0;
    while k < count
        invariant
            k <= count,
            count == width * height,
            1 <= width <= 64,
            1 <= height <= 64,
            1 <= unit <= 4,
            2 <= size <= 16,
            bits == index_bits(size as int),
            bits == 1 || bits == 2 || bits == 4,
            each == per_byte(bits as int),
            stride == packed_stride(width as int, bits as int),
            mask == index_mask(bits as int),
            packed == at + size * unit,
            end == packed + stride * height,
            end <= data@.len(),
            packed_pixels(
                data@,
                at as int,
                size as int,
                packed as int,
                width as int,
                unit as int,
                0,
                Seq::empty(),
                count as int,
            ) == packed_pixels(
                data@,
                at as int,
                size as int,
                packed as int,
                width as int,
                unit as int,
                k as int,
                out@,
                count as int,
            ),
        decreases count - k,
    {
        proof {
            lemma_packed_place(k as int, width as int, height as int, bits as int);
        }
        let x = k % width;
        let row = k / width;
        let byte = data[packed + row * stride + x / each];
        let shift: usize = 8 - bits * (x % each + 1);
        let index = ((byte >> (shift as u8)) & mask) as usize;
        assert(index == packed_index(data@, packed as int, width as int, bits as int, k as int));
        if index >= size {
            return Err(VncError::Protocol);
        }
        assert(index * unit + unit <= size * unit) by (nonlinear_arith)
            requires
                index + 1 <= size,
                unit >= 1,
        ;
        let ghost before = out@;
        push_repeated(&mut out, data, at + index * unit, unit, 1);
        proof {
            let entry = palette_entry(data@, at as int, unit as int, index as int);
            assert(repeat(entry, 1) =~= entry) by {
                assert(repeat(entry, 0) =~= Seq::<u8>::empty());
            }
        }
        k += 1;
    }
    Ok(Some((out, end)))
}

/// Reads one tile of `width` by `height` pixels that starts at offset `at`.
pub(crate) fn read_tile(
    data: &[u8],
    at: usize,
    width: usize,
    height: usize,
    unit: usize,
) -> (res: Result<Option<(Vec<u8>, usize)>, VncError>)
    requires
        1 <= width <= 64,
        1 <= height <= 64,
        1 <= unit <= 4,
    ensures
        view_piece(res) == spec_tile(
            data@,
            at as int,
            width as int,
            height as int,
            unit as int,
        ),
{
    if at >= data.len() {
        return Ok(None);
    }
    let kind = data[at];
    let rest = data.len() - at - 1;
    assert(width * height <= 64 * 64) by (nonlinear_arith)
        requires
            width <= 64,
            height <= 64,
    ;
    let count: usize = width * height;
    assert(count * unit <= 4096 * 4) by (nonlinear_arith)
        requires
            count <= 4096,
            unit <= 4,
    ;
    let total: usize = count * unit;
    if kind == 0 {
        if total > rest {
            return Ok(None);
        }
        match crate::wire::read_bytes(data, at + 1, total) {
            Ok(pixels) => Ok(Some((pixels, at + 1 + total))),
            Err(e) => Ok(None),
        }
    } else if kind == 1 {
        if unit > rest {
            return Ok(None);
        }
        let mut out: Vec<u8> = Vec::new();
        push_repeated(&mut out, data, at + 1, unit, count);
        assert(out@ =~= repeat(data@.subrange(at + 1, at + 1 + unit), count as int));
        Ok(Some((out, at + 1 + unit)))
    } else if kind <= 16 {
        read_packed_tile(data, at + 1, kind as usize, width, height, unit)
    } else if kind == 128 {
        read_plain_runs(data, at + 1, unit, total)
    } else if kind >= 130 {
        let size = (kind - 128) as usize;
        assert(size * unit <= 127 * 4) by (nonlinear_arith)
            requires
                size <= 127,
                unit <= 4,
        ;
        if size * unit > rest {
            return Ok(None);
        }
        read_palette_runs(data, at + 1, size, at + 1 + size * unit, unit, total)
    } else {
        Err(VncError::Protocol)
    }
}

/// What reading the tiles of a rectangle gives: one event for each tile
/// and the offset after the last; `Ok(None)` where the data ends before
/// the tiles do.
pub type Tiles = Result<Option<(Seq<VncEventView>, int)>, VncErrorView>;

/// The smaller of two numbers.
pub open spec fn least(a: int, b: int) -> int {
    if a < b {
        a
    } else {
        b
    }
}

/// The event that a tile gives: its pixels in the client's format, for the
/// place of the tile in the framebuffer. The tile lies `x0` pixels to the
/// right of and `y0` pixels below the corner of its rectangle.
pub open spec fn tile_event(
    client: PixelFormat,
    server: PixelFormat,
    rect: Rect,
    x0: int,
    y0: int,
    width: int,
    height: int,
    pixels: Seq<u8>,
) -> Result<VncEventView, VncErrorView> {
    match raw::spec_translate_pixels(client, server, spec_full_pixels(server, pixels)) {
        Ok(translated) => Ok(
            VncEventView::RawImage(
                Rect {
                    x: (rect.x + x0) as u16,
                    y: (rect.y + y0) as u16,
                    width: width as u16,
                    height: height as u16,
                },
                translated,
            ),
        ),
        Err(e) => Err(e),
    }
}

/// The tiles of a rectangle from the one at `x0`, `y0` on, which starts
/// at offset `at`. Tiles are `tile` pixels wide and high, but for those at
/// the right and the lower edge, which are as small as the rectangle
/// leaves them. They come row by row, and in a row from left to right.
pub open spec fn spec_tiles(
    data: Seq<u8>,
    at: int,
    x0: int,
    y0: int,
    rect: Rect,
    tile: int,
    client: PixelFormat,
    server: PixelFormat,
    events: Seq<VncEventView>,
) -> Tiles
    decreases rect.height + tile - y0, rect.width - x0,
{
    if tile < 1 || x0 < 0 || y0 < 0 {
        Err(VncErrorView::Protocol)
    } else if x0 >= rect.width || y0 >= rect.height {
        Ok(Some((events, at)))
    } else {
        let width = least(tile, rect.width - x0);
        let height = least(tile, rect.height - y0);
        match spec_tile(data, at, width, height, spec_compressed(server).0) {
            Err(e) => Err(e),
            Ok(None) => Ok(None),
            Ok(Some((pixels, next))) => match tile_event(
                client,
                server,
                rect,
                x0,
                y0,
                width,
                height,
                pixels,
            ) {
                Err(e) => Err(e),
                Ok(event) => if x0 + tile < rect.width {
                    spec_tiles(
                        data,
                        next,
                        x0 + tile,
                        y0,
                        rect,
                        tile,
                        client,
                        server,
                        events.push(event),
                    )
                } else {
                    spec_tiles(
                        data,
                        next,
                        0,
                        y0 + tile,
                        rect,
                        tile,
                        client,
                        server,
                        events.push(event),
                    )
                },
            },
        }
    }
}

/// A tile of plain runs, once it is read, holds exactly the bytes that
/// were asked for.
pub proof fn lemma_plain_runs_len(data: Seq<u8>, at: int, unit: int, out: Seq<u8>, total: int)
    requires
        0 <= at,
        out.len() <= total,
        plain_runs(data, at, unit, out, total) matches Ok(Some(_)),
    ensures
        ({
            let (pixels, _) = plain_runs(data, at, unit, out, total)->Ok_0->Some_0;
            pixels.len() == total
        }),
    decreases data.len() - at,
{
    if out.len() >= total {
    } else {
        let most = (total - out.len()) / unit;
        lemma_run_length_bounds(data, at + unit, 1, most);
        let (length, next) = run_length(data, at + unit, 1, most)->Ok_0->Some_0;
        lemma_run_fits(length, total - out.len(), unit);
        lemma_repeat_len(data.subrange(at, at + unit), length);
        lemma_plain_runs_len(
            data,
            next,
            unit,
            out + repeat(data.subrange(at, at + unit), length),
            total,
        );
    }
}

/// A tile of palette runs, once it is read, holds exactly the bytes that
/// were asked for.
pub proof fn lemma_palette_runs_len(
    data: Seq<u8>,
    palette: int,
    size: int,
    at: int,
    unit: int,
    out: Seq<u8>,
    total: int,
)
    requires
        0 <= at,
        0 <= palette,
        palette + size * unit <= data.len(),
        out.len() <= total,
        palette_runs(data, palette, size, at, unit, out, total) matches Ok(Some(_)),
    ensures
        ({
            let (pixels, _) = palette_runs(data, palette, size, at, unit, out, total)->Ok_0->Some_0;
            pixels.len() == total
        }),
    decreases data.len() - at,
{
    if out.len() >= total {
    } else {
        let most = (total - out.len()) / unit;
        lemma_run_length_bounds(data, at + 1, 1, most);
        let (length, next) = indexed_run(data, at, most)->Ok_0->Some_0;
        let index = (data[at] % 128) as int;
        let entry = palette_entry(data, palette, unit, index);
        assert(0 <= index * unit && index * unit + unit <= size * unit) by (nonlinear_arith)
            requires
                0 <= index,
                index + 1 <= size,
                unit >= 1,
        ;
        lemma_run_fits(length, total - out.len(), unit);
        lemma_repeat_len(entry, length);
        lemma_palette_runs_len(data, palette, size, next, unit, out + repeat(entry, length), total);
    }
}

/// A tile of packed indices, once it is read, holds a pixel for each index.
pub proof fn lemma_packed_pixels_len(
    data: Seq<u8>,
    palette: int,
    size: int,
    packed: int,
    width: int,
    unit: int,
    k: int,
    out: Seq<u8>,
    count: int,
)
    requires
        0 <= k <= count,
        unit >= 1,
        0 <= palette,
        palette + size * unit <= data.len(),
        out.len() == k * unit,
        packed_pixels(data, palette, size, packed, width, unit, k, out, count) is Ok,
    ensures
        packed_pixels(data, palette, size, packed, width, unit, k, out, count)->Ok_0.len()
            == count * unit,
    decreases count - k,
{
    if k < count {
        let index = packed_index(data, packed, width, index_bits(size), k) as int;
        assert(0 <= index * unit && index * unit + unit <= size * unit) by (nonlinear_arith)
            requires
                0 <= index,
                index + 1 <= size,
                unit >= 1,
        ;
        raw::lemma_product_step(k, unit);
        lemma_packed_pixels_len(
            data,
            palette,
            size,
            packed,
            width,
            unit,
            k + 1,
            out + palette_entry(data, palette, unit, index),
            count,
        );
    }
}

/// A tile, once it is read, holds a compressed pixel for each of its pixels.
pub proof fn lemma_tile_len(data: Seq<u8>, at: int, width: int, height: int, unit: int)
    requires
        width >= 0,
        height >= 0,
        unit >= 1,
        spec_tile(data, at, width, height, unit) matches Ok(Some(_)),
    ensures
        ({
            let (pixels, _) = spec_tile(data, at, width, height, unit)->Ok_0->Some_0;
            pixels.len() == width * height * unit
        }),
{
    let count = width * height;
    assert(count >= 0) by (nonlinear_arith)
        requires
            count == width * height,
            width >= 0,
            height >= 0,
    ;
    assert(count * unit >= 0) by (nonlinear_arith)
        requires
            count >= 0,
            unit >= 1,
    ;
    if data[at] == 0 {
    } else if data[at] == 1 {
        lemma_repeat_len(data.subrange(at + 1, at + 1 + unit), count);
    } else if data[at] <= 16 {
        let size = data[at] as int;
        assert(size * unit >= 0) by (nonlinear_arith)
            requires
                size >= 0,
                unit >= 1,
        ;
        assert(packed_stride(width, index_bits(size)) * height >= 0) by (nonlinear_arith)
            requires
                packed_stride(width, index_bits(size)) >= 0,
                height >= 0,
        ;
        raw::lemma_product_step(0, unit);
        lemma_packed_pixels_len(
            data,
            at + 1,
            size,
            at + 1 + size * unit,
            width,
            unit,
            0,
            Seq::empty(),
            count,
        );
    } else if data[at] == 128 {
        lemma_plain_runs_len(data, at + 1, unit, Seq::empty(), count * unit);
    } else if data[at] >= 130 {
        let size = data[at] - 128;
        lemma_palette_runs_len(
            data,
            at + 1,
            size,
            at + 1 + size * unit,
            unit,
            Seq::empty(),
            count * unit,
        );
    }
}

/// Compressed pixels that are filled up take the bytes of whole pixels.
pub proof fn lemma_full_pixels_len(format: PixelFormat, pixels: Seq<u8>, count: int)
    requires
        count >= 0,
        1 <= format.spec_bytes_per_pixel() <= 4,
        pixels.len() == count * spec_compressed(format).0,
    ensures
        spec_full_pixels(format, pixels).len() == count * format.spec_bytes_per_pixel(),
{
    if spec_compressed(format).0 != format.spec_bytes_per_pixel() {
        assert(pixels.len() as int / 3 == count);
    }
}


/// Every tile gives an image with a pixel of the client's format for each
/// of its pixels.
pub proof fn lemma_tiles_hold_their_pixels(
    data: Seq<u8>,
    at: int,
    x0: int,
    y0: int,
    rect: Rect,
    tile: int,
    client: PixelFormat,
    server: PixelFormat,
    events: Seq<VncEventView>,
)
    requires
        1 <= server.spec_bytes_per_pixel() <= 4,
        tile <= 64,
        forall|i: int| 0 <= i < events.len() ==> (#[trigger] events[i]).holds_its_pixels(client),
        spec_tiles(data, at, x0, y0, rect, tile, client, server, events) matches Ok(Some(_)),
    ensures
        ({
            let found = spec_tiles(data, at, x0, y0, rect, tile, client, server, events);
            let (all, _) = found->Ok_0->Some_0;
            forall|i: int| 0 <= i < all.len() ==> (#[trigger] all[i]).holds_its_pixels(client)
        }),
    decreases rect.height + tile - y0, rect.width - x0,
{
    if tile < 1 || x0 < 0 || y0 < 0 {
    } else if x0 >= rect.width || y0 >= rect.height {
    } else {
        let width = least(tile, rect.width - x0);
        let height = least(tile, rect.height - y0);
        let unit = spec_compressed(server).0;
        let found = spec_tile(data, at, width, height, unit);
        let (pixels, next) = found->Ok_0->Some_0;
        let count = width * height;
        assert(count >= 0) by (nonlinear_arith)
            requires
                count == width * height,
                width >= 0,
                height >= 0,
        ;
        lemma_tile_len(data, at, width, height, unit);
        lemma_full_pixels_len(server, pixels, count);
        raw::lemma_translate_all_len(client, server, spec_full_pixels(server, pixels), count);
        let event = tile_event(client, server, rect, x0, y0, width, height, pixels)->Ok_0;
        assert(event.holds_its_pixels(client));
        let grown = events.push(event);
        assert forall|i: int| 0 <= i < grown.len() implies (#[trigger] grown[i]).holds_its_pixels(
            client,
        ) by {
            if i < events.len() {
                assert(grown[i] == events[i]);
            }
        }
        if x0 + tile < rect.width {
            lemma_tiles_hold_their_pixels(
                data,
                next,
                x0 + tile,
                y0,
                rect,
                tile,
                client,
                server,
                grown,
            );
        } else {
            lemma_tiles_hold_their_pixels(
                data,
                next,
                0,
                y0 + tile,
                rect,
                tile,
                client,
                server,
                grown,
            );
        }
    }
}

/// Every tile lies inside its rectangle: if the events so far paint
/// nothing outside the rectangle, neither do the events of all its tiles.
pub proof fn lemma_tiles_lie_inside(
    data: Seq<u8>,
    at: int,
    x0: int,
    y0: int,
    rect: Rect,
    tile: int,
    client: PixelFormat,
    server: PixelFormat,
    events: Seq<VncEventView>,
)
    requires
        rect.x + rect.width <= 0xffff,
        rect.y + rect.height <= 0xffff,
        forall|i: int| 0 <= i < events.len() ==> (#[trigger] events[i]).paints_within(rect),
        spec_tiles(data, at, x0, y0, rect, tile, client, server, events) matches Ok(Some(_)),
    ensures
        ({
            let found = spec_tiles(data, at, x0, y0, rect, tile, client, server, events);
            let (all, _) = found->Ok_0->Some_0;
            forall|i: int| 0 <= i < all.len() ==> (#[trigger] all[i]).paints_within(rect)
        }),
    decreases rect.height + tile - y0, rect.width - x0,
{
    if tile < 1 || x0 < 0 || y0 < 0 {
    } else if x0 >= rect.width || y0 >= rect.height {
    } else {
        let width = least(tile, rect.width - x0);
        let height = least(tile, rect.height - y0);
        let found = spec_tile(data, at, width, height, spec_compressed(server).0);
        let (pixels, next) = found->Ok_0->Some_0;
        let event = tile_event(client, server, rect, x0, y0, width, height, pixels)->Ok_0;
        assert(event.paints_within(rect));
        let grown = events.push(event);
        assert forall|i: int| 0 <= i < grown.len() implies (#[trigger] grown[i]).paints_within(
            rect,
        ) by {
            if i < events.len() {
                assert(grown[i] == events[i]);
            }
        }
        if x0 + tile < rect.width {
            lemma_tiles_lie_inside(data, next, x0 + tile, y0, rect, tile, client, server, grown);
        } else {
            lemma_tiles_lie_inside(data, next, 0, y0 + tile, rect, tile, client, server, grown);
        }
    }
}

/// What reading a rectangle of tiles from the start of `data` gives. The
/// server's pixels have to take one to four bytes each, a tile is 1 to 64
/// pixels wide and high, and the rectangle has to lie within the reach of
/// 16-bit coordinates.
pub open spec fn spec_parse(
    data: Seq<u8>,
    rect: Rect,
    tile: int,
    client: PixelFormat,
    server: PixelFormat,
) -> Tiles {
    let n = server.spec_bytes_per_pixel();
    if n < 1 || n > 4 || tile < 1 || tile > 64 || rect.x + rect.width > 0xffff || rect.y
        + rect.height > 0xffff {
        Err(VncErrorView::Protocol)
    } else {
        spec_tiles(data, 0, 0, 0, rect, tile, client, server, Seq::empty())
    }
}

/// The mathematical value of what reading tiles gives.
pub open spec fn view_tiles(res: Result<Option<(Vec<VncEvent>, usize)>, VncError>) -> Tiles {
    match res {
        Ok(Some((events, next))) => Ok(Some((view_events(events@), next as int))),
        Ok(None) => Ok(None),
        Err(e) => Err(e@),
    }
}

/// Reads a rectangle of tiles from the start of `data`.
pub fn parse(data: &[u8], rect: &Rect, tile: u16, client: &PixelFormat, server: &PixelFormat)
    -> (res: Result<Option<(Vec<VncEvent>, usize)>, VncError>)
    ensures
        view_tiles(res) == spec_parse(data@, *rect, tile as int, *client, *server),
{
    let n = server.bytes_per_pixel();
    if n < 1 || n > 4 || tile < 1 || tile > 64 || rect.x as u32 + rect.width as u32 > 0xffff
        || rect.y as u32 + rect.height as u32 > 0xffff {
        return Err(VncError::Protocol);
    }
    let unit = compressed(server).0;
    let mut events: Vec<VncEvent> = Vec::new();
    let mut at: usize = 0;
    let mut x0: u32 = 0;
    let mut y0: u32 = 0;
    assert(view_events(events@) =~= Seq::<VncEventView>::empty());
    loop
        invariant
            1 <= tile <= 64,
            1 <= unit <= 4,
            1 <= server.spec_bytes_per_pixel() <= 4,
            unit == spec_compressed(*server).0,
            rect.x + rect.width <= 0xffff,
            rect.y + rect.height <= 0xffff,
            x0 <= rect.width,
            y0 <= rect.height + 64,
            spec_tiles(
                data@,
                0,
                0,
                0,
                *rect,
                tile as int,
                *client,
                *server,
                Seq::empty(),
            ) == spec_tiles(
                data@,
                at as int,
                x0 as int,
                y0 as int,
                *rect,
                tile as int,
                *client,
                *server,
                view_events(events@),
            ),
        decreases rect.height + 64 - y0, rect.width - x0,
    {
        if x0 >= rect.width as u32 || y0 >= rect.height as u32 {
            return Ok(Some((events, at)));
        }
        let left = rect.width as u32 - x0;
        let below = rect.height as u32 - y0;
        let width: u32 = if (tile as u32) < left {
            tile as u32
        } else {
            left
        };
        let height: u32 = if (tile as u32) < below {
            tile as u32
        } else {
            below
        };
        let (pixels, next) = match read_tile(data, at, width as usize, height as usize, unit) {
            Err(e) => {
                return Err(e);
            },
            Ok(None) => {
                return Ok(None);
            },
            Ok(Some(found)) => found,
        };
        let full = full_pixels(server, pixels);
        let translated = match raw::translate_pixels(client, server, full.as_slice()) {
            Ok(translated) => translated,
            Err(e) => {
                return Err(e);
            },
        };
        let place = Rect {
            x: (rect.x as u32 + x0) as u16,
            y: (rect.y as u32 + y0) as u16,
            width: width as u16,
            height: height as u16,
        };
        let ghost before = view_events(events@);
        let event = VncEvent::RawImage(place, translated);
        events.push(event);
        assert(view_events(events@) =~= before.push(event@));
        at = next;
        if x0 + (tile as u32) < rect.width as u32 {
            x0 = x0 + tile as u32;
        } else {
            x0 = 0;
            y0 = y0 + tile as u32;
        }
    }
}

} // verus!
