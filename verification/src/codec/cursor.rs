//! The cursor pseudo-encoding: the cursor's pixels, then a mask of one bit
//! for each pixel that tells whether the pixel shows.

use vstd::prelude::*;
use crate::error::{view_result, VncError, VncErrorView};
use crate::protocol::pixel_format::PixelFormat;

verus! {

/// How many bytes a row of the mask takes: one bit for each pixel, rounded
/// up to whole bytes.
pub open spec fn mask_stride(width: u16) -> int {
    (width as int + 7) / 8
}

/// How many bytes the shape of a cursor takes: its pixels and its mask.
pub open spec fn cursor_length(width: u16, height: u16, format: PixelFormat) -> int {
    crate::codec::raw::raw_length(width, height, format) + mask_stride(width) * height as int
}

/// Whether the mask shows the pixel at column `x` of row `y`: its bit is
/// the bit `x % 8` of byte `x / 8` of the row, counted from the most
/// significant end.
pub open spec fn mask_shows(mask: Seq<u8>, width: u16, x: int, y: int) -> bool {
    (mask[y * mask_stride(width) + x / 8] >> ((7 - x % 8) as u8)) & 1u8 == 1u8
}

/// Byte `k` of one pixel of the cursor as it is handed out, four bytes to
/// a pixel: the first three bytes of the pixel in the client's format and
/// 255 where the mask shows the pixel, four zeros where it does not. A
/// pixel of fewer than three bytes is filled up with zeros.
pub open spec fn shaped_byte(pixel: Seq<u8>, shows: bool, k: int) -> u8 {
    if !shows {
        0
    } else if k == 3 {
        255
    } else if k < pixel.len() {
        pixel[k]
    } else {
        0
    }
}

/// The cursor as it is handed out: four bytes for each pixel, row by row.
pub open spec fn shape(
    client: PixelFormat,
    server: PixelFormat,
    width: u16,
    height: u16,
    payload: Seq<u8>,
) -> Seq<u8> {
    let n = server.spec_bytes_per_pixel();
    let pixels = payload.subrange(0, width as int * height as int * n);
    let mask = payload.subrange(width as int * height as int * n, payload.len() as int);
    Seq::new(
        (4 * (width as int * height as int)) as nat,
        |i: int|
            shaped_byte(
                client.spec_translate(server, pixels.subrange((i / 4) * n, (i / 4) * n + n)),
                mask_shows(mask, width, (i / 4) % (width as int), (i / 4) / (width as int)),
                i % 4,
            ),
    )
}

/// What reading the shape of a cursor gives. The server's pixels have to
/// take one to four bytes each, and the payload has to be as long as
/// `cursor_length` says.
pub open spec fn spec_decode(
    client: PixelFormat,
    server: PixelFormat,
    width: u16,
    height: u16,
    payload: Seq<u8>,
) -> Result<Seq<u8>, VncErrorView> {
    let n = server.spec_bytes_per_pixel();
    if n < 1 || n > 4 || payload.len() != cursor_length(width, height, server) {
        Err(VncErrorView::Protocol)
    } else {
        Ok(shape(client, server, width, height, payload))
    }
}

/// How many bytes the shape of a cursor takes.
pub fn measure(width: u16, height: u16, format: &PixelFormat) -> (length: u64)
    ensures
        length == cursor_length(width, height, *format),
        length <= 65535 * 65535 * 32,
{
    let pixels = crate::codec::raw::measure(width, height, format);
    let stride: u64 = (width as u64 + 7) / 8;
    proof {
        crate::codec::raw::lemma_product_bound(stride as int, height as int, 8192, 65535);
    }
    let mask: u64 = stride * height as u64;
    pixels + mask
}

/// Reads the shape of a cursor.
pub fn decode(client: &PixelFormat, server: &PixelFormat, width: u16, height: u16, payload: &[u8])
    -> (res: Result<Vec<u8>, VncError>)
    ensures
        view_result(res) == spec_decode(*client, *server, width, height, payload@),
{
    let n = server.bytes_per_pixel();
    if n < 1 || n > 4 || payload.len() as u64 != measure(width, height, server) {
        return Err(VncError::Protocol);
    }
    let w = width as usize;
    let h = height as usize;
    let stride: usize = (w + 7) / 8;
    let ghost area = width as int * height as int;
    assert(payload@.len() == area * n + mask_stride(width) * height as int);
    assert(area >= 0 && mask_stride(width) * height as int >= 0) by (nonlinear_arith)
        requires
            area == width as int * height as int,
            mask_stride(width) >= 0,
    ;
    assert(area * n >= area) by (nonlinear_arith)
        requires
            area >= 0,
            n >= 1,
    ;
    proof {
        crate::codec::raw::lemma_product_bound(w as int, h as int, 65535, 65535);
    }
    let count: usize = w * h;
    let pixel_bytes: usize = count * n;
    let ghost pixels = payload@.subrange(0, area * n);
    let ghost mask = payload@.subrange(area * n, payload@.len() as int);
    let mut out: Vec<u8> = Vec::new();
    let mut y: usize = 0;
    while y < h
        invariant
            y <= h,
            w == width,
            h == height,
            n == server.spec_bytes_per_pixel(),
            1 <= n <= 4,
            stride == mask_stride(width),
            area == width as int * height as int,
            count == area,
            pixel_bytes == area * n,
            payload@.len() == area * n + stride * h,
            payload@.len() <= usize::MAX,
            pixels == payload@.subrange(0, area * n),
            mask == payload@.subrange(area * n, payload@.len() as int),
            out@.len() == 4 * (y * w),
            forall|i: int|
                0 <= i < 4 * (y * w) ==> out@[i] == shaped_byte(
                    client.spec_translate(*server, pixels.subrange((i / 4) * n, (i / 4) * n + n)),
                    mask_shows(mask, width, (i / 4) % (width as int), (i / 4) / (width as int)),
                    i % 4,
                ),
        decreases h - y,
    {
        let mut x: usize = 0;
        proof {
            lemma_row_bounds(y as int, w as int, h as int, 0);
            assert(stride * y + stride <= stride * h) by (nonlinear_arith)
                requires
                    y < h,
                    stride >= 0,
            ;
        }
        while x < w
            invariant
                x <= w,
                y < h,
                w == width,
                h == height,
                n == server.spec_bytes_per_pixel(),
                1 <= n <= 4,
                stride == mask_stride(width),
                area == width as int * height as int,
                count == area,
                pixel_bytes == area * n,
                payload@.len() == area * n + stride * h,
            payload@.len() <= usize::MAX,
                stride * y + stride <= stride * h,
                pixels == payload@.subrange(0, area * n),
                mask == payload@.subrange(area * n, payload@.len() as int),
                out@.len() == 4 * (y * w + x),
                forall|i: int|
                    0 <= i < 4 * (y * w + x) ==> out@[i] == shaped_byte(
                        client.spec_translate(
                            *server,
                            pixels.subrange((i / 4) * n, (i / 4) * n + n),
                        ),
                        mask_shows(mask, width, (i / 4) % (width as int), (i / 4) / (width as int)),
                        i % 4,
                    ),
            decreases w - x,
        {
            proof {
                lemma_row_bounds(y as int, w as int, h as int, x as int);
            }
            let index: usize = y * w + x;
            assert((index + 1) * n <= area * n) by (nonlinear_arith)
                requires
                    index + 1 <= area,
                    n >= 1,
            ;
            assert(index * n + n == (index + 1) * n) by (nonlinear_arith);
            let at: usize = index * n;
            let pixel = match crate::wire::read_bytes(payload, at, n) {
                Ok(pixel) => pixel,
                Err(e) => {
                    return Err(VncError::Protocol);
                },
            };
            assert(pixel@ =~= pixels.subrange(index * n, index * n + n));
            let mut translated: Vec<u8> = Vec::new();
            match client.translate(server, pixel.as_slice(), &mut translated) {
                Ok(()) => {},
                Err(e) => {
                    return Err(VncError::Protocol);
                },
            }
            assert(translated@ =~= client.spec_translate(*server, pixel@));
            assert(0 <= y * stride && y * stride + x / 8 < stride * h) by (nonlinear_arith)
                requires
                    stride * y + stride <= stride * h,
                    0 <= x / 8 < stride,
                    0 <= y,
            ;
            let mask_at: usize = pixel_bytes + y * stride + x / 8;
            let bits = payload[mask_at];
            assert(bits == mask[y * mask_stride(width) + x / 8]);
            let shows = (bits >> (7 - (x % 8) as u8)) & 1 == 1;
            assert(shows == mask_shows(mask, width, x as int, y as int));
            let ghost before = out@;
            let mut k: usize = 0;
            while k < 4
                invariant
                    k <= 4,
                    out@.len() == before.len() + k,
                    forall|i: int| 0 <= i < before.len() ==> out@[i] == before[i],
                    forall|j: int|
                        0 <= j < k ==> out@[before.len() + j] == shaped_byte(
                            translated@,
                            shows,
                            j,
                        ),
                decreases 4 - k,
            {
                let byte: u8 = if !shows {
                    0
                } else if k == 3 {
                    255
                } else if k < translated.len() {
                    translated[k]
                } else {
                    0
                };
                out.push(byte);
                k += 1;
            }
            assert forall|i: int| 0 <= i < 4 * (y * w + x + 1) implies out@[i] == shaped_byte(
                client.spec_translate(*server, pixels.subrange((i / 4) * n, (i / 4) * n + n)),
                mask_shows(mask, width, (i / 4) % (width as int), (i / 4) / (width as int)),
                i % 4,
            ) by {
                if i >= 4 * (y * w + x) {
                    let j = i - 4 * index;
                    assert(i == before.len() + j);
                    assert(i / 4 == index as int);
                    assert(i % 4 == j);
                    lemma_row_column(y as int, w as int, x as int);
                } else {
                    assert(out@[i] == before[i]);
                }
            }
            x += 1;
        }
        assert(y * w + w == (y + 1) * w) by (nonlinear_arith);
        y += 1;
    }
    assert(h * w == w * h) by (nonlinear_arith);
    assert(out@ =~= shape(*client, *server, width, height, payload@));
    Ok(out)
}

/// The pixel at column `x` of row `y` is one of the `w * h` pixels.
proof fn lemma_row_bounds(y: int, w: int, h: int, x: int)
    requires
        0 <= y < h,
        0 <= x <= w,
    ensures
        0 <= y * w,
        x < w ==> y * w + x + 1 <= w * h,
        y * w + w <= w * h,
{
    assert(0 <= y * w) by (nonlinear_arith)
        requires
            0 <= y,
            0 <= w,
    ;
    assert(y * w + w <= w * h) by (nonlinear_arith)
        requires
            y + 1 <= h,
            0 <= w,
    ;
}

/// Pixel `y * w + x` lies in row `y` at column `x`.
proof fn lemma_row_column(y: int, w: int, x: int)
    requires
        0 <= y,
        0 <= x < w,
    ensures
        (y * w + x) % w == x,
        (y * w + x) / w == y,
{
    vstd::arithmetic::div_mod::lemma_fundamental_div_mod_converse(y * w + x, w, y, x);
}

} // verus!
