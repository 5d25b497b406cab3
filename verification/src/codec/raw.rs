//! Raw pixels: a rectangle's pixels row by row, each in the server's format.

use vstd::prelude::*;
use crate::error::{view_result, VncError, VncErrorView};
use crate::protocol::pixel_format::PixelFormat;

verus! {

/// A run of whole pixels of the server's format, each translated into the
/// client's format, in order.
pub open spec fn translate_all(client: PixelFormat, server: PixelFormat, data: Seq<u8>) -> Seq<u8>
    decreases data.len(),
{
    let n = server.spec_bytes_per_pixel();
    if n <= 0 || data.len() < n {
        Seq::empty()
    } else {
        translate_all(client, server, data.subrange(0, data.len() - n)) + client.spec_translate(
            server,
            data.subrange(data.len() - n, data.len() as int),
        )
    }
}

/// What translating a run of pixels gives. The server's pixels have to take
/// one to four bytes each, and the data has to hold whole pixels.
pub open spec fn spec_translate_pixels(client: PixelFormat, server: PixelFormat, data: Seq<u8>)
    -> Result<Seq<u8>, VncErrorView> {
    let n = server.spec_bytes_per_pixel();
    if n < 1 || n > 4 || data.len() as int % n != 0 {
        Err(VncErrorView::Protocol)
    } else {
        Ok(translate_all(client, server, data))
    }
}

/// How many bytes the raw pixels of a rectangle take in the given format.
pub open spec fn raw_length(width: u16, height: u16, format: PixelFormat) -> int {
    width as int * height as int * format.spec_bytes_per_pixel()
}

/// How many bytes the raw pixels of a rectangle take in the given format.
pub fn measure(width: u16, height: u16, format: &PixelFormat) -> (length: u64)
    ensures
        length == raw_length(width, height, *format),
        length <= 65535 * 65535 * 31,
{
    proof {
        lemma_product_bound(width as int, height as int, 65535, 65535);
    }
    let area: u64 = width as u64 * height as u64;
    let each = format.bytes_per_pixel() as u64;
    proof {
        lemma_product_bound(area as int, each as int, 4294836225, 31);
    }
    area * each
}

/// Translates a run of pixels from the server's format into the client's.
/// Equal formats copy the bytes as they are.
pub fn translate_pixels(client: &PixelFormat, server: &PixelFormat, data: &[u8]) -> (res: Result<
    Vec<u8>,
    VncError,
>)
    ensures
        view_result(res) == spec_translate_pixels(*client, *server, data@),
{
    let n = server.bytes_per_pixel();
    if n < 1 || n > 4 || data.len() % n != 0 {
        return Err(VncError::Protocol);
    }
    let mut out: Vec<u8> = Vec::new();
    if server.same_as(client) {
        crate::wire::write_bytes(&mut out, data);
        proof {
            lemma_translate_all_identity(*client, data@);
            assert(out@ =~= data@);
        }
        return Ok(out);
    }
    let total = data.len();
    let mut at: usize = 0;
    assert(data@.subrange(0, 0) =~= Seq::<u8>::empty());
    while at < total
        invariant
            at <= total,
            total == data@.len(),
            n == server.spec_bytes_per_pixel(),
            1 <= n <= 4,
            total % n == 0,
            at % n == 0,
            out@ == translate_all(*client, *server, data@.subrange(0, at as int)),
        decreases total - at,
    {
        proof {
            lemma_step_within(at as int, total as int, n as int);
        }
        let pixel = match crate::wire::read_bytes(data, at, n) {
            Ok(pixel) => pixel,
            Err(e) => {
                return Err(VncError::Protocol);
            },
        };
        let ghost before = out@;
        match client.translate(server, pixel.as_slice(), &mut out) {
            Ok(()) => {},
            Err(e) => {
                return Err(VncError::Protocol);
            },
        }
        proof {
            let upto = data@.subrange(0, at + n);
            assert(upto.subrange(0, upto.len() - n) =~= data@.subrange(0, at as int));
            assert(upto.subrange(upto.len() - n, upto.len() as int) =~= pixel@);
        }
        at += n;
    }
    assert(data@.subrange(0, total as int) =~= data@);
    Ok(out)
}

/// A product of two bounded numbers is bounded by the product of the bounds.
pub proof fn lemma_product_bound(a: int, b: int, most_a: int, most_b: int)
    requires
        0 <= a <= most_a,
        0 <= b <= most_b,
    ensures
        0 <= a * b <= most_a * most_b,
{
    assert(0 <= a * b <= most_a * most_b) by (nonlinear_arith)
        requires
            0 <= a <= most_a,
            0 <= b <= most_b,
    ;
}

/// A multiple of `n` below another multiple of `n` is at least `n` below it.
pub proof fn lemma_step_within(at: int, total: int, n: int)
    requires
        0 <= at < total,
        n > 0,
        at % n == 0,
        total % n == 0,
    ensures
        at + n <= total,
        (at + n) % n == 0,
{
    vstd::arithmetic::div_mod::lemma_fundamental_div_mod(at, n);
    vstd::arithmetic::div_mod::lemma_fundamental_div_mod(total, n);
    let a = at / n;
    let t = total / n;
    assert(at == n * a);
    assert(total == n * t);
    assert(a < t) by (nonlinear_arith)
        requires
            n * a < n * t,
            n > 0,
    ;
    assert(n * (a + 1) <= n * t) by (nonlinear_arith)
        requires
            a + 1 <= t,
            n > 0,
    ;
    assert(n * (a + 1) == n * a + n) by (nonlinear_arith);
    vstd::arithmetic::div_mod::lemma_mod_multiples_basic(a + 1, n);
    assert((a + 1) * n == n * (a + 1)) by (nonlinear_arith);
}

/// One more than a number, times another, is the product and the other.
pub proof fn lemma_product_step(count: int, unit: int)
    ensures
        (count + 1) * unit == count * unit + unit,
        (count - 1) * unit == count * unit - unit,
        0 * unit == 0,
{
    assert((count + 1) * unit == count * unit + unit) by (nonlinear_arith);
    assert((count - 1) * unit == count * unit - unit) by (nonlinear_arith);
}

/// A run of `count` pixels of the server's format becomes a run of
/// `count` pixels of the client's.
pub proof fn lemma_translate_all_len(
    client: PixelFormat,
    server: PixelFormat,
    data: Seq<u8>,
    count: int,
)
    requires
        count >= 0,
        server.spec_bytes_per_pixel() >= 1,
        data.len() == count * server.spec_bytes_per_pixel(),
    ensures
        translate_all(client, server, data).len() == count * client.spec_bytes_per_pixel(),
    decreases count,
{
    let n = server.spec_bytes_per_pixel();
    lemma_product_step(count, n);
    lemma_product_step(count, client.spec_bytes_per_pixel());
    if count == 0 {
    } else {
        assert(count * n >= n) by (nonlinear_arith)
            requires
                count >= 1,
                n >= 1,
        ;
        let head = data.subrange(0, data.len() - n);
        lemma_translate_all_len(client, server, head, count - 1);
        crate::protocol::pixel_format::lemma_translate_len(
            client,
            server,
            data.subrange(data.len() - n, data.len() as int),
        );
    }
}

/// Translating whole pixels into the format that they already have copies them.
pub proof fn lemma_translate_all_identity(format: PixelFormat, data: Seq<u8>)
    requires
        format.spec_bytes_per_pixel() >= 1,
        data.len() as int % format.spec_bytes_per_pixel() == 0,
    ensures
        translate_all(format, format, data) == data,
    decreases data.len(),
{
    let n = format.spec_bytes_per_pixel();
    if data.len() < n {
        assert(data.len() == 0) by {
            vstd::arithmetic::div_mod::lemma_small_mod(data.len(), n as nat);
        }
        assert(data =~= Seq::<u8>::empty());
    } else {
        let head = data.subrange(0, data.len() - n);
        assert(head.len() as int % n == 0) by {
            vstd::arithmetic::div_mod::lemma_mod_sub_multiples_vanish(data.len() as int, n);
        }
        lemma_translate_all_identity(format, head);
        assert(head + data.subrange(data.len() - n, data.len() as int) =~= data);
    }
}

} // verus!
