//! The pixel format: how one pixel is laid out in the bytes of the wire.

use vstd::prelude::*;
use crate::error::{plain_result, VncError, VncErrorView};
use crate::wire::{spec_u16, u16_bytes};

verus! {

/// The layout of a pixel. On the wire it takes sixteen bytes: the ten
/// fields below in order, the three maxima as two bytes each, and three
/// bytes of padding.
#[derive(Debug, Clone, Copy, PartialEq, Eq, Structural)]
pub struct PixelFormat {
    /// How many bits a pixel takes on the wire: 8, 16 or 32.
    pub bits_per_pixel: u8,
    /// How many of those bits carry colour.
    pub depth: u8,
    /// Not zero if the most significant byte of a pixel comes first.
    pub big_endian_flag: u8,
    /// Not zero if a pixel holds its red, green and blue directly.
    pub true_color_flag: u8,
    /// The largest value of each channel.
    pub red_max: u16,
    pub green_max: u16,
    pub blue_max: u16,
    /// By how many bits each channel is shifted up inside the pixel.
    pub red_shift: u8,
    pub green_shift: u8,
    pub blue_shift: u8,
}

/// How many bits it takes to write `max`: none for 0, one for 1, two for 2 and 3.
pub open spec fn bits_of_max(max: int) -> int
    decreases max,
{
    if max <= 0 {
        0
    } else {
        1 + bits_of_max(max / 2)
    }
}

/// Whether two channels share no bit of the pixel. A channel without bits
/// shares none.
pub open spec fn channels_apart(max_a: int, shift_a: int, max_b: int, shift_b: int) -> bool {
    ||| max_a == 0
    ||| max_b == 0
    ||| shift_a + bits_of_max(max_a) <= shift_b
    ||| shift_b + bits_of_max(max_b) <= shift_a
}

/// The value of a pixel as a number: its bytes read in the given byte order.
pub open spec fn pixel_value(bytes: Seq<u8>, big_endian: bool) -> int
    decreases bytes.len(),
{
    if bytes.len() == 0 {
        0
    } else if big_endian {
        pixel_value(bytes.drop_last(), big_endian) * 256 + bytes.last() as int
    } else {
        bytes[0] as int + 256 * pixel_value(bytes.drop_first(), big_endian)
    }
}

/// The `count` low bytes of a number, written in the given byte order.
pub open spec fn value_bytes(value: int, count: int, big_endian: bool) -> Seq<u8>
    decreases count,
{
    if count <= 0 {
        Seq::empty()
    } else if big_endian {
        value_bytes(value / 256, count - 1, big_endian).push((value % 256) as u8)
    } else {
        seq![(value % 256) as u8] + value_bytes(value / 256, count - 1, big_endian)
    }
}

/// One channel of a pixel: the bits above `shift`, masked with `max`. A
/// shift past the pixel leaves nothing.
pub open spec fn channel_of(value: u32, max: u16, shift: u8) -> u32 {
    if shift >= 32 {
        0
    } else {
        (value >> (shift as u32)) & (max as u32)
    }
}

/// A channel's value on a scale that ends at `to_max` instead of `from_max`.
pub open spec fn rescale(channel: u32, from_max: u16, to_max: u16) -> u32 {
    if from_max == to_max {
        channel
    } else if from_max == 0 {
        0
    } else {
        ((channel as int * to_max as int) / (from_max as int)) as u32
    }
}

/// A channel's value moved up to its place in the pixel. A shift past the
/// pixel leaves nothing.
pub open spec fn channel_placed(channel: u32, shift: u8) -> u32 {
    if shift >= 32 {
        0
    } else {
        channel << (shift as u32)
    }
}

impl PixelFormat {
    /// The invariant of a pixel format: a pixel takes 8, 16 or 32 bits; no
    /// more bits carry colour than the pixel has; and with true colour the
    /// three channels lie inside the pixel and share no bit.
    pub open spec fn wf(self) -> bool {
        &&& (self.bits_per_pixel == 8 || self.bits_per_pixel == 16 || self.bits_per_pixel == 32)
        &&& self.depth <= self.bits_per_pixel
        &&& self.true_color_flag != 0 ==> {
            &&& self.red_shift + bits_of_max(self.red_max as int) <= self.bits_per_pixel
            &&& self.green_shift + bits_of_max(self.green_max as int) <= self.bits_per_pixel
            &&& self.blue_shift + bits_of_max(self.blue_max as int) <= self.bits_per_pixel
            &&& channels_apart(
                self.red_max as int,
                self.red_shift as int,
                self.green_max as int,
                self.green_shift as int,
            )
            &&& channels_apart(
                self.red_max as int,
                self.red_shift as int,
                self.blue_max as int,
                self.blue_shift as int,
            )
            &&& channels_apart(
                self.green_max as int,
                self.green_shift as int,
                self.blue_max as int,
                self.blue_shift as int,
            )
        }
    }

    /// How many bytes a pixel takes on the wire.
    pub open spec fn spec_bytes_per_pixel(self) -> int {
        self.bits_per_pixel as int / 8
    }

    /// The sixteen bytes of the format on the wire. The padding is zero.
    pub open spec fn spec_serialize(self) -> Seq<u8> {
        seq![self.bits_per_pixel, self.depth, self.big_endian_flag, self.true_color_flag]
            + u16_bytes(self.red_max as int) + u16_bytes(self.green_max as int) + u16_bytes(
            self.blue_max as int,
        ) + seq![self.red_shift, self.green_shift, self.blue_shift, 0u8, 0u8, 0u8]
    }

    /// The fields that sixteen bytes spell, whether or not they make a
    /// valid format. The padding is not looked at.
    pub open spec fn spec_fields(bytes: Seq<u8>) -> PixelFormat {
        PixelFormat {
            bits_per_pixel: bytes[0],
            depth: bytes[1],
            big_endian_flag: bytes[2],
            true_color_flag: bytes[3],
            red_max: spec_u16(bytes[4], bytes[5]) as u16,
            green_max: spec_u16(bytes[6], bytes[7]) as u16,
            blue_max: spec_u16(bytes[8], bytes[9]) as u16,
            red_shift: bytes[10],
            green_shift: bytes[11],
            blue_shift: bytes[12],
        }
    }

    /// The format that bytes of the wire stand for: their fields, if there
    /// are sixteen bytes and the fields keep the invariant.
    pub open spec fn spec_parse(bytes: Seq<u8>) -> Result<PixelFormat, VncErrorView> {
        if bytes.len() != 16 {
            Err(VncErrorView::Io)
        } else if !PixelFormat::spec_fields(bytes).wf() {
            Err(VncErrorView::Protocol)
        } else {
            Ok(PixelFormat::spec_fields(bytes))
        }
    }

    /// The pixel of this format that shows what `pixel` shows in the format
    /// `server`. Equal formats give the same bytes. Otherwise each channel
    /// is taken out of the server's pixel, brought to this format's scale
    /// and put at this format's place; the server's byte order governs
    /// both the reading and the writing.
    pub open spec fn spec_translate(self, server: PixelFormat, pixel: Seq<u8>) -> Seq<u8> {
        if server == self {
            pixel
        } else {
            let big_endian = server.big_endian_flag != 0;
            let value = pixel_value(pixel, big_endian) as u32;
            let red = rescale(
                channel_of(value, server.red_max, server.red_shift),
                server.red_max,
                self.red_max,
            );
            let green = rescale(
                channel_of(value, server.green_max, server.green_shift),
                server.green_max,
                self.green_max,
            );
            let blue = rescale(
                channel_of(value, server.blue_max, server.blue_shift),
                server.blue_max,
                self.blue_max,
            );
            let composed = channel_placed(red, self.red_shift) | channel_placed(
                green,
                self.green_shift,
            ) | channel_placed(blue, self.blue_shift);
            value_bytes(composed as int, self.spec_bytes_per_pixel(), big_endian)
        }
    }

    /// The preset with blue in the lowest byte: 32 bits per pixel, depth
    /// 24, little-endian, true colour, each channel up to 255, blue at bit
    /// 0, green at bit 8, red at bit 16.
    pub fn bgra() -> (format: PixelFormat)
        ensures
            format == (PixelFormat {
                bits_per_pixel: 32,
                depth: 24,
                big_endian_flag: 0,
                true_color_flag: 1,
                red_max: 255,
                green_max: 255,
                blue_max: 255,
                red_shift: 16,
                green_shift: 8,
                blue_shift: 0,
            }),
            format.wf(),
    {
        proof {
            lemma_bits_of_255();
        }
        PixelFormat {
            bits_per_pixel: 32,
            depth: 24,
            big_endian_flag: 0,
            true_color_flag: 1,
            red_max: 255,
            green_max: 255,
            blue_max: 255,
            red_shift: 16,
            green_shift: 8,
            blue_shift: 0,
        }
    }

    /// The preset with red in the lowest byte: as `bgra`, with red at bit 0
    /// and blue at bit 16.
    pub fn rgba() -> (format: PixelFormat)
        ensures
            format == (PixelFormat {
                bits_per_pixel: 32,
                depth: 24,
                big_endian_flag: 0,
                true_color_flag: 1,
                red_max: 255,
                green_max: 255,
                blue_max: 255,
                red_shift: 0,
                green_shift: 8,
                blue_shift: 16,
            }),
            format.wf(),
    {
        proof {
            lemma_bits_of_255();
        }
        PixelFormat {
            bits_per_pixel: 32,
            depth: 24,
            big_endian_flag: 0,
            true_color_flag: 1,
            red_max: 255,
            green_max: 255,
            blue_max: 255,
            red_shift: 0,
            green_shift: 8,
            blue_shift: 16,
        }
    }

    /// How many bytes a pixel takes on the wire.
    pub fn bytes_per_pixel(&self) -> (count: usize)
        ensures
            count == self.spec_bytes_per_pixel(),
    {
        (self.bits_per_pixel / 8) as usize
    }

    /// Whether the format keeps its invariant.
    pub fn is_valid(&self) -> (valid: bool)
        ensures
            valid == self.wf(),
    {
        let bpp = self.bits_per_pixel;
        if !(bpp == 8 || bpp == 16 || bpp == 32) {
            return false;
        }
        if self.depth > bpp {
            return false;
        }
        if self.true_color_flag == 0 {
            return true;
        }
        let red = channel_bits(self.red_max);
        let green = channel_bits(self.green_max);
        let blue = channel_bits(self.blue_max);
        let inside = self.red_shift as u16 + red as u16 <= bpp as u16 && self.green_shift as u16
            + green as u16 <= bpp as u16 && self.blue_shift as u16 + blue as u16 <= bpp as u16;
        inside && apart(self.red_max, self.red_shift, self.green_max, self.green_shift) && apart(
            self.red_max,
            self.red_shift,
            self.blue_max,
            self.blue_shift,
        ) && apart(self.green_max, self.green_shift, self.blue_max, self.blue_shift)
    }

    /// The sixteen bytes of the format on the wire.
    pub fn serialize(&self) -> (bytes: Vec<u8>)
        ensures
            bytes@ == self.spec_serialize(),
    {
        let mut bytes: Vec<u8> = Vec::new();
        bytes.push(self.bits_per_pixel);
        bytes.push(self.depth);
        bytes.push(self.big_endian_flag);
        bytes.push(self.true_color_flag);
        crate::wire::write_u16(&mut bytes, self.red_max);
        crate::wire::write_u16(&mut bytes, self.green_max);
        crate::wire::write_u16(&mut bytes, self.blue_max);
        bytes.push(self.red_shift);
        bytes.push(self.green_shift);
        bytes.push(self.blue_shift);
        bytes.push(0);
        bytes.push(0);
        bytes.push(0);
        assert(bytes@ =~= self.spec_serialize());
        bytes
    }

    /// Reads a format from its sixteen bytes. Any other number of bytes
    /// fails with `Io`, fields that break the invariant with `Protocol`.
    pub fn parse(bytes: &[u8]) -> (res: Result<PixelFormat, VncError>)
        ensures
            plain_result(res) == PixelFormat::spec_parse(bytes@),
    {
        if bytes.len() != 16 {
            return Err(VncError::Io);
        }
        let format = PixelFormat {
            bits_per_pixel: bytes[0],
            depth: bytes[1],
            big_endian_flag: bytes[2],
            true_color_flag: bytes[3],
            red_max: bytes[4] as u16 * 256 + bytes[5] as u16,
            green_max: bytes[6] as u16 * 256 + bytes[7] as u16,
            blue_max: bytes[8] as u16 * 256 + bytes[9] as u16,
            red_shift: bytes[10],
            green_shift: bytes[11],
            blue_shift: bytes[12],
        };
        if format.is_valid() {
            Ok(format)
        } else {
            Err(VncError::Protocol)
        }
    }

    /// Appends to `out` the pixel of this format that shows what `pixel`
    /// shows in the format `server`. Fails with `Protocol`, and appends
    /// nothing, unless `pixel` is one pixel of the server's format of at
    /// most four bytes.
    pub fn translate(&self, server: &PixelFormat, pixel: &[u8], out: &mut Vec<u8>) -> (res: Result<
        (),
        VncError,
    >)
        ensures
            pixel@.len() == server.spec_bytes_per_pixel() && pixel@.len() <= 4 ==> res is Ok
                && final(out)@ == old(out)@ + self.spec_translate(*server, pixel@),
            !(pixel@.len() == server.spec_bytes_per_pixel() && pixel@.len() <= 4) ==> res
                == Err::<(), VncError>(VncError::Protocol) && final(out)@ == old(out)@,
    {
        if pixel.len() != server.bytes_per_pixel() || pixel.len() > 4 {
            return Err(VncError::Protocol);
        }
        if server.same_as(self) {
            crate::wire::write_bytes(out, pixel);
            return Ok(());
        }
        let big_endian = server.big_endian_flag != 0;
        let value = read_value(pixel, big_endian);
        let red = scale(
            channel(value, server.red_max, server.red_shift),
            server.red_max,
            self.red_max,
        );
        let green = scale(
            channel(value, server.green_max, server.green_shift),
            server.green_max,
            self.green_max,
        );
        let blue = scale(
            channel(value, server.blue_max, server.blue_shift),
            server.blue_max,
            self.blue_max,
        );
        let composed = place(red, self.red_shift) | place(green, self.green_shift) | place(
            blue,
            self.blue_shift,
        );
        write_value(out, composed, self.bytes_per_pixel(), big_endian);
        Ok(())
    }

    /// Whether two formats have the same fields.
    pub fn same_as(&self, other: &PixelFormat) -> (same: bool)
        ensures
            same == (*self == *other),
    {
        self.bits_per_pixel == other.bits_per_pixel && self.depth == other.depth
            && self.big_endian_flag == other.big_endian_flag && self.true_color_flag
            == other.true_color_flag && self.red_max == other.red_max && self.green_max
            == other.green_max && self.blue_max == other.blue_max && self.red_shift
            == other.red_shift && self.green_shift == other.green_shift && self.blue_shift
            == other.blue_shift
    }
}

/// How many bits it takes to write `max`.
fn channel_bits(max: u16) -> (bits: u8)
    ensures
        bits == bits_of_max(max as int),
        bits <= 16,
{
    let mut rest: u16 = max;
    let mut bits: u8 = 0;
    proof {
        lemma_pow2_bytes();
        lemma_bits_bound(max as int, 16);
    }
    while rest > 0
        invariant
            bits_of_max(max as int) == bits + bits_of_max(rest as int),
            bits_of_max(max as int) <= 16,
            bits_of_max(rest as int) >= 0,
        decreases rest,
    {
        proof {
            lemma_pow2_bytes();
            lemma_bits_bound(rest as int / 2, 16);
        }
        rest = rest / 2;
        bits += 1;
    }
    bits
}

/// A number below two to the `n` takes at most `n` bits.
proof fn lemma_bits_bound(x: int, n: nat)
    requires
        x < pow2(n),
    ensures
        0 <= bits_of_max(x) <= n,
    decreases n,
{
    if x > 0 {
        if n > 0 {
            lemma_bits_bound(x / 2, (n - 1) as nat);
        }
    }
}

/// Two to the power of `n`.
pub open spec fn pow2(n: nat) -> int
    decreases n,
{
    if n == 0 {
        1
    } else {
        2 * pow2((n - 1) as nat)
    }
}

/// The largest channel value of the presets takes eight bits.
pub proof fn lemma_bits_of_255()
    ensures
        bits_of_max(255) == 8,
{
    reveal_with_fuel(bits_of_max, 10);
}

/// Whether two channels share no bit of the pixel.
fn apart(max_a: u16, shift_a: u8, max_b: u16, shift_b: u8) -> (res: bool)
    ensures
        res == channels_apart(max_a as int, shift_a as int, max_b as int, shift_b as int),
{
    if max_a == 0 || max_b == 0 {
        return true;
    }
    let end_a = shift_a as u16 + channel_bits(max_a) as u16;
    let end_b = shift_b as u16 + channel_bits(max_b) as u16;
    end_a <= shift_b as u16 || end_b <= shift_a as u16
}

/// The value of a pixel as a number.
pub(crate) fn read_value(pixel: &[u8], big_endian: bool) -> (value: u32)
    requires
        pixel@.len() <= 4,
    ensures
        value == pixel_value(pixel@, big_endian),
{
    let mut value: u32 = 0;
    let n = pixel.len();
    let mut i: usize = 0;
    if big_endian {
        while i < n
            invariant
                i <= n,
                n == pixel@.len(),
                n <= 4,
                value == pixel_value(pixel@.subrange(0, i as int), true),
                value < pow2((8 * i) as nat),
            decreases n - i,
        {
            proof {
                let upto = pixel@.subrange(0, i + 1);
                assert(upto.drop_last() =~= pixel@.subrange(0, i as int));
                lemma_pow2_bytes();
            }
            value = value * 256 + pixel[i] as u32;
            i += 1;
        }
        assert(pixel@.subrange(0, n as int) =~= pixel@);
    } else {
        while i < n
            invariant
                i <= n,
                n == pixel@.len(),
                n <= 4,
                value == pixel_value(pixel@.subrange(n - i, n as int), false),
                value < pow2((8 * i) as nat),
            decreases n - i,
        {
            proof {
                let from = pixel@.subrange(n - i - 1, n as int);
                assert(from.drop_first() =~= pixel@.subrange(n - i, n as int));
                lemma_pow2_bytes();
            }
            value = pixel[n - i - 1] as u32 + 256 * value;
            i += 1;
        }
        assert(pixel@.subrange(0, n as int) =~= pixel@);
    }
    value
}

proof fn lemma_pow2_bytes()
    ensures
        pow2(0) == 1,
        pow2(8) == 0x100,
        pow2(16) == 0x1_0000,
        pow2(24) == 0x100_0000,
        pow2(32) == 0x1_0000_0000,
{
    reveal_with_fuel(pow2, 33);
}

/// Appends the `count` low bytes of `value` in the given byte order.
pub(crate) fn write_value(out: &mut Vec<u8>, value: u32, count: usize, big_endian: bool)
    ensures
        final(out)@ == old(out)@ + value_bytes(value as int, count as int, big_endian),
{
    // The bytes from the least significant up.
    let mut low_first: Vec<u8> = Vec::new();
    let mut rest: u32 = value;
    let mut i: usize = 0;
    while i < count
        invariant
            i <= count,
            low_first@.len() == i,
            value_bytes(value as int, count as int, false) == low_first@ + value_bytes(
                rest as int,
                count - i,
                false,
            ),
            value_bytes(value as int, count as int, true) == value_bytes(
                rest as int,
                count - i,
                true,
            ) + low_first@.reverse(),
        decreases count - i,
    {
        let ghost before = low_first@;
        low_first.push((rest % 256) as u8);
        proof {
            let tail_le = value_bytes(rest as int / 256, count - i - 1, false);
            let tail_be = value_bytes(rest as int / 256, count - i - 1, true);
            let byte = (rest % 256) as u8;
            assert(before + (seq![byte] + tail_le) =~= before.push(byte) + tail_le);
            assert(before.push(byte).reverse() =~= seq![byte] + before.reverse());
            assert(tail_be.push(byte) + before.reverse() =~= tail_be + (seq![byte]
                + before.reverse()));
        }
        rest = rest / 256;
        i += 1;
    }
    assert(value_bytes(rest as int, 0, false) =~= Seq::<u8>::empty());
    assert(value_bytes(rest as int, 0, true) =~= Seq::<u8>::empty());
    assert(low_first@ + Seq::<u8>::empty() =~= low_first@);
    assert(Seq::<u8>::empty() + low_first@.reverse() =~= low_first@.reverse());
    if big_endian {
        let mut j: usize = count;
        while j > 0
            invariant
                j <= count,
                low_first@.len() == count,
                out@ == old(out)@ + low_first@.reverse().subrange(0, count - j),
            decreases j,
        {
            j -= 1;
            out.push(low_first[j]);
            assert(out@ =~= old(out)@ + low_first@.reverse().subrange(0, count - j));
        }
        assert(low_first@.reverse().subrange(0, count as int) =~= low_first@.reverse());
    } else {
        crate::wire::write_bytes(out, low_first.as_slice());
    }
}

/// One channel of a pixel.
pub(crate) fn channel(value: u32, max: u16, shift: u8) -> (c: u32)
    ensures
        c == channel_of(value, max, shift),
        c <= max,
{
    if shift >= 32 {
        0
    } else {
        let c = (value >> (shift as u32)) & (max as u32);
        assert(((value >> (shift as u32)) & (max as u32)) <= max as u32) by (bit_vector);
        c
    }
}

/// A channel's value on another scale.
fn scale(c: u32, from_max: u16, to_max: u16) -> (scaled: u32)
    requires
        c <= from_max,
    ensures
        scaled == rescale(c, from_max, to_max),
{
    if from_max == to_max {
        c
    } else if from_max == 0 {
        0
    } else {
        assert(c as int * to_max as int <= 65535 * 65535) by (nonlinear_arith)
            requires
                c <= 65535,
                to_max <= 65535,
        ;
        let product: u64 = c as u64 * to_max as u64;
        let scaled = product / (from_max as u64);
        assert(scaled <= product);
        scaled as u32
    }
}

/// A channel's value moved up to its place in the pixel.
pub(crate) fn place(c: u32, shift: u8) -> (placed: u32)
    ensures
        placed == channel_placed(c, shift),
{
    if shift >= 32 {
        0
    } else {
        c << (shift as u32)
    }
}

/// A valid format is read back from its own bytes.
pub proof fn lemma_parse_serialize(format: PixelFormat)
    requires
        format.wf(),
    ensures
        format.spec_serialize().len() == 16,
        PixelFormat::spec_parse(format.spec_serialize()) == Ok::<PixelFormat, VncErrorView>(
            format,
        ),
{
    crate::wire::lemma_u16_round_trip(format.red_max);
    crate::wire::lemma_u16_round_trip(format.green_max);
    crate::wire::lemma_u16_round_trip(format.blue_max);
    let bytes = format.spec_serialize();
    assert(PixelFormat::spec_fields(bytes) == format);
}

/// Bytes that are read as a format are that format's bytes, but for the padding.
pub proof fn lemma_serialize_parse(bytes: Seq<u8>)
    requires
        PixelFormat::spec_parse(bytes) is Ok,
    ensures
        PixelFormat::spec_parse(bytes)->Ok_0.spec_serialize() == bytes.subrange(0, 13) + seq![
            0u8,
            0u8,
            0u8,
        ],
{
    crate::wire::lemma_u16_bytes_of_read(bytes[4], bytes[5]);
    crate::wire::lemma_u16_bytes_of_read(bytes[6], bytes[7]);
    crate::wire::lemma_u16_bytes_of_read(bytes[8], bytes[9]);
    let format = PixelFormat::spec_parse(bytes)->Ok_0;
    assert(format.spec_serialize() =~= bytes.subrange(0, 13) + seq![0u8, 0u8, 0u8]);
}

/// The low bytes of a number are as many as were asked for.
pub proof fn lemma_value_bytes_len(value: int, count: int, big_endian: bool)
    ensures
        value_bytes(value, count, big_endian).len() == if count > 0 {
            count
        } else {
            0
        },
    decreases count,
{
    if count > 0 {
        lemma_value_bytes_len(value / 256, count - 1, big_endian);
    }
}

/// A translated pixel takes the bytes of a pixel of the client's format.
pub proof fn lemma_translate_len(client: PixelFormat, server: PixelFormat, pixel: Seq<u8>)
    requires
        pixel.len() == server.spec_bytes_per_pixel(),
    ensures
        client.spec_translate(server, pixel).len() == client.spec_bytes_per_pixel(),
{
    if server != client {
        let big_endian = server.big_endian_flag != 0;
        let value = pixel_value(pixel, big_endian) as u32;
        let red = rescale(
            channel_of(value, server.red_max, server.red_shift),
            server.red_max,
            client.red_max,
        );
        let green = rescale(
            channel_of(value, server.green_max, server.green_shift),
            server.green_max,
            client.green_max,
        );
        let blue = rescale(
            channel_of(value, server.blue_max, server.blue_shift),
            server.blue_max,
            client.blue_max,
        );
        let composed = channel_placed(red, client.red_shift) | channel_placed(
            green,
            client.green_shift,
        ) | channel_placed(blue, client.blue_shift);
        lemma_value_bytes_len(composed as int, client.spec_bytes_per_pixel(), big_endian);
    }
}

/// Translating a pixel into the format that it already has copies it.
pub proof fn lemma_translate_identity(format: PixelFormat, pixel: Seq<u8>)
    ensures
        format.spec_translate(format, pixel) == pixel,
{
}

} // verus!
