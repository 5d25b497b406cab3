//! The zlib streams of a connection. Each stream lives as long as the
//! connection does: what one rectangle left in it, the next one builds on.

use vstd::prelude::*;

verus! {

/// The state of a zlib stream that is being decompressed, as the zlib
/// library keeps it: `flate2::Decompress`. Nothing inside it is known here.
#[verifier::external_type_specification]
#[verifier::external_body]
pub struct ExDecompress(flate2::Decompress);

/// The state of a decompressor that has been fed nothing yet: what
/// `flate2::Decompress::new` makes, for a stream with a zlib header at its
/// start or for one without.
pub uninterp spec fn fresh_stream(zlib_header: bool) -> flate2::Decompress;

/// Makes a decompressor. This is `flate2::Decompress::new`, which builds
/// the state from its argument alone: what it gives is the fresh state
/// that goes by that name here.
#[verifier::external_body]
fn new_stream(zlib_header: bool) -> (stream: flate2::Decompress)
    ensures
        stream == fresh_stream(zlib_header),
{
    flate2::Decompress::new(zlib_header)
}

/// How many bytes of input a decompressor has taken since it was made.
/// This is `flate2::Decompress::total_in`; nothing is claimed of the number.
#[verifier::external_body]
fn total_in(stream: &flate2::Decompress) -> (taken: u64) {
    stream.total_in()
}

/// Feeds `input` to a decompressor once and gives the buffer back with
/// what the decompressor wrote into the room that it had left. This is
/// `flate2::Decompress::decompress_vec` with a sync flush. `None` says that
/// the decompressor found the input corrupt. Nothing is claimed of what
/// was written, nor of how much of the input was taken.
#[verifier::external_body]
fn decompress(stream: &mut flate2::Decompress, input: &[u8], buffer: Vec<u8>) -> (written: Option<
    Vec<u8>,
>) {
    let mut output = buffer;
    match stream.decompress_vec(input, &mut output, flate2::FlushDecompress::Sync) {
        Ok(_) => Some(output),
        Err(_) => None,
    }
}

/// The most that one call of the decompressor is given room for.
pub const STEP: usize = 0x1_0000;

/// What one call of the decompressor comes to.
#[derive(Debug, Clone, Copy, PartialEq, Eq, Structural)]
pub enum Turn {
    /// The decompression has failed.
    Refused,
    /// The decompression is over: all of the input is taken, and nothing
    /// more is written.
    Finished,
    /// The decompression goes on at this offset of the input.
    Fed { at: usize },
}

/// What one call of the decompressor comes to, given what it reported.
/// The call had the input from offset `at` to offset `end`; the
/// decompressor's count of input stood at `before` ahead of the call and
/// at `after` behind it; the call wrote `written` bytes, of which `left`
/// more are allowed. A count that went down, a count that went up by
/// more than the input held, and more bytes than are allowed fail the
/// decompression. A call that took nothing and wrote nothing ends it: well
/// if no input is left, else as a failure. Any other call moves on by
/// what it took.
pub open spec fn spec_turn(at: int, end: int, left: int, before: int, after: int, written: int)
    -> Turn {
    if at > end || after < before || after - before > end - at || written > left {
        Turn::Refused
    } else if after == before && written == 0 {
        if at == end {
            Turn::Finished
        } else {
            Turn::Refused
        }
    } else {
        Turn::Fed { at: (at + (after - before)) as usize }
    }
}

/// Takes what one call of the decompressor reported and wrote, and says
/// what it comes to. Where the decompression goes on, what was written
/// joins `out`; else `out` stays as it is.
pub fn absorb(
    out: &mut Vec<u8>,
    at: usize,
    end: usize,
    limit: usize,
    before: u64,
    after: u64,
    written: &Vec<u8>,
) -> (turn: Turn)
    ensures
        old(out)@.len() <= limit ==> turn == spec_turn(
            at as int,
            end as int,
            limit - old(out)@.len(),
            before as int,
            after as int,
            written@.len() as int,
        ),
        old(out)@.len() > limit ==> turn == Turn::Refused,
        turn is Fed ==> final(out)@ == old(out)@ + written@,
        !(turn is Fed) ==> final(out)@ == old(out)@,
{
    if out.len() > limit || at > end {
        return Turn::Refused;
    }
    let left = limit - out.len();
    if after < before || after - before > (end - at) as u64 || written.len() > left {
        return Turn::Refused;
    }
    if after == before && written.len() == 0 {
        if at == end {
            return Turn::Finished;
        }
        return Turn::Refused;
    }
    crate::wire::write_bytes(out, written.as_slice());
    Turn::Fed { at: at + (after - before) as usize }
}

/// Feeds the whole of `chunk` to a decompressor and gathers what it
/// writes, for as long as it takes input or writes output; `absorb` says
/// what each call comes to. `None` says that the input is corrupt, that
/// the decompressor left some of it untouched, or that it wrote more than
/// `limit` bytes. A chunk without bytes gives no bytes, and the
/// decompressor is not asked.
pub fn inflate(stream: &mut flate2::Decompress, chunk: &[u8], limit: usize) -> (res: Option<
    Vec<u8>,
>)
    ensures
        chunk@.len() == 0 ==> (res matches Some(out) && out@.len() == 0) && *final(stream)
            == *old(stream),
        res matches Some(out) ==> out@.len() <= limit,
{
    let mut out: Vec<u8> = Vec::new();
    let mut at: usize = 0;
    let end = chunk.len();
    if end == 0 {
        return Some(out);
    }
    loop
        invariant
            at <= end,
            0 < end == chunk@.len(),
            out@.len() <= limit,
        decreases (end - at) + (limit - out@.len()),
    {
        let ghost gathered = out@;
        let left = limit - out.len();
        let room: usize = if left < STEP {
            left + 1
        } else {
            STEP
        };
        let before = total_in(stream);
        let rest = vstd::slice::slice_subrange(chunk, at, end);
        let written = match decompress(stream, rest, Vec::with_capacity(room)) {
            Some(written) => written,
            None => {
                return None;
            },
        };
        let after = total_in(stream);
        let turn = absorb(&mut out, at, end, limit, before, after, &written);
        assert(turn == spec_turn(
            at as int,
            end as int,
            left as int,
            before as int,
            after as int,
            written@.len() as int,
        ));
        match turn {
            Turn::Refused => {
                return None;
            },
            Turn::Finished => {
                return Some(out);
            },
            Turn::Fed { at: next } => {
                assert(written@.len() <= left);
                assert(after > before || written@.len() > 0);
                at = next;
            },
        }
    }
}

/// The zlib streams of a connection: four for the Tight encoding, which
/// names the one that a rectangle uses, and one for ZRLE.
#[derive(Debug)]
pub struct Streams {
    pub tight0: flate2::Decompress,
    pub tight1: flate2::Decompress,
    pub tight2: flate2::Decompress,
    pub tight3: flate2::Decompress,
    pub zrle: flate2::Decompress,
}

/// The number under which `Streams` knows the stream of ZRLE.
pub const ZRLE_STREAM: u8 = 4;

impl Streams {
    /// The five streams as they are when a connection begins: each expects
    /// a zlib header and has been fed nothing.
    pub open spec fn fresh() -> Streams {
        Streams {
            tight0: fresh_stream(true),
            tight1: fresh_stream(true),
            tight2: fresh_stream(true),
            tight3: fresh_stream(true),
            zrle: fresh_stream(true),
        }
    }

    /// The streams after those of the Tight encoding that `mask` names have
    /// been put back to their start: bit 0 names stream 0, and so on to bit
    /// 3. The streams that it does not name, and the stream of ZRLE, stay
    /// as they are.
    pub open spec fn after_reset(self, mask: u8) -> Streams {
        Streams {
            tight0: if mask & 1 != 0 {
                fresh_stream(true)
            } else {
                self.tight0
            },
            tight1: if mask & 2 != 0 {
                fresh_stream(true)
            } else {
                self.tight1
            },
            tight2: if mask & 4 != 0 {
                fresh_stream(true)
            } else {
                self.tight2
            },
            tight3: if mask & 8 != 0 {
                fresh_stream(true)
            } else {
                self.tight3
            },
            zrle: self.zrle,
        }
    }

    /// Whether these streams are the given ones but for the stream of the
    /// given number: 0 to 3 for the streams of the Tight encoding, and any
    /// other for ZRLE's.
    pub open spec fn same_but(self, other: Streams, stream: u8) -> bool {
        &&& stream != 0 ==> self.tight0 == other.tight0
        &&& stream != 1 ==> self.tight1 == other.tight1
        &&& stream != 2 ==> self.tight2 == other.tight2
        &&& stream != 3 ==> self.tight3 == other.tight3
        &&& stream < 4 ==> self.zrle == other.zrle
    }

    /// Five streams at their start.
    pub fn new() -> (streams: Streams)
        ensures
            streams == Streams::fresh(),
    {
        Streams {
            tight0: new_stream(true),
            tight1: new_stream(true),
            tight2: new_stream(true),
            tight3: new_stream(true),
            zrle: new_stream(true),
        }
    }

    /// Puts the streams of the Tight encoding that `mask` names back to
    /// their start: bit 0 names stream 0, and so on to bit 3.
    pub fn reset(&mut self, mask: u8)
        ensures
            *final(self) == old(self).after_reset(mask),
    {
        if mask & 1 != 0 {
            self.tight0 = new_stream(true);
        }
        if mask & 2 != 0 {
            self.tight1 = new_stream(true);
        }
        if mask & 4 != 0 {
            self.tight2 = new_stream(true);
        }
        if mask & 8 != 0 {
            self.tight3 = new_stream(true);
        }
    }

    /// Decompresses `chunk` with the stream of the given number: 0 to 3
    /// for the streams of the Tight encoding, and any other for ZRLE's. No
    /// other stream is touched, and a chunk without bytes touches none.
    pub fn inflate(&mut self, stream: u8, chunk: &[u8], limit: usize) -> (res: Option<Vec<u8>>)
        ensures
            final(self).same_but(*old(self), stream),
            chunk@.len() == 0 ==> (res matches Some(out) && out@.len() == 0) && *final(self)
                == *old(self),
            res matches Some(out) ==> out@.len() <= limit,
    {
        match stream {
            0 => inflate(&mut self.tight0, chunk, limit),
            1 => inflate(&mut self.tight1, chunk, limit),
            2 => inflate(&mut self.tight2, chunk, limit),
            3 => inflate(&mut self.tight3, chunk, limit),
            _ => inflate(&mut self.zrle, chunk, limit),
        }
    }
}

} // verus!
