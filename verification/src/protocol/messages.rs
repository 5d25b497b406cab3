//! The messages of a live connection: those that the client sends, with
//! their bytes, and the headers of those that the server sends.

use vstd::prelude::*;
use vstd::utf8::encode_utf8;
use crate::error::{plain_result, view_result, VncError, VncErrorView};
use crate::protocol::encoding::VncEncoding;
use crate::protocol::pixel_format::PixelFormat;
use crate::protocol::rect::{Rect, Screen};
use crate::wire::{
    as_signed, as_unsigned, spec_text, string_bytes, u16_at, u16_bytes, u32_at, u32_bytes,
};

verus! {

/// A message from the client to the server.
#[derive(Debug, Clone, PartialEq, Eq)]
pub enum ClientMsg {
    /// Message 0: send pixels in this format from now on.
    SetPixelFormat(PixelFormat),
    /// Message 2: the encodings that the client takes, best first.
    SetEncodings(Vec<VncEncoding>),
    /// Message 3: send what the rectangle shows. The flag is not zero if
    /// only what changed is wanted.
    FramebufferUpdateRequest(Rect, u8),
    /// Message 4: the key with this keysym went down (`true`) or up.
    KeyEvent(u32, bool),
    /// Message 5: the pointer is at `x`, `y`, with these buttons held.
    PointerEvent(u16, u16, u8),
    /// Message 6: the client's clipboard holds this text.
    ClientCutText(String),
}

/// The mathematical value of a [`ClientMsg`].
pub enum ClientMsgView {
    SetPixelFormat(PixelFormat),
    SetEncodings(Seq<VncEncoding>),
    FramebufferUpdateRequest(Rect, u8),
    KeyEvent(u32, bool),
    PointerEvent(u16, u16, u8),
    ClientCutText(Seq<char>),
}

impl View for ClientMsg {
    type V = ClientMsgView;

    open spec fn view(&self) -> ClientMsgView {
        match *self {
            ClientMsg::SetPixelFormat(format) => ClientMsgView::SetPixelFormat(format),
            ClientMsg::SetEncodings(list) => ClientMsgView::SetEncodings(list@),
            ClientMsg::FramebufferUpdateRequest(rect, incremental) =>
                ClientMsgView::FramebufferUpdateRequest(rect, incremental),
            ClientMsg::KeyEvent(keysym, down) => ClientMsgView::KeyEvent(keysym, down),
            ClientMsg::PointerEvent(x, y, buttons) => ClientMsgView::PointerEvent(x, y, buttons),
            ClientMsg::ClientCutText(text) => ClientMsgView::ClientCutText(text@),
        }
    }
}

/// The wire numbers of a list of encodings, four bytes each.
pub open spec fn encodings_bytes(list: Seq<VncEncoding>) -> Seq<u8>
    decreases list.len(),
{
    if list.len() == 0 {
        Seq::empty()
    } else {
        encodings_bytes(list.drop_last()) + u32_bytes(as_unsigned(list.last().spec_code()))
    }
}

/// The encodings that a run of four-byte wire numbers names, if each of
/// them names one.
pub open spec fn encodings_of(bytes: Seq<u8>) -> Option<Seq<VncEncoding>>
    decreases bytes.len(),
{
    if bytes.len() < 4 {
        if bytes.len() == 0 {
            Some(Seq::empty())
        } else {
            None
        }
    } else {
        let head = bytes.subrange(0, bytes.len() - 4);
        match (
            encodings_of(head),
            VncEncoding::spec_from_code(as_signed(u32_at(bytes, bytes.len() - 4))),
        ) {
            (Some(list), Some(encoding)) => Some(list.push(encoding)),
            _ => None,
        }
    }
}

/// The bytes of a rectangle: `x`, `y`, width and height, two bytes each.
pub open spec fn rect_bytes(rect: Rect) -> Seq<u8> {
    u16_bytes(rect.x as int) + u16_bytes(rect.y as int) + u16_bytes(rect.width as int)
        + u16_bytes(rect.height as int)
}

/// The rectangle that eight bytes at offset `at` spell.
pub open spec fn rect_at(bytes: Seq<u8>, at: int) -> Rect {
    Rect {
        x: u16_at(bytes, at) as u16,
        y: u16_at(bytes, at + 2) as u16,
        width: u16_at(bytes, at + 4) as u16,
        height: u16_at(bytes, at + 6) as u16,
    }
}

/// The byte that stands for a flag.
pub open spec fn flag_byte(flag: bool) -> u8 {
    if flag {
        1
    } else {
        0
    }
}

impl ClientMsgView {
    /// Whether the message can be written: a list of encodings holds at
    /// most 65535, and a text at most 4294967295 bytes.
    pub open spec fn fits(self) -> bool {
        match self {
            ClientMsgView::SetEncodings(list) => list.len() <= 0xffff,
            ClientMsgView::ClientCutText(text) => encode_utf8(text).len() <= 0xffff_ffff,
            _ => true,
        }
    }

    /// The bytes of the message on the wire.
    pub open spec fn bytes(self) -> Seq<u8> {
        match self {
            ClientMsgView::SetPixelFormat(format) => seq![0u8, 0u8, 0u8, 0u8]
                + format.spec_serialize(),
            ClientMsgView::SetEncodings(list) => seq![2u8, 0u8] + u16_bytes(list.len() as int)
                + encodings_bytes(list),
            ClientMsgView::FramebufferUpdateRequest(rect, incremental) => seq![3u8, incremental]
                + rect_bytes(rect),
            ClientMsgView::KeyEvent(keysym, down) => seq![4u8, flag_byte(down), 0u8, 0u8]
                + u32_bytes(keysym as int),
            ClientMsgView::PointerEvent(x, y, buttons) => seq![5u8, buttons] + u16_bytes(
                x as int,
            ) + u16_bytes(y as int),
            ClientMsgView::ClientCutText(text) => seq![6u8, 0u8, 0u8, 0u8] + string_bytes(
                encode_utf8(text),
            ),
        }
    }

    /// What writing the message gives: its bytes, or `Protocol` where it
    /// holds more than the wire can count.
    pub open spec fn encode(self) -> Result<Seq<u8>, VncErrorView> {
        if self.fits() {
            Ok(self.bytes())
        } else {
            Err(VncErrorView::Protocol)
        }
    }

    /// How many bytes the message that starts with `bytes` takes, as far as
    /// `bytes` tell: `Ok(None)` where they end before the length is known.
    pub open spec fn length(bytes: Seq<u8>) -> Result<Option<int>, VncErrorView> {
        if bytes.len() == 0 {
            Ok(None)
        } else if bytes[0] == 0 {
            Ok(Some(20))
        } else if bytes[0] == 2 {
            if bytes.len() < 4 {
                Ok(None)
            } else {
                Ok(Some(4 + 4 * u16_at(bytes, 2)))
            }
        } else if bytes[0] == 3 {
            Ok(Some(10))
        } else if bytes[0] == 4 {
            Ok(Some(8))
        } else if bytes[0] == 5 {
            Ok(Some(6))
        } else if bytes[0] == 6 {
            if bytes.len() < 8 {
                Ok(None)
            } else {
                Ok(Some(8 + u32_at(bytes, 4)))
            }
        } else {
            Err(VncErrorView::Protocol)
        }
    }

    /// The message that the bytes spell, given that they are as many as
    /// `length` says.
    pub open spec fn body(bytes: Seq<u8>) -> Result<ClientMsgView, VncErrorView> {
        if bytes[0] == 0 {
            match PixelFormat::spec_parse(bytes.subrange(4, 20)) {
                Ok(format) => Ok(ClientMsgView::SetPixelFormat(format)),
                Err(e) => Err(e),
            }
        } else if bytes[0] == 2 {
            match encodings_of(bytes.subrange(4, bytes.len() as int)) {
                Some(list) => Ok(ClientMsgView::SetEncodings(list)),
                None => Err(VncErrorView::Protocol),
            }
        } else if bytes[0] == 3 {
            Ok(ClientMsgView::FramebufferUpdateRequest(rect_at(bytes, 2), bytes[1]))
        } else if bytes[0] == 4 {
            Ok(ClientMsgView::KeyEvent(u32_at(bytes, 4) as u32, bytes[1] != 0))
        } else if bytes[0] == 5 {
            Ok(
                ClientMsgView::PointerEvent(
                    u16_at(bytes, 2) as u16,
                    u16_at(bytes, 4) as u16,
                    bytes[1],
                ),
            )
        } else {
            match spec_text(bytes.subrange(8, bytes.len() as int)) {
                Ok(text) => Ok(ClientMsgView::ClientCutText(text)),
                Err(e) => Err(e),
            }
        }
    }

    /// What reading one message from `bytes` gives. Bytes that end before
    /// the message does fail with `Io`; bytes that go on after it, an
    /// unknown message number, an invalid pixel format, an unknown encoding
    /// and a text that is not UTF-8 fail with `Protocol`.
    pub open spec fn decode(bytes: Seq<u8>) -> Result<ClientMsgView, VncErrorView> {
        match ClientMsgView::length(bytes) {
            Err(e) => Err(e),
            Ok(None) => Err(VncErrorView::Io),
            Ok(Some(length)) => if bytes.len() < length {
                Err(VncErrorView::Io)
            } else if bytes.len() > length {
                Err(VncErrorView::Protocol)
            } else {
                ClientMsgView::body(bytes)
            },
        }
    }
}

impl ClientMsg {
    /// Appends the message to `out`. Fails with `Protocol`, and appends
    /// nothing, where the message holds more than the wire can count.
    pub fn write(&self, out: &mut Vec<u8>) -> (res: Result<(), VncError>)
        ensures
            match self@.encode() {
                Ok(bytes) => res is Ok && final(out)@ == old(out)@ + bytes,
                Err(e) => res matches Err(f) && f@ == e && final(out)@ == old(out)@,
            },
    {
        match self {
            ClientMsg::SetPixelFormat(format) => {
                let ghost start = out@;
                out.push(0);
                out.push(0);
                out.push(0);
                out.push(0);
                let bytes = format.serialize();
                crate::wire::write_bytes(out, bytes.as_slice());
                assert(out@ =~= start + self@.bytes());
                Ok(())
            },
            ClientMsg::SetEncodings(list) => {
                if list.len() > 0xffff {
                    return Err(VncError::Protocol);
                }
                let ghost start = out@;
                out.push(2);
                out.push(0);
                crate::wire::write_u16(out, list.len() as u16);
                let ghost head = out@;
                let mut i: usize = 0;
                while i < list.len()
                    invariant
                        i <= list@.len(),
                        out@ == head + encodings_bytes(list@.subrange(0, i as int)),
                    decreases list@.len() - i,
                {
                    proof {
                        let upto = list@.subrange(0, i + 1);
                        assert(upto.drop_last() =~= list@.subrange(0, i as int));
                    }
                    crate::wire::write_i32(out, list[i].code());
                    i += 1;
                    assert(out@ =~= head + encodings_bytes(list@.subrange(0, i as int)));
                }
                assert(list@.subrange(0, list@.len() as int) =~= list@);
                assert(out@ =~= start + self@.bytes());
                Ok(())
            },
            ClientMsg::FramebufferUpdateRequest(rect, incremental) => {
                let ghost start = out@;
                out.push(3);
                out.push(*incremental);
                crate::wire::write_u16(out, rect.x);
                crate::wire::write_u16(out, rect.y);
                crate::wire::write_u16(out, rect.width);
                crate::wire::write_u16(out, rect.height);
                assert(out@ =~= start + self@.bytes());
                Ok(())
            },
            ClientMsg::KeyEvent(keysym, down) => {
                let ghost start = out@;
                out.push(4);
                out.push(if *down { 1 } else { 0 });
                out.push(0);
                out.push(0);
                crate::wire::write_u32(out, *keysym);
                assert(out@ =~= start + self@.bytes());
                Ok(())
            },
            ClientMsg::PointerEvent(x, y, buttons) => {
                let ghost start = out@;
                out.push(5);
                out.push(*buttons);
                crate::wire::write_u16(out, *x);
                crate::wire::write_u16(out, *y);
                assert(out@ =~= start + self@.bytes());
                Ok(())
            },
            ClientMsg::ClientCutText(text) => {
                let mut message: Vec<u8> = Vec::new();
                message.push(6);
                message.push(0);
                message.push(0);
                message.push(0);
                match crate::wire::write_string(&mut message, text.as_str()) {
                    Ok(()) => {
                        assert(message@ =~= self@.bytes());
                        crate::wire::write_bytes(out, message.as_slice());
                        Ok(())
                    },
                    Err(e) => Err(e),
                }
            },
        }
    }

    /// The bytes of the message on the wire. Fails with `Protocol` where
    /// the message holds more than the wire can count.
    pub fn encode(&self) -> (res: Result<Vec<u8>, VncError>)
        ensures
            view_result(res) == self@.encode(),
    {
        let mut out: Vec<u8> = Vec::new();
        match self.write(&mut out) {
            Ok(()) => {
                assert(out@ =~= self@.bytes());
                Ok(out)
            },
            Err(e) => Err(e),
        }
    }

    /// How many bytes the message that starts with `bytes` takes, as far as
    /// `bytes` tell.
    pub fn measure(bytes: &[u8]) -> (res: Result<Option<u64>, VncError>)
        ensures
            match ClientMsgView::length(bytes@) {
                Ok(Some(n)) => res matches Ok(Some(m)) && m == n,
                Ok(None) => res matches Ok(None),
                Err(e) => res matches Err(f) && f@ == e,
            },
    {
        if bytes.len() == 0 {
            return Ok(None);
        }
        match bytes[0] {
            0 => Ok(Some(20)),
            2 => match crate::wire::read_u16(bytes, 2) {
                Ok(count) => Ok(Some(4 + 4 * (count as u64))),
                Err(e) => Ok(None),
            },
            3 => Ok(Some(10)),
            4 => Ok(Some(8)),
            5 => Ok(Some(6)),
            6 => match crate::wire::read_u32(bytes, 4) {
                Ok(len) => Ok(Some(8 + len as u64)),
                Err(e) => Ok(None),
            },
            _ => Err(VncError::Protocol),
        }
    }

    /// Reads a list of encodings from their four-byte wire numbers.
    fn read_encodings(bytes: &[u8], from: usize) -> (res: Option<Vec<VncEncoding>>)
        requires
            from <= bytes@.len(),
            (bytes@.len() - from) % 4 == 0,
        ensures
            match encodings_of(bytes@.subrange(from as int, bytes@.len() as int)) {
                Some(list) => res matches Some(v) && v@ == list,
                None => res is None,
            },
    {
        let mut list: Vec<VncEncoding> = Vec::new();
        let total = bytes.len();
        let mut at: usize = from;
        assert(bytes@.subrange(from as int, from as int) =~= Seq::<u8>::empty());
        while at < total
            invariant
                from <= at <= total,
                total == bytes@.len(),
                (total - at) % 4 == 0,
                (at - from) % 4 == 0,
                encodings_of(bytes@.subrange(from as int, at as int)) == Some(list@),
            decreases total - at,
        {
            let ghost upto = bytes@.subrange(from as int, at + 4);
            assert(upto.subrange(0, upto.len() - 4) =~= bytes@.subrange(from as int, at as int));
            assert(u32_at(upto, upto.len() - 4) == u32_at(bytes@, at as int));
            let code = match crate::wire::read_i32(bytes, at) {
                Ok(code) => code,
                Err(e) => {
                    return None;
                },
            };
            match VncEncoding::from_code(code) {
                Some(encoding) => {
                    list.push(encoding);
                },
                None => {
                    proof {
                        assert(bytes@.subrange(from as int, total as int).subrange(
                            0,
                            at + 4 - from,
                        ) =~= upto);
                        lemma_encodings_of_prefix(
                            bytes@.subrange(from as int, total as int),
                            at + 4 - from,
                        );
                    }
                    return None;
                },
            }
            at += 4;
        }
        Some(list)
    }

    /// Reads one message from `bytes`.
    pub fn decode(bytes: &[u8]) -> (res: Result<ClientMsg, VncError>)
        ensures
            view_result(res) == ClientMsgView::decode(bytes@),
    {
        let length = match ClientMsg::measure(bytes) {
            Err(e) => {
                return Err(e);
            },
            Ok(None) => {
                return Err(VncError::Io);
            },
            Ok(Some(length)) => length,
        };
        if (bytes.len() as u64) < length {
            return Err(VncError::Io);
        }
        if bytes.len() as u64 > length {
            return Err(VncError::Protocol);
        }
        match bytes[0] {
            0 => {
                let fields = match crate::wire::read_bytes(bytes, 4, 16) {
                    Ok(fields) => fields,
                    Err(e) => {
                        return Err(e);
                    },
                };
                match PixelFormat::parse(fields.as_slice()) {
                    Ok(format) => Ok(ClientMsg::SetPixelFormat(format)),
                    Err(e) => Err(e),
                }
            },
            2 => match ClientMsg::read_encodings(bytes, 4) {
                Some(list) => Ok(ClientMsg::SetEncodings(list)),
                None => Err(VncError::Protocol),
            },
            3 => Ok(ClientMsg::FramebufferUpdateRequest(read_rect(bytes, 2), bytes[1])),
            4 => Ok(
                ClientMsg::KeyEvent(
                    bytes[4] as u32 * 16777216 + bytes[5] as u32 * 65536 + bytes[6] as u32 * 256
                        + bytes[7] as u32,
                    bytes[1] != 0,
                ),
            ),
            5 => Ok(
                ClientMsg::PointerEvent(
                    bytes[2] as u16 * 256 + bytes[3] as u16,
                    bytes[4] as u16 * 256 + bytes[5] as u16,
                    bytes[1],
                ),
            ),
            _ => {
                assert(bytes@.subrange(8, 8 + u32_at(bytes@, 4)) =~= bytes@.subrange(
                    8,
                    bytes@.len() as int,
                ));
                match crate::wire::read_string(bytes, 4) {
                    Ok((text, _)) => Ok(ClientMsg::ClientCutText(text)),
                    Err(e) => Err(e),
                }
            },
        }
    }
}

/// A message from the server to a live client, as far as its header goes:
/// the rectangles of a framebuffer update follow the message one by one.
#[derive(Debug, Clone, PartialEq, Eq)]
pub enum ServerMsg {
    /// Message 0: a framebuffer update of this many rectangles begins.
    FramebufferUpdate(u16),
    /// Message 1: `count` entries of the colour map from entry `first` on.
    /// The entries themselves are passed over.
    SetColourMapEntries { first: u16, count: u16 },
    /// Message 2: the server rings its bell.
    Bell,
    /// Message 3: the server's clipboard holds this text.
    ServerCutText(String),
}

/// The mathematical value of a [`ServerMsg`].
pub enum ServerMsgView {
    FramebufferUpdate(u16),
    SetColourMapEntries { first: u16, count: u16 },
    Bell,
    ServerCutText(Seq<char>),
}

impl View for ServerMsg {
    type V = ServerMsgView;

    open spec fn view(&self) -> ServerMsgView {
        match *self {
            ServerMsg::FramebufferUpdate(count) => ServerMsgView::FramebufferUpdate(count),
            ServerMsg::SetColourMapEntries { first, count } => ServerMsgView::SetColourMapEntries {
                first,
                count,
            },
            ServerMsg::Bell => ServerMsgView::Bell,
            ServerMsg::ServerCutText(text) => ServerMsgView::ServerCutText(text@),
        }
    }
}

impl ServerMsgView {
    /// What reading a message from the start of `input` gives: the message
    /// and how many bytes it takes; `Ok(None)` where the input ends before
    /// the message does. A framebuffer update takes four bytes: its number,
    /// a byte of padding and the count of its rectangles. Colour map entries
    /// take six bytes and six more for each entry. A bell is one byte. A
    /// text takes its number, three bytes of padding and a length-prefixed
    /// string. An unknown message number and a text that is not UTF-8 are
    /// protocol errors.
    pub open spec fn read(input: Seq<u8>) -> Result<Option<(ServerMsgView, int)>, VncErrorView> {
        if input.len() == 0 {
            Ok(None)
        } else if input[0] == 0 {
            if input.len() < 4 {
                Ok(None)
            } else {
                Ok(Some((ServerMsgView::FramebufferUpdate(u16_at(input, 2) as u16), 4)))
            }
        } else if input[0] == 1 {
            if input.len() < 6 || input.len() < 6 + 6 * u16_at(input, 4) {
                Ok(None)
            } else {
                Ok(
                    Some(
                        (
                            ServerMsgView::SetColourMapEntries {
                                first: u16_at(input, 2) as u16,
                                count: u16_at(input, 4) as u16,
                            },
                            6 + 6 * u16_at(input, 4),
                        ),
                    ),
                )
            }
        } else if input[0] == 2 {
            Ok(Some((ServerMsgView::Bell, 1)))
        } else if input[0] == 3 {
            match crate::wire::spec_read_string(input, 4) {
                Ok((text, next)) => Ok(Some((ServerMsgView::ServerCutText(text), next))),
                Err(VncErrorView::Io) => Ok(None),
                Err(e) => Err(e),
            }
        } else {
            Err(VncErrorView::Protocol)
        }
    }
}

/// The mathematical value of what reading a message gives.
pub open spec fn view_read(res: Result<Option<(ServerMsg, usize)>, VncError>) -> Result<
    Option<(ServerMsgView, int)>,
    VncErrorView,
> {
    match res {
        Ok(Some((msg, length))) => Ok(Some((msg@, length as int))),
        Ok(None) => Ok(None),
        Err(e) => Err(e@),
    }
}

impl ServerMsg {
    /// Reads a message from the start of `input`.
    pub fn read(input: &[u8]) -> (res: Result<Option<(ServerMsg, usize)>, VncError>)
        ensures
            view_read(res) == ServerMsgView::read(input@),
    {
        if input.len() == 0 {
            return Ok(None);
        }
        match input[0] {
            0 => match crate::wire::read_u16(input, 2) {
                Ok(count) => Ok(Some((ServerMsg::FramebufferUpdate(count), 4))),
                Err(e) => Ok(None),
            },
            1 => {
                let count = match crate::wire::read_u16(input, 4) {
                    Ok(count) => count,
                    Err(e) => {
                        return Ok(None);
                    },
                };
                let length: u64 = 6 + 6 * (count as u64);
                if (input.len() as u64) < length {
                    return Ok(None);
                }
                let first = input[2] as u16 * 256 + input[3] as u16;
                Ok(Some((ServerMsg::SetColourMapEntries { first, count }, length as usize)))
            },
            2 => Ok(Some((ServerMsg::Bell, 1))),
            3 => match crate::wire::read_string(input, 4) {
                Ok((text, next)) => Ok(Some((ServerMsg::ServerCutText(text), next))),
                Err(VncError::Io) => Ok(None),
                Err(e) => Err(e),
            },
            _ => Err(VncError::Protocol),
        }
    }
}

/// What a server says of itself once the client is let in: the size of its
/// framebuffer, the format of its pixels and the name of its desktop.
#[derive(Debug, Clone, PartialEq, Eq)]
pub struct ServerInit {
    pub screen: Screen,
    pub pixel_format: PixelFormat,
    pub name: String,
}

/// The mathematical value of a [`ServerInit`].
pub struct ServerInitView {
    pub screen: Screen,
    pub pixel_format: PixelFormat,
    pub name: Seq<char>,
}

impl View for ServerInit {
    type V = ServerInitView;

    open spec fn view(&self) -> ServerInitView {
        ServerInitView { screen: self.screen, pixel_format: self.pixel_format, name: self.name@ }
    }
}

/// The part of a [`ServerInit`] that has a fixed length of 24 bytes: all but
/// the name, of which it gives the length.
#[derive(Debug, Clone, Copy, PartialEq, Eq, Structural)]
pub struct ServerInitHead {
    pub screen: Screen,
    pub pixel_format: PixelFormat,
    pub name_length: u32,
}

impl ServerInitHead {
    /// What the first 24 bytes of a ServerInit stand for: width and height
    /// as two bytes each, the pixel format, and the length of the name as
    /// four bytes.
    pub open spec fn spec_read(input: Seq<u8>) -> Result<ServerInitHead, VncErrorView> {
        if input.len() != 24 {
            Err(VncErrorView::Io)
        } else {
            match PixelFormat::spec_parse(input.subrange(4, 20)) {
                Err(e) => Err(e),
                Ok(format) => Ok(
                    ServerInitHead {
                        screen: Screen {
                            width: u16_at(input, 0) as u16,
                            height: u16_at(input, 2) as u16,
                        },
                        pixel_format: format,
                        name_length: u32_at(input, 20) as u32,
                    },
                ),
            }
        }
    }

    /// Reads the first 24 bytes of a ServerInit. Any other number of bytes
    /// fails with `Io`, an invalid pixel format with `Protocol`.
    pub fn read(input: &[u8]) -> (res: Result<ServerInitHead, VncError>)
        ensures
            plain_result(res) == ServerInitHead::spec_read(input@),
    {
        if input.len() != 24 {
            return Err(VncError::Io);
        }
        let fields = match crate::wire::read_bytes(input, 4, 16) {
            Ok(fields) => fields,
            Err(e) => {
                return Err(VncError::Io);
            },
        };
        let format = match PixelFormat::parse(fields.as_slice()) {
            Ok(format) => format,
            Err(e) => {
                return Err(e);
            },
        };
        Ok(
            ServerInitHead {
                screen: Screen {
                    width: input[0] as u16 * 256 + input[1] as u16,
                    height: input[2] as u16 * 256 + input[3] as u16,
                },
                pixel_format: format,
                name_length: input[20] as u32 * 16777216 + input[21] as u32 * 65536
                    + input[22] as u32 * 256 + input[23] as u32,
            },
        )
    }

    /// What the head and the bytes of the name make together. The name has
    /// to be as long as the head says, else `Io`, and valid UTF-8, else `Protocol`.
    pub open spec fn spec_complete(self, name: Seq<u8>) -> Result<ServerInitView, VncErrorView> {
        if name.len() != self.name_length {
            Err(VncErrorView::Io)
        } else {
            match spec_text(name) {
                Err(e) => Err(e),
                Ok(text) => Ok(
                    ServerInitView {
                        screen: self.screen,
                        pixel_format: self.pixel_format,
                        name: text,
                    },
                ),
            }
        }
    }

    /// Completes the ServerInit with the bytes of the name.
    pub fn complete(self, name: &[u8]) -> (res: Result<ServerInit, VncError>)
        ensures
            view_result(res) == self.spec_complete(name@),
    {
        if name.len() as u64 != self.name_length as u64 {
            return Err(VncError::Io);
        }
        let raw = match crate::wire::read_bytes(name, 0, name.len()) {
            Ok(raw) => raw,
            Err(e) => {
                return Err(VncError::Io);
            },
        };
        assert(raw@ =~= name@);
        match crate::wire::read_text(raw) {
            Ok(text) => Ok(
                ServerInit { screen: self.screen, pixel_format: self.pixel_format, name: text },
            ),
            Err(e) => Err(e),
        }
    }
}

/// Reads the rectangle that eight bytes at offset `at` spell.
pub(crate) fn read_rect(bytes: &[u8], at: usize) -> (rect: Rect)
    requires
        at + 8 <= bytes@.len(),
    ensures
        rect == rect_at(bytes@, at as int),
{
    Rect {
        x: bytes[at] as u16 * 256 + bytes[at + 1] as u16,
        y: bytes[at + 2] as u16 * 256 + bytes[at + 3] as u16,
        width: bytes[at + 4] as u16 * 256 + bytes[at + 5] as u16,
        height: bytes[at + 6] as u16 * 256 + bytes[at + 7] as u16,
    }
}

/// Where a prefix of whole numbers names no list of encodings, neither do
/// the bytes as a whole.
proof fn lemma_encodings_of_prefix(bytes: Seq<u8>, upto: int)
    requires
        0 <= upto <= bytes.len(),
        upto % 4 == 0,
        bytes.len() % 4 == 0,
        encodings_of(bytes.subrange(0, upto)) is None,
    ensures
        encodings_of(bytes) is None,
    decreases bytes.len(),
{
    if upto < bytes.len() {
        let head = bytes.subrange(0, bytes.len() - 4);
        assert(head.subrange(0, upto) =~= bytes.subrange(0, upto));
        lemma_encodings_of_prefix(head, upto);
    } else {
        assert(bytes.subrange(0, upto) =~= bytes);
    }
}

/// A list of encodings takes four bytes for each, and is read back from them.
pub proof fn lemma_encodings_round_trip(list: Seq<VncEncoding>)
    ensures
        encodings_bytes(list).len() == 4 * list.len(),
        encodings_of(encodings_bytes(list)) == Some(list),
    decreases list.len(),
{
    if list.len() > 0 {
        lemma_encodings_round_trip(list.drop_last());
        let bytes = encodings_bytes(list);
        let head = encodings_bytes(list.drop_last());
        let code = list.last().spec_code();
        let word = as_unsigned(code);
        assert(bytes.subrange(0, bytes.len() - 4) =~= head);
        assert(0 <= word <= u32::MAX);
        crate::wire::lemma_u32_round_trip(word as u32);
        assert(u32_at(bytes, bytes.len() - 4) == u32_at(u32_bytes(word), 0));
        assert(as_signed(word) == code);
        assert(list.drop_last().push(list.last()) =~= list);
    }
}

/// Every message that can be written is read back from its own bytes.
pub proof fn lemma_decode_encode(msg: ClientMsgView)
    requires
        msg.fits(),
        msg matches ClientMsgView::SetPixelFormat(format) ==> format.wf(),
    ensures
        ClientMsgView::decode(msg.bytes()) == Ok::<ClientMsgView, VncErrorView>(msg),
{
    let bytes = msg.bytes();
    match msg {
        ClientMsgView::SetPixelFormat(format) => {
            crate::protocol::pixel_format::lemma_parse_serialize(format);
            assert(bytes.subrange(4, 20) =~= format.spec_serialize());
        },
        ClientMsgView::SetEncodings(list) => {
            lemma_encodings_round_trip(list);
            crate::wire::lemma_u16_round_trip(list.len() as u16);
            assert(u16_at(bytes, 2) == u16_at(u16_bytes(list.len() as int), 0));
            assert(bytes.subrange(4, bytes.len() as int) =~= encodings_bytes(list));
        },
        ClientMsgView::FramebufferUpdateRequest(rect, incremental) => {
            crate::wire::lemma_u16_round_trip(rect.x);
            crate::wire::lemma_u16_round_trip(rect.y);
            crate::wire::lemma_u16_round_trip(rect.width);
            crate::wire::lemma_u16_round_trip(rect.height);
            assert(u16_at(bytes, 2) == u16_at(u16_bytes(rect.x as int), 0));
            assert(u16_at(bytes, 4) == u16_at(u16_bytes(rect.y as int), 0));
            assert(u16_at(bytes, 6) == u16_at(u16_bytes(rect.width as int), 0));
            assert(u16_at(bytes, 8) == u16_at(u16_bytes(rect.height as int), 0));
        },
        ClientMsgView::KeyEvent(keysym, down) => {
            crate::wire::lemma_u32_round_trip(keysym);
            assert(u32_at(bytes, 4) == u32_at(u32_bytes(keysym as int), 0));
        },
        ClientMsgView::PointerEvent(x, y, buttons) => {
            crate::wire::lemma_u16_round_trip(x);
            crate::wire::lemma_u16_round_trip(y);
            assert(u16_at(bytes, 2) == u16_at(u16_bytes(x as int), 0));
            assert(u16_at(bytes, 4) == u16_at(u16_bytes(y as int), 0));
        },
        ClientMsgView::ClientCutText(text) => {
            let raw = encode_utf8(text);
            crate::wire::lemma_u32_round_trip(raw.len() as u32);
            assert(bytes =~= seq![6u8, 0u8, 0u8, 0u8] + u32_bytes(raw.len() as int) + raw);
            assert(u32_at(bytes, 4) == u32_at(u32_bytes(raw.len() as int), 0));
            assert(bytes.subrange(8, bytes.len() as int) =~= raw);
            vstd::utf8::encode_utf8_valid_utf8(text);
            vstd::utf8::encode_utf8_decode_utf8(text);
        },
    }
}

} // verus!
