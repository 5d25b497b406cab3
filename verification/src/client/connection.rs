//! The live client: what it knows of the server, the events that wait for
//! the caller, and the steps that turn the server's bytes into events.

use vstd::prelude::*;
use crate::codec::rectangle;
use crate::codec::rectangle::{view_inflated, RectHeader};
use crate::codec::zlib::Streams;
use crate::error::{view_result, VncError, VncErrorView};
use crate::events::{view_events, VncEvent, VncEventView, X11Event, X11EventView};
use crate::protocol::encoding::VncEncoding;
use crate::protocol::messages::{
    ClientMsg, ClientMsgView, ServerInit, ServerInitView, ServerMsg, ServerMsgView,
};
use crate::protocol::pixel_format::PixelFormat;
use crate::protocol::rect::{Rect, Screen};
use crate::wire::u32_at;

verus! {

/// A client that has been let in by its server.
///
/// The client does no reading and no writing of its own. The bytes that the
/// server sent are handed to `handle`, which says how many of them it took
/// and which bytes are to be sent back; the caller's input goes through
/// `input`, which gives the bytes to send; and the events wait in a queue
/// until `poll_event` takes them out, oldest first.
#[derive(Debug)]
pub struct VncClient {
    /// The format in which events carry pixels.
    pub pixel_format: PixelFormat,
    /// The format in which the server sends pixels.
    pub server_format: PixelFormat,
    /// The encodings that the server was told of, best first.
    pub encodings: Vec<VncEncoding>,
    /// The size of the server's framebuffer.
    pub screen: Screen,
    /// The name of the server's desktop.
    pub name: String,
    /// How many rectangles of the current framebuffer update are still to come.
    pub pending: u16,
    /// The events that wait for the caller, oldest first.
    pub events: Vec<VncEvent>,
    /// The error that ended the connection, until the caller has seen it.
    pub failure: Option<VncError>,
    /// Whether the client has been closed.
    pub closed: bool,
    /// The shape of the cursor as the server last sent it: its hotspot and
    /// size, and its pixels as the event carried them.
    pub cursor: Option<(Rect, Vec<u8>)>,
    /// The zlib streams of the connection.
    pub streams: Streams,
}

/// The mathematical value of a [`VncClient`]: all of it but the zlib
/// streams, of which nothing is known but what they give.
pub struct ClientView {
    pub pixel_format: PixelFormat,
    pub server_format: PixelFormat,
    pub encodings: Seq<VncEncoding>,
    pub screen: Screen,
    pub name: Seq<char>,
    pub pending: u16,
    pub events: Seq<VncEventView>,
    pub failure: Option<VncErrorView>,
    pub closed: bool,
    pub cursor: Option<(Rect, Seq<u8>)>,
}

/// The mathematical value of an optional cursor.
pub open spec fn view_cursor(cursor: Option<(Rect, Vec<u8>)>) -> Option<(Rect, Seq<u8>)> {
    match cursor {
        Some((rect, pixels)) => Some((rect, pixels@)),
        None => None,
    }
}

/// The mathematical value of an optional error.
pub open spec fn view_failure(failure: Option<VncError>) -> Option<VncErrorView> {
    match failure {
        Some(e) => Some(e@),
        None => None,
    }
}

impl View for VncClient {
    type V = ClientView;

    open spec fn view(&self) -> ClientView {
        ClientView {
            pixel_format: self.pixel_format,
            server_format: self.server_format,
            encodings: self.encodings@,
            screen: self.screen,
            name: self.name@,
            pending: self.pending,
            events: view_events(self.events@),
            failure: view_failure(self.failure),
            closed: self.closed,
            cursor: view_cursor(self.cursor),
        }
    }
}

/// What one call of `handle` did.
#[derive(Debug, Clone, PartialEq, Eq)]
pub struct Progress {
    /// How many bytes of the input were taken.
    pub consumed: usize,
    /// The bytes to send to the server.
    pub reply: Vec<u8>,
}

/// What one step on the server's bytes comes to.
pub enum Handled {
    /// The bytes end before the next message or rectangle does: nothing changes.
    Waiting,
    /// A message header or a rectangle was taken.
    Advanced { next: ClientView, consumed: int, reply: Seq<u8> },
    /// The connection is over.
    Failed(VncErrorView),
}

/// The request for what changed anywhere on a screen of the given size.
pub open spec fn refresh_request(screen: Screen) -> Seq<u8> {
    ClientMsgView::FramebufferUpdateRequest(
        Rect { x: 0, y: 0, width: screen.width, height: screen.height },
        1,
    ).bytes()
}

impl ClientView {
    /// Whether the client takes no more part in the connection: it was
    /// closed, or the connection failed.
    pub open spec fn dead(self) -> bool {
        self.closed || self.failure is Some
    }

    /// What the client sends when it comes to life: its pixel format if the
    /// caller chose one, the encodings, and a request for the whole screen.
    pub open spec fn greeting(
        init: ServerInitView,
        wanted: Option<PixelFormat>,
        encodings: Seq<VncEncoding>,
    ) -> Seq<u8> {
        let format = match wanted {
            Some(format) => ClientMsgView::SetPixelFormat(format).bytes(),
            None => Seq::empty(),
        };
        format + ClientMsgView::SetEncodings(encodings).bytes()
            + ClientMsgView::FramebufferUpdateRequest(
            Rect { x: 0, y: 0, width: init.screen.width, height: init.screen.height },
            0,
        ).bytes()
    }

    /// The client as it comes to life. Pixels come in the format that the
    /// caller chose, or else in the server's, of which an event then tells;
    /// an event tells of the size of the screen.
    pub open spec fn start(
        init: ServerInitView,
        wanted: Option<PixelFormat>,
        encodings: Seq<VncEncoding>,
    ) -> ClientView {
        let format = match wanted {
            Some(format) => format,
            None => init.pixel_format,
        };
        let told = match wanted {
            Some(_) => Seq::empty(),
            None => seq![VncEventView::SetPixelFormat(init.pixel_format)],
        };
        ClientView {
            pixel_format: format,
            server_format: format,
            encodings,
            screen: init.screen,
            name: init.name,
            pending: 0,
            events: told.push(VncEventView::SetResolution(init.screen)),
            failure: None,
            closed: false,
            cursor: None,
        }
    }

    /// The client after one more event has joined the queue.
    pub open spec fn with_event(self, event: VncEventView) -> ClientView {
        ClientView { events: self.events.push(event), ..self }
    }

    /// The client after a message of the server: a framebuffer update
    /// announces its rectangles, a bell and a text become events, and
    /// colour map entries change nothing.
    pub open spec fn after_message(self, msg: ServerMsgView) -> ClientView {
        match msg {
            ServerMsgView::FramebufferUpdate(count) => ClientView { pending: count, ..self },
            ServerMsgView::SetColourMapEntries { .. } => self,
            ServerMsgView::Bell => self.with_event(VncEventView::Bell),
            ServerMsgView::ServerCutText(text) => self.with_event(VncEventView::Text(text)),
        }
    }

    /// The step on the header of a message. After an update without
    /// rectangles the client asks for the next one at once.
    pub open spec fn handle_message(self, input: Seq<u8>) -> Handled {
        match ServerMsgView::read(input) {
            Err(e) => Handled::Failed(e),
            Ok(None) => Handled::Waiting,
            Ok(Some((msg, length))) => Handled::Advanced {
                next: self.after_message(msg),
                consumed: length,
                reply: if msg == ServerMsgView::FramebufferUpdate(0) {
                    refresh_request(self.screen)
                } else {
                    Seq::empty()
                },
            },
        }
    }

    /// The shape of the cursor that the events of a rectangle tell of, if
    /// they tell of one.
    pub open spec fn cursor_in(events: Seq<VncEventView>) -> Option<(Rect, Seq<u8>)> {
        if events.len() == 1 {
            match events[0] {
                VncEventView::SetCursor(rect, pixels) => Some((rect, pixels)),
                _ => None,
            }
        } else {
            None
        }
    }

    /// The client after a rectangle of the given encoding has given
    /// `events`: the events join the queue, a new size of the desktop and a
    /// new shape of the cursor are taken over, and one rectangle fewer is
    /// to come, or none after the last one.
    pub open spec fn after_rectangle(
        self,
        encoding: VncEncoding,
        rect: Rect,
        events: Seq<VncEventView>,
    ) -> ClientView {
        ClientView {
            screen: if encoding == VncEncoding::DesktopSizePseudo {
                Screen { width: rect.width, height: rect.height }
            } else {
                self.screen
            },
            pending: if encoding == VncEncoding::LastRectPseudo {
                0
            } else {
                (self.pending - 1) as u16
            },
            events: self.events + events,
            cursor: match ClientView::cursor_in(events) {
                Some(shape) => Some(shape),
                None => self.cursor,
            },
            ..self
        }
    }

    /// The step on a rectangle of a framebuffer update. A rectangle with
    /// pixels of the framebuffer has to lie inside the screen. When the
    /// update is over, the client asks for what changes next. `inflated` is
    /// what the zlib stream gave for the compressed part of the rectangle,
    /// if it has one and the stream took it.
    pub open spec fn handle_rectangle(self, input: Seq<u8>, inflated: Option<Seq<u8>>) -> Handled {
        if input.len() < 12 {
            Handled::Waiting
        } else {
            let header = RectHeader::at(input, 0);
            match VncEncoding::spec_from_code(header.encoding as int) {
                None => Handled::Failed(VncErrorView::Protocol),
                Some(encoding) => if !encoding.is_pseudo() && !header.rect.fits(self.screen) {
                    Handled::Failed(VncErrorView::Protocol)
                } else {
                    match rectangle::payload_length(
                        encoding,
                        header.rect,
                        self.pixel_format,
                        self.server_format,
                        input.subrange(12, input.len() as int),
                    ) {
                        Err(e) => Handled::Failed(e),
                        Ok(None) => Handled::Waiting,
                        Ok(Some(length)) => if input.len() < 12 + length {
                            Handled::Waiting
                        } else {
                            match rectangle::spec_decode(
                                encoding,
                                header.rect,
                                self.pixel_format,
                                self.server_format,
                                input.subrange(12, input.len() as int),
                                inflated,
                            ) {
                                Err(e) => Handled::Failed(e),
                                Ok(events) => {
                                    let next = self.after_rectangle(encoding, header.rect, events);
                                    Handled::Advanced {
                                        next,
                                        consumed: 12 + length,
                                        reply: if next.pending == 0 {
                                            refresh_request(next.screen)
                                        } else {
                                            Seq::empty()
                                        },
                                    }
                                },
                            }
                        },
                    }
                },
            }
        }
    }

    /// What the rectangle that is due asks of the zlib streams, if the
    /// input holds the whole of it: a rectangle is due while a framebuffer
    /// update is under way on a live client; it has to have a known
    /// encoding, to lie inside the screen where it carries pixels of the
    /// framebuffer, and to have all the bytes of its payload at hand.
    pub open spec fn due_plan(self, input: Seq<u8>) -> Option<rectangle::Plan> {
        if self.dead() || self.pending == 0 || input.len() < 12 {
            None
        } else {
            let header = RectHeader::at(input, 0);
            let rest = input.subrange(12, input.len() as int);
            match VncEncoding::spec_from_code(header.encoding as int) {
                None => None,
                Some(encoding) => if !encoding.is_pseudo() && !header.rect.fits(self.screen) {
                    None
                } else {
                    match rectangle::payload_length(
                        encoding,
                        header.rect,
                        self.pixel_format,
                        self.server_format,
                        rest,
                    ) {
                        Ok(Some(length)) => if rest.len() < length {
                            None
                        } else {
                            Some(
                                rectangle::spec_plan(
                                    encoding,
                                    header.rect,
                                    self.server_format,
                                    rest,
                                ),
                            )
                        },
                        _ => None,
                    }
                },
            }
        }
    }

    /// Whether a zlib stream may have given `inflated` for the rectangle
    /// that is due. Where no rectangle is due and whole, or the one that
    /// is has no compressed part, nothing is decompressed. A compressed
    /// part without bytes gives no bytes, and no compressed part gives more
    /// than its plan allows.
    pub open spec fn may_give(self, input: Seq<u8>, inflated: Option<Seq<u8>>) -> bool {
        match self.due_plan(input) {
            None => inflated is None,
            Some(plan) => match inflated {
                None => !(plan.compressed && plan.len == 0),
                Some(data) => plan.compressed && data.len() <= plan.limit && (plan.len == 0
                    ==> data.len() == 0),
            },
        }
    }

    /// One step on the bytes that the server sent: on the next rectangle
    /// while a framebuffer update is under way, else on the next message. A
    /// dead client takes nothing.
    pub open spec fn handle(self, input: Seq<u8>, inflated: Option<Seq<u8>>) -> Handled {
        if self.dead() {
            Handled::Failed(VncErrorView::ConnectError)
        } else if self.pending > 0 {
            self.handle_rectangle(input, inflated)
        } else {
            self.handle_message(input)
        }
    }

    /// The client after the connection has failed with `e`. A dead client
    /// stays as it is.
    pub open spec fn failed(self, e: VncErrorView) -> ClientView {
        if self.dead() {
            self
        } else {
            ClientView { failure: Some(e), ..self }
        }
    }

    /// What taking an event out of the queue gives, and the client after it.
    /// A closed client has nothing but `ConnectError`. Else the oldest event
    /// comes out. When none is left, the error that ended the connection
    /// comes out once, and the client is closed.
    pub open spec fn poll(self) -> (ClientView, Result<Option<VncEventView>, VncErrorView>) {
        if self.closed {
            (self, Err(VncErrorView::ConnectError))
        } else if self.events.len() > 0 {
            (ClientView { events: self.events.drop_first(), ..self }, Ok(Some(self.events[0])))
        } else {
            match self.failure {
                Some(e) => (ClientView { failure: None, closed: true, ..self }, Err(e)),
                None => (self, Ok(None)),
            }
        }
    }

    /// The client after `n` events have been taken out.
    pub open spec fn polled(self, n: nat) -> ClientView
        decreases n,
    {
        if n == 0 {
            self
        } else {
            self.poll().0.polled((n - 1) as nat)
        }
    }

    /// The message that an input of the caller becomes.
    pub open spec fn message_of(self, event: X11EventView) -> ClientMsgView {
        match event {
            X11EventView::Refresh => ClientMsgView::FramebufferUpdateRequest(
                Rect { x: 0, y: 0, width: self.screen.width, height: self.screen.height },
                1,
            ),
            X11EventView::KeyEvent { keysym, down } => ClientMsgView::KeyEvent(keysym, down),
            X11EventView::PointerEvent { x, y, buttons } => ClientMsgView::PointerEvent(
                x,
                y,
                buttons,
            ),
            X11EventView::CutText(text) => ClientMsgView::ClientCutText(text),
        }
    }

    /// The bytes that an input of the caller sends. A dead client sends none.
    pub open spec fn input(self, event: X11EventView) -> Result<Seq<u8>, VncErrorView> {
        if self.dead() {
            Err(VncErrorView::ConnectError)
        } else {
            self.message_of(event).encode()
        }
    }

    /// The client after it has been closed: nothing waits in it any more.
    pub open spec fn close(self) -> ClientView {
        ClientView {
            events: Seq::empty(),
            failure: None,
            closed: true,
            pending: 0,
            cursor: None,
            ..self
        }
    }
}

/// The mathematical value of what `poll_event` hands out.
pub open spec fn view_polled(res: Result<Option<VncEvent>, VncError>) -> Result<
    Option<VncEventView>,
    VncErrorView,
> {
    match res {
        Ok(Some(event)) => Ok(Some(event@)),
        Ok(None) => Ok(None),
        Err(e) => Err(e@),
    }
}

impl VncClient {
    /// Brings a client to life from what the server said of itself, and
    /// gives the bytes to send first. Fails with `Protocol` where there are
    /// more encodings than a message can list.
    pub fn new(init: ServerInit, wanted: Option<PixelFormat>, encodings: Vec<VncEncoding>) -> (res:
        Result<(VncClient, Vec<u8>), VncError>)
        ensures
            encodings@.len() <= 0xffff ==> (res matches Ok((client, output)) && client@
                == ClientView::start(init@, wanted, encodings@) && output@ == ClientView::greeting(
                init@,
                wanted,
                encodings@,
            ) && client.streams == Streams::fresh()),
            encodings@.len() > 0xffff ==> (res matches Err(e) && e == VncError::Protocol),
    {
        if encodings.len() > 0xffff {
            return Err(VncError::Protocol);
        }
        let mut output: Vec<u8> = Vec::new();
        let mut events: Vec<VncEvent> = Vec::new();
        let format = match wanted {
            Some(format) => {
                let res = ClientMsg::SetPixelFormat(format).write(&mut output);
                assert(output@ =~= ClientMsgView::SetPixelFormat(format).bytes());
                format
            },
            None => {
                events.push(VncEvent::SetPixelFormat(init.pixel_format));
                init.pixel_format
            },
        };
        let ghost first = output@;
        let listing = ClientMsg::SetEncodings(encodings);
        let res = listing.write(&mut output);
        let encodings = match listing {
            ClientMsg::SetEncodings(list) => list,
            _ => Vec::new(),
        };
        let whole = Rect { x: 0, y: 0, width: init.screen.width, height: init.screen.height };
        let res = ClientMsg::FramebufferUpdateRequest(whole, 0).write(&mut output);
        events.push(VncEvent::SetResolution(init.screen));
        let client = VncClient {
            pixel_format: format,
            server_format: format,
            encodings,
            screen: init.screen,
            name: init.name,
            pending: 0,
            events,
            failure: None,
            closed: false,
            cursor: None,
            streams: Streams::new(),
        };
        assert(client@.events =~= ClientView::start(init@, wanted, encodings@).events);
        assert(output@ =~= ClientView::greeting(init@, wanted, encodings@));
        Ok((client, output))
    }

    /// Whether the client takes no more part in the connection.
    pub fn is_dead(&self) -> (dead: bool)
        ensures
            dead == self@.dead(),
    {
        self.closed || self.failure.is_some()
    }

    /// The request for what changed anywhere on the screen.
    fn refresh(screen: &Screen) -> (bytes: Vec<u8>)
        ensures
            bytes@ == refresh_request(*screen),
    {
        let mut bytes: Vec<u8> = Vec::new();
        let whole = Rect { x: 0, y: 0, width: screen.width, height: screen.height };
        let res = ClientMsg::FramebufferUpdateRequest(whole, 1).write(&mut bytes);
        assert(bytes@ =~= refresh_request(*screen));
        bytes
    }

    /// Puts an event at the end of the queue.
    fn push_event(&mut self, event: VncEvent)
        ensures
            final(self)@ == old(self)@.with_event(event@),
            final(self).streams == old(self).streams,
    {
        self.events.push(event);
        assert(view_events(self.events@) =~= view_events(old(self).events@).push(event@));
    }

    /// The step on the header of a message.
    fn handle_message(&mut self, input: &[u8]) -> (res: Result<Option<Progress>, VncError>)
        requires
            !old(self)@.dead(),
        ensures
            outcome_is(old(self)@, old(self)@.handle_message(input@), res, final(self)@),
            final(self).streams == old(self).streams,
    {
        let (msg, length) = match ServerMsg::read(input) {
            Ok(Some(found)) => found,
            Ok(None) => {
                return Ok(None);
            },
            Err(e) => {
                self.failure = Some(e.duplicate());
                return Err(e);
            },
        };
        let mut reply: Vec<u8> = Vec::new();
        match msg {
            ServerMsg::FramebufferUpdate(count) => {
                self.pending = count;
                if count == 0 {
                    reply = VncClient::refresh(&self.screen);
                }
            },
            ServerMsg::SetColourMapEntries { .. } => {},
            ServerMsg::Bell => {
                self.push_event(VncEvent::Bell);
            },
            ServerMsg::ServerCutText(text) => {
                self.push_event(VncEvent::Text(text));
            },
        }
        Ok(Some(Progress { consumed: length, reply }))
    }

    /// Puts events at the end of the queue.
    fn push_events(&mut self, events: Vec<VncEvent>)
        ensures
            final(self)@ == (ClientView {
                events: old(self)@.events + view_events(events@),
                ..old(self)@
            }),
            final(self).streams == old(self).streams,
    {
        let mut events = events;
        let ghost added = events@;
        self.events.append(&mut events);
        assert(view_events(self.events@) =~= view_events(old(self).events@) + view_events(added));
    }

    /// The step on a rectangle of a framebuffer update.
    fn handle_rectangle(&mut self, input: &[u8], inflated: Option<&[u8]>) -> (res: Result<
        Option<Progress>,
        VncError,
    >)
        requires
            !old(self)@.dead(),
            old(self).pending > 0,
        ensures
            outcome_is(
                old(self)@,
                old(self)@.handle_rectangle(input@, view_inflated(inflated)),
                res,
                final(self)@,
            ),
            final(self).streams == old(self).streams,
    {
        let header = match RectHeader::read(input, 0) {
            Ok(header) => header,
            Err(e) => {
                return Ok(None);
            },
        };
        let encoding = match VncEncoding::from_code(header.encoding) {
            Some(encoding) => encoding,
            None => {
                self.failure = Some(VncError::Protocol);
                return Err(VncError::Protocol);
            },
        };
        if encoding.code() >= 0 && !header.rect.is_within(&self.screen) {
            self.failure = Some(VncError::Protocol);
            return Err(VncError::Protocol);
        }
        let rest = vstd::slice::slice_subrange(input, 12, input.len());
        let length = match rectangle::measure(
            encoding,
            &header.rect,
            &self.pixel_format,
            &self.server_format,
            rest,
        ) {
            Ok(Some(length)) => length,
            Ok(None) => {
                return Ok(None);
            },
            Err(e) => {
                self.failure = Some(e.duplicate());
                return Err(e);
            },
        };
        if ((input.len() - 12) as u64) < length {
            return Ok(None);
        }
        let end: usize = 12 + length as usize;
        let events = match rectangle::decode(
            encoding,
            &header.rect,
            &self.pixel_format,
            &self.server_format,
            rest,
            inflated,
        ) {
            Ok(events) => events,
            Err(e) => {
                self.failure = Some(e.duplicate());
                return Err(e);
            },
        };
        let ghost shown = view_events(events@);
        if events.len() == 1 {
            match &events[0] {
                VncEvent::SetCursor(rect, pixels) => {
                    let mut copy: Vec<u8> = Vec::new();
                    crate::wire::write_bytes(&mut copy, pixels.as_slice());
                    assert(copy@ =~= pixels@);
                    self.cursor = Some((*rect, copy));
                },
                _ => {},
            }
        }
        assert(view_cursor(self.cursor) == match ClientView::cursor_in(shown) {
            Some(shape) => Some(shape),
            None => old(self)@.cursor,
        });
        self.push_events(events);
        match encoding {
            VncEncoding::DesktopSizePseudo => {
                self.screen = Screen { width: header.rect.width, height: header.rect.height };
                self.pending = self.pending - 1;
            },
            VncEncoding::LastRectPseudo => {
                self.pending = 0;
            },
            _ => {
                self.pending = self.pending - 1;
            },
        }
        assert(self@ == old(self)@.after_rectangle(encoding, header.rect, shown));
        let reply = if self.pending == 0 {
            VncClient::refresh(&self.screen)
        } else {
            Vec::new()
        };
        Ok(Some(Progress { consumed: end, reply }))
    }

    /// Takes one step on the bytes that the server sent, given what the
    /// zlib stream gave for the compressed part of the next rectangle, if
    /// it has one and the stream took it. The zlib streams themselves are
    /// not touched.
    pub fn apply(&mut self, input: &[u8], inflated: Option<&[u8]>) -> (res: Result<
        Option<Progress>,
        VncError,
    >)
        ensures
            outcome_is(
                old(self)@,
                old(self)@.handle(input@, view_inflated(inflated)),
                res,
                final(self)@,
            ),
            final(self).streams == old(self).streams,
    {
        if self.is_dead() {
            Err(VncError::ConnectError)
        } else if self.pending > 0 {
            self.handle_rectangle(input, inflated)
        } else {
            self.handle_message(input)
        }
    }

    /// What the rectangle that is due asks of the zlib streams, if the
    /// input holds the whole of it.
    pub fn plan_next(&self, input: &[u8]) -> (plan: Option<rectangle::Plan>)
        ensures
            plan == self@.due_plan(input@),
            plan matches Some(p) ==> p.compressed ==> 12 + p.from + p.len <= input@.len(),
    {
        if self.is_dead() || self.pending == 0 {
            return None;
        }
        let header = match RectHeader::read(input, 0) {
            Ok(header) => header,
            Err(e) => {
                return None;
            },
        };
        let encoding = match VncEncoding::from_code(header.encoding) {
            Some(encoding) => encoding,
            None => {
                return None;
            },
        };
        if encoding.code() >= 0 && !header.rect.is_within(&self.screen) {
            return None;
        }
        let rest = vstd::slice::slice_subrange(input, 12, input.len());
        let length = match rectangle::measure(
            encoding,
            &header.rect,
            &self.pixel_format,
            &self.server_format,
            rest,
        ) {
            Ok(Some(length)) => length,
            _ => {
                return None;
            },
        };
        if ((input.len() - 12) as u64) < length {
            return None;
        }
        Some(rectangle::plan(encoding, &header.rect, &self.server_format, rest))
    }

    /// Does what the rectangle that is due asks of the zlib streams, if the
    /// input holds the whole of it: the streams that it names are put back
    /// to their start, and the part of it that is compressed goes through
    /// the stream that it names, which may give no more than the plan
    /// allows. `None` says that nothing was to be decompressed, or that the
    /// stream did not take the data. No stream but the one that
    /// decompresses is touched after the reset, none at all where nothing
    /// is due, and what the client is worth stays as it is.
    fn inflate_next(&mut self, input: &[u8]) -> (inflated: Option<Vec<u8>>)
        ensures
            final(self)@ == old(self)@,
            match old(self)@.due_plan(input@) {
                None => inflated is None && final(self).streams == old(self).streams,
                Some(plan) => {
                    let reset = old(self).streams.after_reset(plan.resets);
                    &&& final(self).streams.same_but(reset, plan.stream)
                    &&& !plan.compressed ==> inflated is None && final(self).streams == reset
                    &&& plan.compressed && plan.len == 0 ==> (inflated matches Some(out)
                        && out@.len() == 0) && final(self).streams == reset
                    &&& inflated matches Some(out) ==> plan.compressed && out@.len() <= plan.limit
                },
            },
    {
        let plan = match self.plan_next(input) {
            Some(plan) => plan,
            None => {
                return None;
            },
        };
        self.streams.reset(plan.resets);
        if !plan.compressed {
            return None;
        }
        let total = input.len();
        let from = 12 + plan.from;
        let chunk = vstd::slice::slice_subrange(input, from, from + plan.len);
        self.streams.inflate(plan.stream, chunk, plan.limit)
    }

    /// Takes one step on the bytes that the server sent and that have not
    /// been taken yet: on the next rectangle while a framebuffer update is
    /// under way, else on the header of the next message. `Ok(None)` says
    /// that the bytes end too early and nothing has changed. An error ends
    /// the connection; `poll_event` hands it out after the events that wait.
    ///
    /// The step is the one that `apply` takes with what the zlib stream
    /// gives for the compressed part of the rectangle. The zlib streams
    /// stay as they are unless the input holds the whole of a rectangle
    /// that is due: then the streams that it names are put back to their
    /// start, and besides them only the stream that decompresses for it
    /// changes.
    pub fn handle(&mut self, input: &[u8]) -> (res: Result<Option<Progress>, VncError>)
        ensures
            exists|inflated: Option<Seq<u8>>|
                old(self)@.may_give(input@, inflated) && outcome_is(
                    old(self)@,
                    #[trigger] old(self)@.handle(input@, inflated),
                    res,
                    final(self)@,
                ),
            match old(self)@.due_plan(input@) {
                None => final(self).streams == old(self).streams,
                Some(plan) => final(self).streams.same_but(
                    old(self).streams.after_reset(plan.resets),
                    plan.stream,
                ),
            },
    {
        let inflated = self.inflate_next(input);
        match inflated {
            Some(data) => {
                let res = self.apply(input, Some(data.as_slice()));
                assert(old(self)@.may_give(input@, Some(data@)) && outcome_is(
                    old(self)@,
                    old(self)@.handle(input@, Some(data@)),
                    res,
                    self@,
                ));
                res
            },
            None => {
                let res = self.apply(input, None);
                assert(old(self)@.may_give(input@, None) && outcome_is(
                    old(self)@,
                    old(self)@.handle(input@, None),
                    res,
                    self@,
                ));
                res
            },
        }
    }

    /// Records that the connection has failed, as the driver does when the
    /// stream fails or ends. A dead client stays as it is.
    pub fn fail(&mut self, error: VncError)
        ensures
            final(self)@ == old(self)@.failed(error@),
            final(self).streams == old(self).streams,
    {
        if !self.is_dead() {
            self.failure = Some(error);
        }
    }

    /// Takes the oldest event out of the queue, if one waits.
    pub fn poll_event(&mut self) -> (res: Result<Option<VncEvent>, VncError>)
        ensures
            final(self)@ == old(self)@.poll().0,
            final(self).streams == old(self).streams,
            view_polled(res) == old(self)@.poll().1,
    {
        if self.closed {
            return Err(VncError::ConnectError);
        }
        if self.events.len() > 0 {
            let event = self.events.remove(0);
            assert(view_events(self.events@) =~= view_events(old(self).events@).drop_first());
            return Ok(Some(event));
        }
        match self.failure.take() {
            Some(e) => {
                self.closed = true;
                Err(e)
            },
            None => Ok(None),
        }
    }

    /// The bytes that tell the server of an input of the caller. Fails with
    /// `ConnectError` on a dead client, and with `Protocol` where a text is
    /// longer than a message can hold.
    pub fn input(&self, event: X11Event) -> (res: Result<Vec<u8>, VncError>)
        ensures
            view_result(res) == self@.input(event@),
    {
        if self.is_dead() {
            return Err(VncError::ConnectError);
        }
        let msg = match event {
            X11Event::Refresh => ClientMsg::FramebufferUpdateRequest(
                Rect { x: 0, y: 0, width: self.screen.width, height: self.screen.height },
                1,
            ),
            X11Event::KeyEvent { keysym, down } => ClientMsg::KeyEvent(keysym, down),
            X11Event::PointerEvent { x, y, buttons } => ClientMsg::PointerEvent(x, y, buttons),
            X11Event::CutText(text) => ClientMsg::ClientCutText(text),
        };
        msg.encode()
    }

    /// Closes the client. Whatever waited in it is dropped, and from now on
    /// every operation but `close` fails with `ConnectError`.
    pub fn close(&mut self)
        ensures
            final(self)@ == old(self)@.close(),
            final(self).streams == old(self).streams,
    {
        self.events = Vec::new();
        self.failure = None;
        self.closed = true;
        self.pending = 0;
        self.cursor = None;
        assert(view_events(self.events@) =~= Seq::<VncEventView>::empty());
    }
}

/// Whether what `handle` handed out and left behind is what the step comes to.
pub open spec fn outcome_is(
    before: ClientView,
    step: Handled,
    res: Result<Option<Progress>, VncError>,
    after: ClientView,
) -> bool {
    match step {
        Handled::Waiting => res matches Ok(None) && after == before,
        Handled::Advanced { next, consumed, reply } => res matches Ok(Some(progress))
            && progress.consumed == consumed && progress.reply@ == reply && after == next,
        Handled::Failed(e) => res matches Err(f) && f@ == e && after == before.failed(e),
    }
}

/// Events leave in the order in which they came: after as many polls as
/// events waited, a live client has handed out each of them in turn, and
/// poll `k` handed out event `k`.
pub proof fn lemma_events_leave_in_order(client: ClientView, k: nat)
    requires
        !client.closed,
        k < client.events.len(),
    ensures
        client.polled(k).events == client.events.subrange(k as int, client.events.len() as int),
        client.polled(k).poll().1 == Ok::<Option<VncEventView>, VncErrorView>(
            Some(client.events[k as int]),
        ),
        !client.polled(k).closed,
    decreases k,
{
    if k == 0 {
        assert(client.events.subrange(0, client.events.len() as int) =~= client.events);
    } else {
        let next = client.poll().0;
        assert(next.events == client.events.drop_first());
        lemma_events_leave_in_order(next, (k - 1) as nat);
        assert(next.events.subrange(k - 1, next.events.len() as int) =~= client.events.subrange(
            k as int,
            client.events.len() as int,
        ));
    }
}

/// A rectangle that carries pixels of the framebuffer is taken only where
/// it lies inside the screen as the client knows it at that moment.
pub proof fn lemma_taken_rectangle_lies_inside(
    client: ClientView,
    input: Seq<u8>,
    inflated: Option<Seq<u8>>,
)
    requires
        client.handle_rectangle(input, inflated) is Advanced,
    ensures
        input.len() >= 12,
        VncEncoding::spec_from_code(RectHeader::at(input, 0).encoding as int) matches Some(
            encoding,
        ) && (encoding.is_pseudo() || RectHeader::at(input, 0).rect.fits(client.screen)),
{
}

/// The events that a rectangle with pixels of the framebuffer gives paint
/// nothing outside that rectangle, and so nothing outside the screen.
pub proof fn lemma_events_lie_inside(
    client: ClientView,
    input: Seq<u8>,
    inflated: Option<Seq<u8>>,
)
    requires
        client.handle_rectangle(input, inflated) is Advanced,
        VncEncoding::spec_from_code(RectHeader::at(input, 0).encoding as int) matches Some(
            encoding,
        ) && !encoding.is_pseudo(),
    ensures
        ({
            let next = client.handle_rectangle(input, inflated)->next;
            let rect = RectHeader::at(input, 0).rect;
            &&& client.events.len() <= next.events.len()
            &&& forall|i: int|
                client.events.len() <= i < next.events.len() ==> (
                #[trigger] next.events[i]).paints_within(rect) && match next.events[i].painted() {
                    Some(part) => part.fits(client.screen),
                    None => true,
                }
        }),
{
    reveal(rectangle::spec_decode);
    let header = RectHeader::at(input, 0);
    let rect = header.rect;
    let encoding = VncEncoding::spec_from_code(header.encoding as int)->0;
    let rest = input.subrange(12, input.len() as int);
    let made = rectangle::spec_decode(
        encoding,
        rect,
        client.pixel_format,
        client.server_format,
        rest,
        inflated,
    )->Ok_0;
    let next = client.handle_rectangle(input, inflated)->next;
    assert(next.events == client.events + made);
    assert(rect.within(rect));
    match encoding {
        VncEncoding::Trle => {
            crate::codec::trle::lemma_tiles_lie_inside(
                rest,
                0,
                0,
                0,
                rect,
                rectangle::TRLE_TILE as int,
                client.pixel_format,
                client.server_format,
                Seq::empty(),
            );
        },
        VncEncoding::Zrle => {
            crate::codec::trle::lemma_tiles_lie_inside(
                inflated->Some_0,
                0,
                0,
                0,
                rect,
                crate::codec::zrle::TILE as int,
                client.pixel_format,
                client.server_format,
                Seq::empty(),
            );
        },
        _ => {},
    }
    assert forall|i: int| 0 <= i < made.len() implies (#[trigger] made[i]).paints_within(rect) by {
    }
    assert forall|i: int| client.events.len() <= i < next.events.len() implies (
    #[trigger] next.events[i]).paints_within(rect) && match next.events[i].painted() {
        Some(r) => r.fits(client.screen),
        None => true,
    } by {
        let event = next.events[i];
        assert(event == made[i - client.events.len()]);
        assert(event.paints_within(rect));
        match event.painted() {
            Some(r) => {
                crate::protocol::rect::lemma_within_fits(r, rect, client.screen);
            },
            None => {},
        }
    }
}

/// Whatever a rectangle gives, an image among it holds a pixel of the
/// client's format for each pixel of the part that it paints, and the
/// shape of a cursor four bytes for each of its pixels.
pub proof fn lemma_events_hold_their_pixels(
    client: ClientView,
    input: Seq<u8>,
    inflated: Option<Seq<u8>>,
)
    requires
        client.handle_rectangle(input, inflated) is Advanced,
    ensures
        ({
            let next = client.handle_rectangle(input, inflated)->next;
            &&& client.events.len() <= next.events.len()
            &&& forall|i: int|
                client.events.len() <= i < next.events.len() ==> (
                #[trigger] next.events[i]).holds_its_pixels(client.pixel_format)
        }),
{
    reveal(rectangle::spec_decode);
    let header = RectHeader::at(input, 0);
    let rect = header.rect;
    let encoding = VncEncoding::spec_from_code(header.encoding as int)->0;
    let rest = input.subrange(12, input.len() as int);
    let made = rectangle::spec_decode(
        encoding,
        rect,
        client.pixel_format,
        client.server_format,
        rest,
        inflated,
    )->Ok_0;
    let next = client.handle_rectangle(input, inflated)->next;
    assert(next.events == client.events + made);
    let area = rect.width as int * rect.height as int;
    crate::codec::raw::lemma_product_bound(rect.width as int, rect.height as int, 65535, 65535);
    match encoding {
        VncEncoding::Raw => {
            crate::codec::raw::lemma_translate_all_len(
                client.pixel_format,
                client.server_format,
                rest.subrange(
                    0,
                    crate::codec::raw::raw_length(rect.width, rect.height, client.server_format),
                ),
                area,
            );
        },
        VncEncoding::Tight => {
            crate::codec::tight::lemma_rectangle_holds_its_pixels(
                rect,
                client.pixel_format,
                client.server_format,
                rest,
                inflated,
            );
        },
        VncEncoding::Trle => {
            crate::codec::trle::lemma_tiles_hold_their_pixels(
                rest,
                0,
                0,
                0,
                rect,
                rectangle::TRLE_TILE as int,
                client.pixel_format,
                client.server_format,
                Seq::empty(),
            );
        },
        VncEncoding::Zrle => {
            crate::codec::trle::lemma_tiles_hold_their_pixels(
                inflated->Some_0,
                0,
                0,
                0,
                rect,
                crate::codec::zrle::TILE as int,
                client.pixel_format,
                client.server_format,
                Seq::empty(),
            );
        },
        _ => {},
    }
    assert forall|i: int| 0 <= i < made.len() implies (#[trigger] made[i]).holds_its_pixels(
        client.pixel_format,
    ) by {
    }
    assert forall|i: int| client.events.len() <= i < next.events.len() implies (
    #[trigger] next.events[i]).holds_its_pixels(client.pixel_format) by {
        assert(next.events[i] == made[i - client.events.len()]);
    }
}

/// A rectangle takes its header and exactly the bytes that its encoding
/// asks for after it, all of which the input holds.
pub proof fn lemma_rectangle_takes_its_length(
    client: ClientView,
    input: Seq<u8>,
    inflated: Option<Seq<u8>>,
)
    requires
        client.handle_rectangle(input, inflated) is Advanced,
    ensures
        ({
            let header = RectHeader::at(input, 0);
            let consumed = client.handle_rectangle(input, inflated)->consumed;
            &&& consumed <= input.len()
            &&& rectangle::payload_length(
                VncEncoding::spec_from_code(header.encoding as int)->0,
                header.rect,
                client.pixel_format,
                client.server_format,
                input.subrange(12, input.len() as int),
            ) == Ok::<Option<int>, VncErrorView>(Some(consumed - 12))
        }),
{
}

/// The lengths that the encodings with a length of their own ask for: raw
/// pixels take the area times the bytes of a pixel, a copy four bytes, a
/// cursor its pixels and its mask, ZRLE four bytes and what they count, and
/// a new size of the desktop and the end of the update nothing.
pub proof fn lemma_payload_lengths(
    rect: Rect,
    client: PixelFormat,
    server: PixelFormat,
    rest: Seq<u8>,
)
    ensures
        rectangle::payload_length(VncEncoding::Raw, rect, client, server, rest) == Ok::<
            Option<int>,
            VncErrorView,
        >(Some(rect.area() * server.spec_bytes_per_pixel())),
        rectangle::payload_length(VncEncoding::CopyRect, rect, client, server, rest) == Ok::<
            Option<int>,
            VncErrorView,
        >(Some(4)),
        rectangle::payload_length(VncEncoding::CursorPseudo, rect, client, server, rest) == Ok::<
            Option<int>,
            VncErrorView,
        >(
            Some(
                rect.area() * server.spec_bytes_per_pixel() + ((rect.width + 7) / 8)
                    * rect.height,
            ),
        ),
        rectangle::payload_length(VncEncoding::DesktopSizePseudo, rect, client, server, rest)
            == Ok::<Option<int>, VncErrorView>(Some(0)),
        rectangle::payload_length(VncEncoding::LastRectPseudo, rect, client, server, rest)
            == Ok::<Option<int>, VncErrorView>(Some(0)),
        rest.len() >= 4 ==> rectangle::payload_length(
            VncEncoding::Zrle,
            rect,
            client,
            server,
            rest,
        ) == Ok::<Option<int>, VncErrorView>(Some(4 + u32_at(rest, 0))),
{
    reveal(rectangle::payload_length);
}

/// The rectangle that ends an update ends it wherever it stands: whatever
/// the update announced, no rectangle is due after it, nothing but its
/// twelve bytes is taken, no event is made, and the client asks for the
/// next update.
pub proof fn lemma_last_rectangle_ends_update(
    client: ClientView,
    input: Seq<u8>,
    inflated: Option<Seq<u8>>,
)
    requires
        !client.dead(),
        client.pending > 0,
        input.len() >= 12,
        RectHeader::at(input, 0).encoding == VncEncoding::LastRectPseudo.spec_code(),
    ensures
        client.handle(input, inflated) == (Handled::Advanced {
            next: ClientView { pending: 0, ..client },
            consumed: 12,
            reply: refresh_request(client.screen),
        }),
{
    reveal(rectangle::payload_length);
    reveal(rectangle::spec_decode);
    let next = client.after_rectangle(
        VncEncoding::LastRectPseudo,
        RectHeader::at(input, 0).rect,
        Seq::empty(),
    );
    assert(client.events + Seq::<VncEventView>::empty() =~= client.events);
    assert(next == ClientView { pending: 0, ..client });
}

/// Closing a client twice is closing it once.
pub proof fn lemma_close_is_idempotent(client: ClientView)
    ensures
        client.close().close() == client.close(),
        client.close().dead(),
{
}

} // verus!
