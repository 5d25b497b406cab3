use vnc::client::connection::Progress;
use vnc::codec::rectangle::RectHeader;
use vnc::codec::{cursor, raw, rectangle};
use vnc::protocol::messages::ServerInit;
use vnc::{
    PixelFormat, Rect, Screen, VncClient, VncEncoding, VncError, VncEvent, X11Event,
};

fn client(width: u16, height: u16) -> VncClient {
    let init = ServerInit {
        screen: Screen { width, height },
        pixel_format: PixelFormat::bgra(),
        name: "test".to_string(),
    };
    let (mut client, _) =
        VncClient::new(init, Some(PixelFormat::bgra()), vec![VncEncoding::Raw]).unwrap();
    assert_eq!(
        client.poll_event(),
        Ok(Some(VncEvent::SetResolution(Screen { width, height })))
    );
    client
}

fn rect_header(x: u16, y: u16, w: u16, h: u16, encoding: i32) -> Vec<u8> {
    let mut bytes = Vec::new();
    for v in [x, y, w, h] {
        bytes.extend_from_slice(&v.to_be_bytes());
    }
    bytes.extend_from_slice(&encoding.to_be_bytes());
    bytes
}

/// Feeds the whole of `stream` to the client, step by step, and gathers the replies.
fn feed(client: &mut VncClient, stream: &[u8]) -> Result<(usize, Vec<u8>), VncError> {
    let mut at = 0;
    let mut replies = Vec::new();
    loop {
        match client.handle(&stream[at..])? {
            None => return Ok((at, replies)),
            Some(Progress { consumed, reply }) => {
                at += consumed;
                replies.extend_from_slice(&reply);
            }
        }
    }
}

fn refresh(width: u16, height: u16) -> Vec<u8> {
    let mut bytes = vec![3, 1, 0, 0, 0, 0];
    bytes.extend_from_slice(&width.to_be_bytes());
    bytes.extend_from_slice(&height.to_be_bytes());
    bytes
}

#[test]
fn new_client_greets_the_server() {
    let init = ServerInit {
        screen: Screen { width: 0x102, height: 0x304 },
        pixel_format: PixelFormat::rgba(),
        name: "n".to_string(),
    };
    let (mut client, output) = VncClient::new(
        init,
        None,
        vec![VncEncoding::Tight, VncEncoding::Raw],
    )
    .unwrap();
    assert_eq!(
        output,
        vec![2, 0, 0, 2, 0, 0, 0, 7, 0, 0, 0, 0, 3, 0, 0, 0, 0, 0, 1, 2, 3, 4]
    );
    assert_eq!(client.pixel_format, PixelFormat::rgba());
    assert_eq!(client.encodings, vec![VncEncoding::Tight, VncEncoding::Raw]);
    assert_eq!(client.poll_event(), Ok(Some(VncEvent::SetPixelFormat(PixelFormat::rgba()))));
    assert_eq!(
        client.poll_event(),
        Ok(Some(VncEvent::SetResolution(Screen { width: 0x102, height: 0x304 })))
    );
    assert_eq!(client.poll_event(), Ok(None));
}

#[test]
fn update_with_last_rect_emits_exactly_one_image() {
    let mut c = client(8, 8);
    let mut stream = vec![0, 0, 0, 2];
    stream.extend_from_slice(&rect_header(0, 0, 4, 4, 0));
    let pixels: Vec<u8> = (0u8..64).collect();
    stream.extend_from_slice(&pixels);
    stream.extend_from_slice(&rect_header(0, 0, 0, 0, -224));
    stream.extend_from_slice(&[2]); // a bell follows the update
    let (taken, replies) = feed(&mut c, &stream).unwrap();
    assert_eq!(taken, stream.len());
    assert_eq!(replies, refresh(8, 8));
    assert_eq!(
        c.poll_event(),
        Ok(Some(VncEvent::RawImage(Rect { x: 0, y: 0, width: 4, height: 4 }, pixels)))
    );
    assert_eq!(c.poll_event(), Ok(Some(VncEvent::Bell)));
    assert_eq!(c.poll_event(), Ok(None));
}

#[test]
fn last_rect_ends_the_update_whatever_the_count_says() {
    let mut c = client(8, 8);
    let mut stream = vec![0, 0, 0, 9];
    stream.extend_from_slice(&rect_header(1, 1, 1, 1, 1));
    stream.extend_from_slice(&[0, 2, 0, 3]);
    stream.extend_from_slice(&rect_header(0, 0, 0, 0, -224));
    let tail = stream.len();
    // What follows is the next message, not a rectangle.
    stream.extend_from_slice(&[2]);
    assert_eq!(c.handle(&stream), Ok(Some(Progress { consumed: 4, reply: vec![] })));
    assert_eq!(c.pending, 9);
    assert_eq!(c.handle(&stream[4..]), Ok(Some(Progress { consumed: 16, reply: vec![] })));
    assert_eq!(c.pending, 8);
    assert_eq!(
        c.handle(&stream[20..]),
        Ok(Some(Progress { consumed: 12, reply: refresh(8, 8) }))
    );
    assert_eq!(c.pending, 0);
    assert_eq!(c.handle(&stream[tail..]), Ok(Some(Progress { consumed: 1, reply: vec![] })));
    assert_eq!(
        c.poll_event(),
        Ok(Some(VncEvent::Copy(
            Rect { x: 1, y: 1, width: 1, height: 1 },
            Rect { x: 2, y: 3, width: 1, height: 1 }
        )))
    );
    assert_eq!(c.poll_event(), Ok(Some(VncEvent::Bell)));
}

#[test]
fn incomplete_input_changes_nothing() {
    let mut c = client(8, 8);
    let mut stream = vec![0, 0, 0, 1];
    stream.extend_from_slice(&rect_header(0, 0, 2, 2, 0));
    stream.extend_from_slice(&[9u8; 16]);
    assert_eq!(c.handle(&[]), Ok(None));
    assert_eq!(c.handle(&stream[..3]), Ok(None));
    assert_eq!(c.handle(&stream[..4]), Ok(Some(Progress { consumed: 4, reply: vec![] })));
    for end in 4..stream.len() {
        assert_eq!(c.handle(&stream[4..end]), Ok(None));
        assert_eq!(c.pending, 1);
        assert!(c.events.is_empty());
    }
    assert_eq!(
        c.handle(&stream[4..]),
        Ok(Some(Progress { consumed: 28, reply: refresh(8, 8) }))
    );
    assert_eq!(
        c.poll_event(),
        Ok(Some(VncEvent::RawImage(Rect { x: 0, y: 0, width: 2, height: 2 }, vec![9u8; 16])))
    );
}

#[test]
fn empty_update_asks_for_the_next_one() {
    let mut c = client(3, 5);
    assert_eq!(
        c.handle(&[0, 0, 0, 0, 2]),
        Ok(Some(Progress { consumed: 4, reply: refresh(3, 5) }))
    );
}

#[test]
fn rectangle_outside_the_screen_is_a_protocol_error() {
    let mut c = client(8, 8);
    let mut stream = vec![0, 0, 0, 1];
    stream.extend_from_slice(&rect_header(5, 0, 4, 1, 0));
    stream.extend_from_slice(&[0u8; 16]);
    assert_eq!(feed(&mut c, &stream), Err(VncError::Protocol));
    assert_eq!(c.poll_event(), Err(VncError::Protocol));
    assert_eq!(c.poll_event(), Err(VncError::ConnectError));
    assert_eq!(c.handle(&[2]), Err(VncError::ConnectError));
}

#[test]
fn unknown_encoding_and_unknown_message_are_protocol_errors() {
    let mut c = client(8, 8);
    let mut stream = vec![0, 0, 0, 1];
    stream.extend_from_slice(&rect_header(0, 0, 1, 1, 2));
    assert_eq!(feed(&mut c, &stream), Err(VncError::Protocol));
    let mut c = client(8, 8);
    assert_eq!(c.handle(&[4]), Err(VncError::Protocol));
}

#[test]
fn events_that_waited_come_out_before_the_error() {
    let mut c = client(8, 8);
    assert_eq!(feed(&mut c, &[2, 2, 99]), Err(VncError::Protocol));
    assert_eq!(c.poll_event(), Ok(Some(VncEvent::Bell)));
    assert_eq!(c.poll_event(), Ok(Some(VncEvent::Bell)));
    assert_eq!(c.poll_event(), Err(VncError::Protocol));
    assert_eq!(c.poll_event(), Err(VncError::ConnectError));
}

#[test]
fn events_come_out_in_the_order_of_the_wire() {
    let mut c = client(8, 8);
    let mut stream = vec![2];
    stream.extend_from_slice(&[3, 0, 0, 0, 0, 0, 0, 3, b'o', b'n', b'e']);
    stream.extend_from_slice(&[0, 0, 0, 2]);
    stream.extend_from_slice(&rect_header(0, 0, 1, 1, 0));
    stream.extend_from_slice(&[1, 2, 3, 4]);
    stream.extend_from_slice(&rect_header(0, 0, 16, 9, -223));
    stream.extend_from_slice(&[3, 0, 0, 0, 0, 0, 0, 3, b't', b'w', b'o']);
    let (taken, replies) = feed(&mut c, &stream).unwrap();
    assert_eq!(taken, stream.len());
    // The request after the update covers the screen at its new size.
    assert_eq!(replies, refresh(16, 9));
    assert_eq!(c.screen, Screen { width: 16, height: 9 });
    assert_eq!(c.poll_event(), Ok(Some(VncEvent::Bell)));
    assert_eq!(c.poll_event(), Ok(Some(VncEvent::Text("one".to_string()))));
    assert_eq!(
        c.poll_event(),
        Ok(Some(VncEvent::RawImage(Rect { x: 0, y: 0, width: 1, height: 1 }, vec![1, 2, 3, 4])))
    );
    assert_eq!(
        c.poll_event(),
        Ok(Some(VncEvent::SetResolution(Screen { width: 16, height: 9 })))
    );
    assert_eq!(c.poll_event(), Ok(Some(VncEvent::Text("two".to_string()))));
    assert_eq!(c.poll_event(), Ok(None));
}

#[test]
fn colour_map_entries_are_passed_over() {
    let mut c = client(8, 8);
    let mut stream = vec![1, 0, 0, 5, 0, 2];
    stream.extend_from_slice(&[7u8; 12]);
    stream.push(2);
    assert_eq!(c.handle(&stream[..17]), Ok(None));
    assert_eq!(c.handle(&stream), Ok(Some(Progress { consumed: 18, reply: vec![] })));
    assert_eq!(c.poll_event(), Ok(None));
}

#[test]
fn server_text_that_is_not_utf8_is_a_protocol_error() {
    let mut c = client(8, 8);
    assert_eq!(c.handle(&[3, 0, 0, 0, 0, 0, 0, 1, 0x80]), Err(VncError::Protocol));
}

#[test]
fn refresh_input_asks_for_the_whole_screen() {
    let c = client(0x0400, 0x0300);
    assert_eq!(c.input(X11Event::Refresh), Ok(vec![3, 1, 0, 0, 0, 0, 0x04, 0x00, 0x03, 0x00]));
}

#[test]
fn inputs_become_client_messages() {
    let c = client(8, 8);
    assert_eq!(
        c.input(X11Event::KeyEvent { keysym: 0xff0d, down: true }),
        Ok(vec![4, 1, 0, 0, 0, 0, 0xff, 0x0d])
    );
    assert_eq!(
        c.input(X11Event::PointerEvent { x: 3, y: 4, buttons: 8 }),
        Ok(vec![5, 8, 0, 3, 0, 4])
    );
    assert_eq!(
        c.input(X11Event::PointerEvent { x: 3, y: 4, buttons: 0 }),
        Ok(vec![5, 0, 0, 3, 0, 4])
    );
    assert_eq!(
        c.input(X11Event::CutText("ab".to_string())),
        Ok(vec![6, 0, 0, 0, 0, 0, 0, 2, b'a', b'b'])
    );
}

#[test]
fn one_notch_of_the_wheel_is_a_press_and_a_release() {
    let c = client(8, 8);
    let (press, release) = X11Event::wheel(3, 4, true);
    assert_eq!(press, X11Event::PointerEvent { x: 3, y: 4, buttons: 8 });
    assert_eq!(release, X11Event::PointerEvent { x: 3, y: 4, buttons: 0 });
    assert_eq!(c.input(press), Ok(vec![5, 8, 0, 3, 0, 4]));
    assert_eq!(c.input(release), Ok(vec![5, 0, 0, 3, 0, 4]));
    let (press, release) = X11Event::wheel(1, 2, false);
    assert_eq!(press, X11Event::PointerEvent { x: 1, y: 2, buttons: 16 });
    assert_eq!(release, X11Event::PointerEvent { x: 1, y: 2, buttons: 0 });
}

#[test]
fn failure_of_the_stream_is_handed_out_after_the_events() {
    let mut c = client(8, 8);
    assert_eq!(c.handle(&[2]), Ok(Some(Progress { consumed: 1, reply: vec![] })));
    c.fail(VncError::Io);
    assert!(c.is_dead());
    c.fail(VncError::Protocol);
    assert_eq!(c.poll_event(), Ok(Some(VncEvent::Bell)));
    assert_eq!(c.poll_event(), Err(VncError::Io));
    assert_eq!(c.poll_event(), Err(VncError::ConnectError));
}

#[test]
fn close_is_idempotent_and_ends_everything() {
    let mut c = client(8, 8);
    assert_eq!(c.handle(&[2]), Ok(Some(Progress { consumed: 1, reply: vec![] })));
    assert!(!c.is_dead());
    c.close();
    assert!(c.is_dead());
    assert!(c.closed && c.events.is_empty());
    c.close();
    assert!(c.closed && c.events.is_empty());
    assert_eq!(c.poll_event(), Err(VncError::ConnectError));
    assert_eq!(c.input(X11Event::Refresh), Err(VncError::ConnectError));
    assert_eq!(c.handle(&[2]), Err(VncError::ConnectError));
}

#[test]
fn too_many_encodings_cannot_be_listed() {
    let init = ServerInit {
        screen: Screen { width: 1, height: 1 },
        pixel_format: PixelFormat::bgra(),
        name: String::new(),
    };
    let many = vec![VncEncoding::Raw; 65536];
    assert!(matches!(VncClient::new(init, None, many), Err(VncError::Protocol)));
}

#[test]
fn rect_header_is_twelve_bytes() {
    let bytes = rect_header(1, 2, 3, 4, -239);
    let header = RectHeader::read(&bytes, 0).unwrap();
    assert_eq!(header.rect, Rect { x: 1, y: 2, width: 3, height: 4 });
    assert_eq!(header.encoding, -239);
    assert_eq!(RectHeader::read(&bytes, 1), Err(VncError::Io));
    assert_eq!(RectHeader::read(&bytes[..11], 0), Err(VncError::Io));
}

#[test]
fn payload_lengths_follow_from_the_header() {
    let bgra = PixelFormat::bgra();
    let r = Rect { x: 0, y: 0, width: 10, height: 3 };
    assert_eq!(rectangle::measure(VncEncoding::Raw, &r, &bgra, &bgra, &[]), Ok(Some(120)));
    assert_eq!(rectangle::measure(VncEncoding::CopyRect, &r, &bgra, &bgra, &[]), Ok(Some(4)));
    // 120 bytes of pixels and two bytes of mask for each of three rows.
    assert_eq!(rectangle::measure(VncEncoding::CursorPseudo, &r, &bgra, &bgra, &[]), Ok(Some(126)));
    assert_eq!(rectangle::measure(VncEncoding::DesktopSizePseudo, &r, &bgra, &bgra, &[]), Ok(Some(0)));
    assert_eq!(rectangle::measure(VncEncoding::LastRectPseudo, &r, &bgra, &bgra, &[]), Ok(Some(0)));
    assert_eq!(raw::measure(65535, 65535, &bgra), 65535 * 65535 * 4);
    assert_eq!(cursor::measure(9, 2, &bgra), 72 + 4);
}

#[test]
fn rectangles_are_decoded_from_what_follows_their_header() {
    let bgra = PixelFormat::bgra();
    let r = Rect { x: 1, y: 2, width: 1, height: 2 };
    let rest = [1, 2, 3, 4, 5, 6, 7, 8, 0xee, 0xee];
    assert_eq!(
        rectangle::decode(VncEncoding::Raw, &r, &bgra, &bgra, &rest, None),
        Ok(vec![VncEvent::RawImage(r, vec![1, 2, 3, 4, 5, 6, 7, 8])])
    );
    assert_eq!(
        rectangle::decode(VncEncoding::Raw, &r, &bgra, &bgra, &rest[..7], None),
        Err(VncError::Protocol)
    );
    assert_eq!(
        rectangle::decode(VncEncoding::CopyRect, &r, &bgra, &bgra, &rest, None),
        Ok(vec![VncEvent::Copy(r, Rect { x: 0x102, y: 0x304, width: 1, height: 2 })])
    );
    assert_eq!(
        rectangle::decode(VncEncoding::CopyRect, &r, &bgra, &bgra, &rest[..3], None),
        Err(VncError::Protocol)
    );
    assert_eq!(
        rectangle::decode(VncEncoding::DesktopSizePseudo, &r, &bgra, &bgra, &rest, None),
        Ok(vec![VncEvent::SetResolution(Screen { width: 1, height: 2 })])
    );
    assert_eq!(
        rectangle::decode(VncEncoding::LastRectPseudo, &r, &bgra, &bgra, &rest, None),
        Ok(vec![])
    );
    assert_eq!(
        rectangle::decode(VncEncoding::Trle, &r, &bgra, &bgra, &[1, 7, 8, 9, 0xee], None),
        Ok(vec![VncEvent::RawImage(r, vec![7, 8, 9, 0, 7, 8, 9, 0])])
    );
    assert_eq!(
        rectangle::decode(VncEncoding::Trle, &r, &bgra, &bgra, &[1, 7, 8], None),
        Err(VncError::Protocol)
    );
    assert_eq!(
        rectangle::decode(VncEncoding::Zrle, &r, &bgra, &bgra, &[], Some(&[1, 7, 8, 9][..])),
        Ok(vec![VncEvent::RawImage(r, vec![7, 8, 9, 0, 7, 8, 9, 0])])
    );
    // Two rows of one pixel: the mask holds a byte for each row.
    let shape = [1, 2, 3, 4, 5, 6, 7, 8, 0x00, 0x80, 0xee];
    assert_eq!(
        rectangle::decode(VncEncoding::CursorPseudo, &r, &bgra, &bgra, &shape, None),
        Ok(vec![VncEvent::SetCursor(r, vec![0, 0, 0, 0, 5, 6, 7, 255])])
    );
}

#[test]
fn raw_pixels_are_translated_one_by_one() {
    let bgra = PixelFormat::bgra();
    let rgba = PixelFormat::rgba();
    assert_eq!(
        raw::translate_pixels(&rgba, &bgra, &[1, 2, 3, 0, 4, 5, 6, 0]),
        Ok(vec![3, 2, 1, 0, 6, 5, 4, 0])
    );
    assert_eq!(raw::translate_pixels(&bgra, &bgra, &[1, 2, 3, 9]), Ok(vec![1, 2, 3, 9]));
    assert_eq!(raw::translate_pixels(&rgba, &bgra, &[]), Ok(vec![]));
    assert_eq!(raw::translate_pixels(&rgba, &bgra, &[1, 2, 3]), Err(VncError::Protocol));
    let mut broken = bgra;
    broken.bits_per_pixel = 0;
    assert_eq!(raw::translate_pixels(&rgba, &broken, &[]), Err(VncError::Protocol));
}

#[test]
fn cursor_shape_takes_its_alpha_from_the_mask() {
    let bgra = PixelFormat::bgra();
    // Three pixels in a row; the mask shows the first and the third.
    let mut payload = vec![1, 2, 3, 4, 5, 6, 7, 8, 9, 10, 11, 12];
    payload.push(0b1010_0000);
    assert_eq!(
        cursor::decode(&bgra, &bgra, 3, 1, &payload),
        Ok(vec![1, 2, 3, 255, 0, 0, 0, 0, 9, 10, 11, 255])
    );
    assert_eq!(cursor::decode(&bgra, &bgra, 3, 1, &payload[..12]), Err(VncError::Protocol));
    assert_eq!(cursor::decode(&bgra, &bgra, 0, 0, &[]), Ok(vec![]));
    // Nine pixels to a row take two bytes of mask for each row.
    let mut payload = vec![7u8; 2 * 9 * 4];
    payload.extend_from_slice(&[0x00, 0x80, 0xff, 0x00]);
    let shape = cursor::decode(&bgra, &bgra, 9, 2, &payload).unwrap();
    assert_eq!(shape.len(), 72);
    assert_eq!(&shape[..32], &[0u8; 32][..]);
    assert_eq!(&shape[32..36], &[7, 7, 7, 255][..]);
    assert_eq!(&shape[36..40], &[7, 7, 7, 255][..]);
    assert_eq!(&shape[68..72], &[0, 0, 0, 0][..]);
}

#[test]
fn cursor_rectangle_becomes_a_set_cursor_event() {
    let mut c = client(8, 8);
    let mut stream = vec![0, 0, 0, 1];
    // The hotspot (20, 30) lies outside the screen, which a cursor may.
    stream.extend_from_slice(&rect_header(20, 30, 1, 1, -239));
    stream.extend_from_slice(&[9, 8, 7, 6, 0x80]);
    assert_eq!(c.cursor, None);
    let (taken, _) = feed(&mut c, &stream).unwrap();
    assert_eq!(taken, stream.len());
    assert_eq!(
        c.poll_event(),
        Ok(Some(VncEvent::SetCursor(
            Rect { x: 20, y: 30, width: 1, height: 1 },
            vec![9, 8, 7, 255]
        )))
    );
    // The client keeps the shape that the event carried.
    assert_eq!(c.cursor, Some((Rect { x: 20, y: 30, width: 1, height: 1 }, vec![9, 8, 7, 255])));
    assert_eq!(feed(&mut c, &[2]), Ok((1, vec![])));
    assert!(c.cursor.is_some());
    c.close();
    assert_eq!(c.cursor, None);
}
