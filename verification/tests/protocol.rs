use vnc::protocol::messages::{ClientMsg, ServerInitHead, ServerMsg};
use vnc::wire;
use vnc::{PixelFormat, Rect, Screen, VncEncoding, VncError, VncVersion};

#[test]
fn banners_are_read_and_written() {
    assert_eq!(VncVersion::read(b"RFB 003.003\n"), Ok(VncVersion::RFB33));
    assert_eq!(VncVersion::read(b"RFB 003.007\n"), Ok(VncVersion::RFB37));
    assert_eq!(VncVersion::read(b"RFB 003.008\n"), Ok(VncVersion::RFB38));
    assert_eq!(VncVersion::read(b"RFB 004.001\n"), Ok(VncVersion::RFB33));
    assert_eq!(VncVersion::read(b"rfb 003.008\n"), Ok(VncVersion::RFB33));
    assert_eq!(VncVersion::read(b"RFB 003.008"), Err(VncError::Io));
    assert_eq!(VncVersion::RFB33.banner(), *b"RFB 003.003\n");
    assert_eq!(VncVersion::RFB37.banner(), *b"RFB 003.007\n");
    assert_eq!(VncVersion::RFB38.banner(), *b"RFB 003.008\n");
    assert_eq!(VncVersion::from(*b"RFB 003.007\n"), VncVersion::RFB37);
    assert_eq!(VncVersion::from(*b"RFB 000.000\n"), VncVersion::RFB33);
    let mut out = Vec::new();
    VncVersion::RFB38.write(&mut out);
    assert_eq!(out, b"RFB 003.008\n".to_vec());
    for v in [VncVersion::RFB33, VncVersion::RFB37, VncVersion::RFB38] {
        assert_eq!(VncVersion::read(&v.banner()), Ok(v));
    }
}

#[test]
fn strict_reading_refuses_unknown_banners() {
    assert_eq!(VncVersion::read_strict(b"RFB 003.008\n"), Ok(VncVersion::RFB38));
    assert_eq!(VncVersion::read_strict(b"RFB 003.003\n"), Ok(VncVersion::RFB33));
    assert_eq!(VncVersion::read_strict(b"RFB 003.889\n"), Err(VncError::UnsupportedVersion));
    assert_eq!(VncVersion::read_strict(b"RFB"), Err(VncError::Io));
}

#[test]
fn versions_negotiate_to_the_older() {
    assert_eq!(VncVersion::RFB38.negotiate(VncVersion::RFB33), VncVersion::RFB33);
    assert_eq!(VncVersion::RFB33.negotiate(VncVersion::RFB38), VncVersion::RFB33);
    assert_eq!(VncVersion::RFB37.negotiate(VncVersion::RFB38), VncVersion::RFB37);
    assert_eq!(VncVersion::RFB38.negotiate(VncVersion::RFB38), VncVersion::RFB38);
    assert!(VncVersion::RFB33 < VncVersion::RFB37 && VncVersion::RFB37 < VncVersion::RFB38);
    assert_eq!(VncVersion::RFB37.index(), 1);
}

#[test]
fn encodings_keep_their_wire_numbers() {
    let all = [
        (VncEncoding::Raw, 0i32),
        (VncEncoding::CopyRect, 1),
        (VncEncoding::Tight, 7),
        (VncEncoding::Trle, 15),
        (VncEncoding::Zrle, 16),
        (VncEncoding::CursorPseudo, -239),
        (VncEncoding::DesktopSizePseudo, -223),
        (VncEncoding::LastRectPseudo, -224),
    ];
    for (encoding, code) in all {
        assert_eq!(encoding.code(), code);
        assert_eq!(VncEncoding::from_code(code), Some(encoding));
        assert_eq!(u32::from(encoding), code as u32);
    }
    assert_eq!(VncEncoding::from_code(2), None);
    assert_eq!(VncEncoding::from_code(-1), None);
    assert_eq!(VncEncoding::try_from(16u32), Ok(VncEncoding::Zrle));
    assert_eq!(VncEncoding::try_from(0xffff_ff20u32), Ok(VncEncoding::LastRectPseudo));
    assert_eq!(VncEncoding::try_from(5u32), Err(VncError::Protocol));
}

#[test]
fn screen_comes_from_a_pair_and_rects_are_tested_against_it() {
    let screen = Screen::from((640u16, 480u16));
    assert_eq!(screen, Screen { width: 640, height: 480 });
    assert!(Rect { x: 0, y: 0, width: 640, height: 480 }.is_within(&screen));
    assert!(Rect { x: 639, y: 479, width: 1, height: 1 }.is_within(&screen));
    assert!(!Rect { x: 639, y: 479, width: 2, height: 1 }.is_within(&screen));
    assert!(!Rect { x: 0, y: 480, width: 0, height: 1 }.is_within(&screen));
    assert!(!Rect { x: 65535, y: 0, width: 65535, height: 0 }.is_within(&screen));
}

#[test]
fn wire_integers_are_big_endian() {
    let buf = [0x12, 0x34, 0x56, 0x78, 0xff, 0xff, 0xff, 0x11];
    assert_eq!(wire::read_u8(&buf, 1), Ok(0x34));
    assert_eq!(wire::read_u16(&buf, 1), Ok(0x3456));
    assert_eq!(wire::read_u32(&buf, 0), Ok(0x12345678));
    assert_eq!(wire::read_i32(&buf, 4), Ok(-239));
    assert_eq!(wire::read_u8(&buf, 8), Err(VncError::Io));
    assert_eq!(wire::read_u16(&buf, 7), Err(VncError::Io));
    assert_eq!(wire::read_u32(&buf, 5), Err(VncError::Io));
    assert_eq!(wire::read_i32(&buf, usize::MAX), Err(VncError::Io));
    assert_eq!(wire::read_bytes(&buf, 2, 3), Ok(vec![0x56, 0x78, 0xff]));
    assert_eq!(wire::read_bytes(&buf, 8, 0), Ok(vec![]));
    assert_eq!(wire::read_bytes(&buf, 6, 3), Err(VncError::Io));
    let mut out = Vec::new();
    wire::write_u8(&mut out, 7);
    wire::write_u16(&mut out, 0xabcd);
    wire::write_u32(&mut out, 0x01020304);
    wire::write_i32(&mut out, -224);
    wire::write_bytes(&mut out, b"hi");
    assert_eq!(
        out,
        vec![7, 0xab, 0xcd, 1, 2, 3, 4, 0xff, 0xff, 0xff, 0x20, b'h', b'i']
    );
    assert_eq!(wire::to_signed(0xffff_ffff), -1);
    assert_eq!(wire::to_signed(0x8000_0000), i32::MIN);
    assert_eq!(wire::to_unsigned(-1), 0xffff_ffff);
    assert_eq!(wire::to_unsigned(i32::MAX), 0x7fff_ffff);
}

#[test]
fn wire_text_has_to_be_utf8() {
    assert_eq!(wire::read_text(b"gr\xc3\xbcn".to_vec()), Ok("grün".to_string()));
    assert_eq!(wire::read_text(Vec::new()), Ok(String::new()));
    assert_eq!(wire::read_text(vec![0xc3]), Err(VncError::Protocol));
    assert_eq!(wire::read_text(vec![b'a', 0xff]), Err(VncError::Protocol));
}

#[test]
fn wire_strings_carry_their_length() {
    let mut out = vec![1];
    assert_eq!(wire::write_string(&mut out, "héllo"), Ok(()));
    assert_eq!(out, vec![1, 0, 0, 0, 6, b'h', 0xc3, 0xa9, b'l', b'l', b'o']);
    assert_eq!(wire::read_string(&out, 1), Ok(("héllo".to_string(), 11)));
    assert_eq!(wire::read_string(&[0, 0, 0, 0], 0), Ok((String::new(), 4)));
    assert_eq!(wire::read_string(&out[..10], 1), Err(VncError::Io));
    assert_eq!(wire::read_string(&out[..4], 1), Err(VncError::Io));
    assert_eq!(wire::read_string(&out, 20), Err(VncError::Io));
    assert_eq!(wire::read_string(&[0, 0, 0, 1, 0xff], 0), Err(VncError::Protocol));
}

#[test]
fn pixel_format_presets() {
    let bgra = PixelFormat::bgra();
    assert_eq!(
        (bgra.bits_per_pixel, bgra.depth, bgra.big_endian_flag, bgra.true_color_flag),
        (32, 24, 0, 1)
    );
    assert_eq!((bgra.red_max, bgra.green_max, bgra.blue_max), (255, 255, 255));
    assert_eq!((bgra.red_shift, bgra.green_shift, bgra.blue_shift), (16, 8, 0));
    let rgba = PixelFormat::rgba();
    assert_eq!((rgba.red_shift, rgba.green_shift, rgba.blue_shift), (0, 8, 16));
    assert!(bgra.is_valid() && rgba.is_valid());
    assert_eq!(bgra.bytes_per_pixel(), 4);
}

#[test]
fn pixel_format_round_trips_through_its_bytes() {
    let bytes = PixelFormat::bgra().serialize();
    assert_eq!(bytes, vec![32, 24, 0, 1, 0, 255, 0, 255, 0, 255, 16, 8, 0, 0, 0, 0]);
    assert_eq!(PixelFormat::parse(&bytes), Ok(PixelFormat::bgra()));
    let rgb565 = PixelFormat {
        bits_per_pixel: 16,
        depth: 16,
        big_endian_flag: 1,
        true_color_flag: 1,
        red_max: 31,
        green_max: 63,
        blue_max: 31,
        red_shift: 11,
        green_shift: 5,
        blue_shift: 0,
    };
    assert!(rgb565.is_valid());
    assert_eq!(PixelFormat::parse(&rgb565.serialize()), Ok(rgb565));
    // The padding is not looked at when reading, and written as zeros.
    let mut padded = rgb565.serialize();
    padded[13] = 9;
    padded[15] = 7;
    assert_eq!(PixelFormat::parse(&padded), Ok(rgb565));
}

#[test]
fn pixel_format_invariant_is_enforced() {
    let good = PixelFormat::bgra();
    assert_eq!(PixelFormat::parse(&good.serialize()[..15]), Err(VncError::Io));
    let check = |change: &dyn Fn(&mut PixelFormat)| {
        let mut format = PixelFormat::bgra();
        change(&mut format);
        (format.is_valid(), PixelFormat::parse(&format.serialize()))
    };
    assert_eq!(check(&|f| f.bits_per_pixel = 24), (false, Err(VncError::Protocol)));
    assert_eq!(check(&|f| f.depth = 33), (false, Err(VncError::Protocol)));
    // Red would reach past the pixel.
    assert_eq!(check(&|f| f.red_shift = 25), (false, Err(VncError::Protocol)));
    // Green would share bits with blue.
    assert_eq!(check(&|f| f.green_shift = 7), (false, Err(VncError::Protocol)));
    // A channel without bits shares none.
    assert!(check(&|f| {
        f.green_max = 0;
        f.green_shift = 3
    })
    .0);
    // Without true colour the channels do not matter.
    assert!(check(&|f| {
        f.true_color_flag = 0;
        f.red_shift = 200
    })
    .0);
    assert!(check(&|f| f.red_shift = 24).0);
}

#[test]
fn translate_into_the_same_format_copies() {
    let format = PixelFormat::bgra();
    let mut out = vec![1];
    assert_eq!(format.translate(&format, &[0x11, 0x22, 0x33, 0x44], &mut out), Ok(()));
    assert_eq!(out, vec![1, 0x11, 0x22, 0x33, 0x44]);
}

#[test]
fn translate_moves_channels_to_their_new_places() {
    let bgra = PixelFormat::bgra();
    let rgba = PixelFormat::rgba();
    let mut out = Vec::new();
    // Little-endian BGRA: blue 0x11, green 0x22, red 0x33; the fourth byte carries no colour.
    assert_eq!(rgba.translate(&bgra, &[0x11, 0x22, 0x33, 0x44], &mut out), Ok(()));
    assert_eq!(out, vec![0x33, 0x22, 0x11, 0x00]);
    // 16-bit RGB565, big-endian, pure red at full scale, into 32 bits.
    let rgb565 = PixelFormat {
        bits_per_pixel: 16,
        depth: 16,
        big_endian_flag: 1,
        true_color_flag: 1,
        red_max: 31,
        green_max: 63,
        blue_max: 31,
        red_shift: 11,
        green_shift: 5,
        blue_shift: 0,
    };
    let mut out = Vec::new();
    assert_eq!(bgra.translate(&rgb565, &[0xf8, 0x00], &mut out), Ok(()));
    // The server's byte order governs the writing too.
    assert_eq!(out, vec![0x00, 0xff, 0x00, 0x00]);
    let mut out = Vec::new();
    // Green 32 of 63 becomes 129 of 255.
    assert_eq!(bgra.translate(&rgb565, &[0x04, 0x00], &mut out), Ok(()));
    assert_eq!(out, vec![0x00, 0x00, 129, 0x00]);
}

#[test]
fn translate_refuses_a_pixel_of_the_wrong_size() {
    let bgra = PixelFormat::bgra();
    let rgba = PixelFormat::rgba();
    let mut out = vec![5];
    assert_eq!(rgba.translate(&bgra, &[1, 2, 3], &mut out), Err(VncError::Protocol));
    assert_eq!(bgra.translate(&bgra, &[1, 2, 3, 4, 5], &mut out), Err(VncError::Protocol));
    assert_eq!(out, vec![5]);
}

#[test]
fn client_messages_have_the_bytes_of_the_wire() {
    assert_eq!(
        ClientMsg::SetPixelFormat(PixelFormat::bgra()).encode(),
        Ok(vec![0, 0, 0, 0, 32, 24, 0, 1, 0, 255, 0, 255, 0, 255, 16, 8, 0, 0, 0, 0])
    );
    assert_eq!(
        ClientMsg::SetEncodings(vec![VncEncoding::Tight, VncEncoding::Raw, VncEncoding::CursorPseudo])
            .encode(),
        Ok(vec![2, 0, 0, 3, 0, 0, 0, 7, 0, 0, 0, 0, 0xff, 0xff, 0xff, 0x11])
    );
    assert_eq!(
        ClientMsg::FramebufferUpdateRequest(Rect { x: 1, y: 2, width: 0x304, height: 0x506 }, 1)
            .encode(),
        Ok(vec![3, 1, 0, 1, 0, 2, 3, 4, 5, 6])
    );
    assert_eq!(
        ClientMsg::KeyEvent(0xff0d, true).encode(),
        Ok(vec![4, 1, 0, 0, 0, 0, 0xff, 0x0d])
    );
    assert_eq!(ClientMsg::KeyEvent(0x61, false).encode(), Ok(vec![4, 0, 0, 0, 0, 0, 0, 0x61]));
    assert_eq!(ClientMsg::PointerEvent(0x102, 0x304, 5).encode(), Ok(vec![5, 5, 1, 2, 3, 4]));
    assert_eq!(
        ClientMsg::ClientCutText("hi".to_string()).encode(),
        Ok(vec![6, 0, 0, 0, 0, 0, 0, 2, b'h', b'i'])
    );
}

#[test]
fn client_messages_round_trip() {
    let messages = vec![
        ClientMsg::SetPixelFormat(PixelFormat::rgba()),
        ClientMsg::SetEncodings(vec![]),
        ClientMsg::SetEncodings(vec![
            VncEncoding::Zrle,
            VncEncoding::Trle,
            VncEncoding::CopyRect,
            VncEncoding::DesktopSizePseudo,
            VncEncoding::LastRectPseudo,
        ]),
        ClientMsg::FramebufferUpdateRequest(Rect { x: 9, y: 8, width: 7, height: 6 }, 0),
        ClientMsg::KeyEvent(0xffff_ffff, true),
        ClientMsg::PointerEvent(65535, 0, 0x1f),
        ClientMsg::ClientCutText("grüße".to_string()),
        ClientMsg::ClientCutText(String::new()),
    ];
    for msg in messages {
        let bytes = msg.encode().unwrap();
        assert_eq!(ClientMsg::measure(&bytes), Ok(Some(bytes.len() as u64)));
        let back = ClientMsg::decode(&bytes).unwrap();
        assert_eq!(back, msg);
        assert_eq!(back.encode().unwrap(), bytes);
        let mut out = vec![0xee];
        assert_eq!(msg.write(&mut out), Ok(()));
        assert_eq!(&out[1..], &bytes[..]);
    }
}

#[test]
fn client_message_decoding_rejects_what_is_malformed() {
    assert_eq!(ClientMsg::decode(&[]), Err(VncError::Io));
    assert_eq!(ClientMsg::decode(&[1]), Err(VncError::Protocol));
    assert_eq!(ClientMsg::decode(&[7, 0, 0]), Err(VncError::Protocol));
    assert_eq!(ClientMsg::decode(&[4, 1, 0, 0, 0, 0, 0]), Err(VncError::Io));
    assert_eq!(ClientMsg::decode(&[4, 1, 0, 0, 0, 0, 0, 1, 2]), Err(VncError::Protocol));
    assert_eq!(ClientMsg::decode(&[2, 0, 0]), Err(VncError::Io));
    assert_eq!(ClientMsg::decode(&[2, 0, 0, 1, 0, 0, 0]), Err(VncError::Io));
    // An encoding that nobody knows.
    assert_eq!(ClientMsg::decode(&[2, 0, 0, 1, 0, 0, 0, 2]), Err(VncError::Protocol));
    // A pixel format of 24 bits per pixel.
    let mut bad = ClientMsg::SetPixelFormat(PixelFormat::bgra()).encode().unwrap();
    bad[4] = 24;
    assert_eq!(ClientMsg::decode(&bad), Err(VncError::Protocol));
    assert_eq!(ClientMsg::decode(&[6, 0, 0, 0, 0, 0, 0, 1, 0xff]), Err(VncError::Protocol));
    assert_eq!(ClientMsg::decode(&[6, 0, 0, 0, 0, 0, 0, 2, b'a']), Err(VncError::Io));
    // A key that is held is any flag but zero.
    assert_eq!(
        ClientMsg::decode(&[4, 9, 0, 0, 0, 0, 0, 1]),
        Ok(ClientMsg::KeyEvent(1, true))
    );
    assert_eq!(ClientMsg::measure(&[2, 0]), Ok(None));
    assert_eq!(ClientMsg::measure(&[6, 0, 0, 0, 0]), Ok(None));
    assert_eq!(ClientMsg::measure(&[9]), Err(VncError::Protocol));
}

#[test]
fn server_messages_are_read_as_far_as_their_header_goes() {
    assert_eq!(ServerMsg::read(&[]), Ok(None));
    assert_eq!(ServerMsg::read(&[0, 0, 0]), Ok(None));
    assert_eq!(
        ServerMsg::read(&[0, 9, 1, 2, 0xee]),
        Ok(Some((ServerMsg::FramebufferUpdate(0x102), 4)))
    );
    let mut map = vec![1, 0, 0, 7, 0, 2];
    map.extend_from_slice(&[0u8; 12]);
    assert_eq!(ServerMsg::read(&map[..17]), Ok(None));
    assert_eq!(ServerMsg::read(&map[..5]), Ok(None));
    assert_eq!(
        ServerMsg::read(&map),
        Ok(Some((ServerMsg::SetColourMapEntries { first: 7, count: 2 }, 18)))
    );
    assert_eq!(ServerMsg::read(&[2, 0xee]), Ok(Some((ServerMsg::Bell, 1))));
    let text = [3, 0, 0, 0, 0, 0, 0, 2, b'o', b'k', 0xee];
    assert_eq!(
        ServerMsg::read(&text),
        Ok(Some((ServerMsg::ServerCutText("ok".to_string()), 10)))
    );
    assert_eq!(ServerMsg::read(&text[..9]), Ok(None));
    assert_eq!(ServerMsg::read(&text[..7]), Ok(None));
    assert_eq!(ServerMsg::read(&[3, 0, 0, 0, 0, 0, 0, 1, 0xc0]), Err(VncError::Protocol));
    assert_eq!(ServerMsg::read(&[4]), Err(VncError::Protocol));
    assert_eq!(ServerMsg::read(&[255, 0, 0, 0]), Err(VncError::Protocol));
}

#[test]
fn server_init_is_read_in_two_parts() {
    let mut bytes = vec![0x04, 0x00, 0x03, 0x00];
    bytes.extend_from_slice(&PixelFormat::bgra().serialize());
    bytes.extend_from_slice(&[0, 0, 0, 5]);
    let head = ServerInitHead::read(&bytes).unwrap();
    assert_eq!(head.screen, Screen { width: 1024, height: 768 });
    assert_eq!(head.pixel_format, PixelFormat::bgra());
    assert_eq!(head.name_length, 5);
    let init = head.complete(b"hello").unwrap();
    assert_eq!(init.name, "hello");
    assert_eq!(init.screen, Screen { width: 1024, height: 768 });
    assert_eq!(head.complete(b"hell"), Err(VncError::Io));
    assert_eq!(head.complete(b"hell\xff"), Err(VncError::Protocol));
    assert_eq!(ServerInitHead::read(&bytes[..23]), Err(VncError::Io));
    bytes[5] = 40; // depth above the bits of a pixel
    assert_eq!(ServerInitHead::read(&bytes), Err(VncError::Protocol));
}
