use vnc::client::connection::Progress;
use vnc::codec::rectangle::Plan;
use vnc::codec::zlib::{absorb, inflate, Streams, Turn};
use vnc::codec::{rectangle, tight, trle, zrle};
use vnc::protocol::messages::ServerInit;
use vnc::{PixelFormat, Rect, Screen, VncClient, VncEncoding, VncError, VncEvent};

const ZRLE_A: [u8; 21] = [120, 156, 98, 96, 100, 98, 102, 97, 101, 99, 231, 224, 228, 226, 230, 1, 0, 0, 0, 255, 255];
const ZRLE_B: [u8; 13] = [98, 228, 228, 96, 103, 0, 10, 0, 0, 0, 0, 255, 255];
const ZRLE_SHORT: [u8; 15] = [120, 156, 98, 96, 100, 98, 102, 97, 101, 3, 0, 0, 0, 255, 255];
const ZRLE_LONG: [u8; 13] = [120, 156, 98, 100, 100, 98, 126, 7, 0, 0, 0, 255, 255];
const TIGHT_PLAIN: [u8; 56] = [120, 156, 98, 96, 100, 98, 102, 97, 101, 99, 231, 224, 228, 226, 230, 225, 229, 227, 23, 16, 20, 18, 22, 17, 21, 19, 151, 144, 148, 146, 150, 145, 149, 147, 87, 80, 84, 82, 86, 81, 85, 83, 215, 208, 212, 210, 214, 209, 213, 211, 7, 0, 0, 0, 255, 255];
const TIGHT_PLAIN_PX: [u8; 48] = [0, 1, 2, 3, 4, 5, 6, 7, 8, 9, 10, 11, 12, 13, 14, 15, 16, 17, 18, 19, 20, 21, 22, 23, 24, 25, 26, 27, 28, 29, 30, 31, 32, 33, 34, 35, 36, 37, 38, 39, 40, 41, 42, 43, 44, 45, 46, 47];
const TIGHT_PLAIN2: [u8; 58] = [0, 48, 0, 207, 255, 200, 199, 198, 197, 196, 195, 194, 193, 192, 191, 190, 189, 188, 187, 186, 185, 184, 183, 182, 181, 180, 179, 178, 177, 176, 175, 174, 173, 172, 171, 170, 169, 168, 167, 166, 165, 164, 163, 162, 161, 160, 159, 158, 157, 156, 155, 154, 153, 0, 0, 0, 255, 255];
const TIGHT_PLAIN2_PX: [u8; 48] = [200, 199, 198, 197, 196, 195, 194, 193, 192, 191, 190, 189, 188, 187, 186, 185, 184, 183, 182, 181, 180, 179, 178, 177, 176, 175, 174, 173, 172, 171, 170, 169, 168, 167, 166, 165, 164, 163, 162, 161, 160, 159, 158, 157, 156, 155, 154, 153];
const TIGHT_FRESH: [u8; 60] = [120, 156, 0, 48, 0, 207, 255, 200, 199, 198, 197, 196, 195, 194, 193, 192, 191, 190, 189, 188, 187, 186, 185, 184, 183, 182, 181, 180, 179, 178, 177, 176, 175, 174, 173, 172, 171, 170, 169, 168, 167, 166, 165, 164, 163, 162, 161, 160, 159, 158, 157, 156, 155, 154, 153, 0, 0, 0, 255, 255];
const TIGHT_IDX: [u8; 17] = [120, 156, 98, 96, 100, 98, 128, 35, 6, 70, 70, 0, 0, 0, 0, 255, 255];
const TIGHT_IDX_RAW: [u8; 16] = [0, 1, 2, 0, 1, 2, 0, 1, 2, 0, 1, 2, 0, 0, 1, 1];
const TIGHT_GRAD: [u8; 14] = [120, 156, 226, 18, 145, 227, 34, 5, 1, 0, 0, 0, 255, 255];
const TIGHT_GRAD_EXPECT: [u8; 64] = [30, 20, 10, 0, 60, 40, 20, 0, 90, 60, 30, 0, 120, 80, 40, 0, 60, 40, 20, 0, 120, 80, 40, 0, 180, 120, 60, 0, 240, 160, 80, 0, 90, 60, 30, 0, 180, 120, 60, 0, 14, 180, 90, 0, 104, 240, 120, 0, 120, 80, 40, 0, 240, 160, 80, 0, 104, 240, 120, 0, 224, 19, 160, 0];

fn bgra() -> PixelFormat {
    PixelFormat::bgra()
}

fn rect(x: u16, y: u16, width: u16, height: u16) -> Rect {
    Rect { x, y, width, height }
}

fn live(width: u16, height: u16) -> VncClient {
    let init = ServerInit {
        screen: Screen { width, height },
        pixel_format: bgra(),
        name: String::new(),
    };
    let (mut client, _) = VncClient::new(init, Some(bgra()), vec![VncEncoding::Zrle]).unwrap();
    assert!(client.poll_event().unwrap().is_some());
    client
}

fn header(r: Rect, encoding: i32) -> Vec<u8> {
    let mut bytes = Vec::new();
    for v in [r.x, r.y, r.width, r.height] {
        bytes.extend_from_slice(&v.to_be_bytes());
    }
    bytes.extend_from_slice(&encoding.to_be_bytes());
    bytes
}

fn update(rects: &[(Rect, i32, Vec<u8>)]) -> Vec<u8> {
    let mut bytes = vec![0, 0];
    bytes.extend_from_slice(&(rects.len() as u16).to_be_bytes());
    for (r, encoding, payload) in rects {
        bytes.extend_from_slice(&header(*r, *encoding));
        bytes.extend_from_slice(payload);
    }
    bytes
}

fn feed_all(client: &mut VncClient, stream: &[u8]) -> Result<usize, VncError> {
    let mut at = 0;
    loop {
        match client.handle(&stream[at..])? {
            None => return Ok(at),
            Some(Progress { consumed, .. }) => at += consumed,
        }
    }
}

fn drain(client: &mut VncClient) -> Vec<VncEvent> {
    let mut events = Vec::new();
    while let Ok(Some(event)) = client.poll_event() {
        events.push(event);
    }
    events
}

fn zrle_payload(chunk: &[u8]) -> Vec<u8> {
    let mut bytes = (chunk.len() as u32).to_be_bytes().to_vec();
    bytes.extend_from_slice(chunk);
    bytes
}

/// The pixels of the server for compact pixels of red, green, blue.
fn from_rgb(rgb: &[u8]) -> Vec<u8> {
    let mut out = Vec::new();
    for p in rgb.chunks(3) {
        out.extend_from_slice(&[p[2], p[1], p[0], 0]);
    }
    out
}

#[test]
fn compressed_pixel_layout_follows_the_format() {
    assert_eq!(trle::compressed(&bgra()), (3, false));
    let mut big = bgra();
    big.big_endian_flag = 1;
    assert_eq!(trle::compressed(&big), (3, true));
    let mut high = bgra();
    high.red_shift = 24;
    high.green_shift = 16;
    high.blue_shift = 8;
    assert_eq!(trle::compressed(&high), (3, true));
    high.big_endian_flag = 1;
    assert_eq!(trle::compressed(&high), (3, false));
    let mut deep = bgra();
    deep.depth = 32;
    assert_eq!(trle::compressed(&deep), (4, false));
    let mut spread = bgra();
    spread.red_shift = 24;
    assert_eq!(trle::compressed(&spread), (4, false));
    let mut small = bgra();
    small.bits_per_pixel = 16;
    assert_eq!(trle::compressed(&small), (2, false));
    assert_eq!(trle::expand_pixels(&vec![1, 2, 3, 4, 5, 6], false), vec![1, 2, 3, 0, 4, 5, 6, 0]);
    assert_eq!(trle::expand_pixels(&vec![1, 2, 3, 4, 5, 6], true), vec![0, 1, 2, 3, 0, 4, 5, 6]);
    assert_eq!(trle::full_pixels(&bgra(), vec![1, 2, 3]), vec![1, 2, 3, 0]);
    assert_eq!(trle::full_pixels(&deep, vec![1, 2, 3, 4]), vec![1, 2, 3, 4]);
}

#[test]
fn run_lengths_are_one_more_than_the_sum_of_their_bytes() {
    assert_eq!(trle::read_run_length(&[0], 0, 10), Ok(Some((1, 1))));
    assert_eq!(trle::read_run_length(&[9, 7], 1, 10), Ok(Some((8, 2))));
    assert_eq!(trle::read_run_length(&[255, 0], 0, 4096), Ok(Some((256, 2))));
    assert_eq!(trle::read_run_length(&[255, 255, 254], 0, 4096), Ok(Some((765, 3))));
    assert_eq!(trle::read_run_length(&[255, 255], 0, 4096), Ok(None));
    assert_eq!(trle::read_run_length(&[], 0, 4096), Ok(None));
    assert_eq!(trle::read_run_length(&[10], 0, 10), Err(VncError::Protocol));
    assert_eq!(trle::read_run_length(&[255], 0, 255), Err(VncError::Protocol));
    assert_eq!(trle::read_run_length(&[5], 0, 0), Err(VncError::Protocol));
}

#[test]
fn raw_and_solid_tiles() {
    let r = rect(0, 0, 2, 2);
    let data = [0, 1, 2, 3, 4, 5, 6, 7, 8, 9, 10, 11, 12];
    assert_eq!(
        trle::parse(&data, &r, 16, &bgra(), &bgra()),
        Ok(Some((
            vec![VncEvent::RawImage(r, vec![1, 2, 3, 0, 4, 5, 6, 0, 7, 8, 9, 0, 10, 11, 12, 0])],
            13
        )))
    );
    let r = rect(5, 6, 2, 1);
    assert_eq!(
        trle::parse(&[1, 9, 8, 7, 0xee], &r, 16, &bgra(), &bgra()),
        Ok(Some((vec![VncEvent::RawImage(r, vec![9, 8, 7, 0, 9, 8, 7, 0])], 4)))
    );
}

#[test]
fn packed_palette_tiles() {
    // Two colours take one bit for each pixel, and each row its own byte.
    let r = rect(0, 0, 3, 2);
    let data = [2, 1, 1, 1, 2, 2, 2, 0b1010_0000, 0b0100_0000];
    let (events, next) = trle::parse(&data, &r, 16, &bgra(), &bgra()).unwrap().unwrap();
    assert_eq!(next, data.len());
    assert_eq!(
        events,
        vec![VncEvent::RawImage(
            r,
            vec![2, 2, 2, 0, 1, 1, 1, 0, 2, 2, 2, 0, 1, 1, 1, 0, 2, 2, 2, 0, 1, 1, 1, 0]
        )]
    );
    // Four colours take two bits: a row of five pixels takes two bytes.
    let r = rect(0, 0, 5, 1);
    let mut data = vec![4];
    data.extend_from_slice(&[10, 10, 10, 11, 11, 11, 12, 12, 12, 13, 13, 13]);
    data.extend_from_slice(&[0b0001_1011, 0b1100_0000]);
    let (events, next) = trle::parse(&data, &r, 16, &bgra(), &bgra()).unwrap().unwrap();
    assert_eq!(next, data.len());
    let expected: Vec<u8> = [10u8, 11, 12, 13, 13].iter().flat_map(|c| [*c, *c, *c, 0]).collect();
    assert_eq!(events, vec![VncEvent::RawImage(r, expected)]);
    // Five colours take four bits.
    let r = rect(0, 0, 3, 1);
    let mut data = vec![5];
    for c in 20..25u8 {
        data.extend_from_slice(&[c, c, c]);
    }
    data.extend_from_slice(&[0x04, 0x20]);
    let (events, next) = trle::parse(&data, &r, 16, &bgra(), &bgra()).unwrap().unwrap();
    assert_eq!(next, data.len());
    let expected: Vec<u8> = [20u8, 24, 22].iter().flat_map(|c| [*c, *c, *c, 0]).collect();
    assert_eq!(events, vec![VncEvent::RawImage(r, expected)]);
    // An index past the palette.
    let r = rect(0, 0, 1, 1);
    let data = [3, 1, 1, 1, 2, 2, 2, 3, 3, 3, 0b1100_0000];
    assert_eq!(trle::parse(&data, &r, 16, &bgra(), &bgra()), Err(VncError::Protocol));
}

#[test]
fn plain_run_tiles() {
    let r = rect(0, 0, 4, 1);
    let data = [128, 1, 2, 3, 1, 4, 5, 6, 1];
    let (events, next) = trle::parse(&data, &r, 16, &bgra(), &bgra()).unwrap().unwrap();
    assert_eq!(next, data.len());
    assert_eq!(
        events,
        vec![VncEvent::RawImage(r, vec![1, 2, 3, 0, 1, 2, 3, 0, 4, 5, 6, 0, 4, 5, 6, 0])]
    );
    // One run of 256 pixels fills a whole tile.
    let r = rect(0, 0, 16, 16);
    let data = [128, 7, 8, 9, 255, 0];
    let (events, next) = trle::parse(&data, &r, 16, &bgra(), &bgra()).unwrap().unwrap();
    assert_eq!(next, data.len());
    let expected: Vec<u8> = (0..256).flat_map(|_| [7u8, 8, 9, 0]).collect();
    assert_eq!(events, vec![VncEvent::RawImage(r, expected)]);
    // A run that goes past the tile.
    let r = rect(0, 0, 2, 1);
    assert_eq!(
        trle::parse(&[128, 1, 2, 3, 2], &r, 16, &bgra(), &bgra()),
        Err(VncError::Protocol)
    );
}

#[test]
fn palette_run_tiles() {
    let r = rect(0, 0, 4, 1);
    let data = [130, 1, 1, 1, 2, 2, 2, 0, 0x81, 1, 0];
    let (events, next) = trle::parse(&data, &r, 16, &bgra(), &bgra()).unwrap().unwrap();
    assert_eq!(next, data.len());
    assert_eq!(
        events,
        vec![VncEvent::RawImage(r, vec![1, 1, 1, 0, 2, 2, 2, 0, 2, 2, 2, 0, 1, 1, 1, 0])]
    );
    // An index past the palette, with and without a length.
    assert_eq!(
        trle::parse(&[130, 1, 1, 1, 2, 2, 2, 2], &r, 16, &bgra(), &bgra()),
        Err(VncError::Protocol)
    );
    assert_eq!(
        trle::parse(&[130, 1, 1, 1, 2, 2, 2, 0x82, 0], &r, 16, &bgra(), &bgra()),
        Err(VncError::Protocol)
    );
    // A run that goes past the tile.
    assert_eq!(
        trle::parse(&[130, 1, 1, 1, 2, 2, 2, 0x80, 4], &r, 16, &bgra(), &bgra()),
        Err(VncError::Protocol)
    );
}

#[test]
fn reserved_tile_kinds_are_protocol_errors() {
    let r = rect(0, 0, 1, 1);
    for kind in [17u8, 64, 127, 129] {
        assert_eq!(
            trle::parse(&[kind, 0, 0, 0, 0], &r, 16, &bgra(), &bgra()),
            Err(VncError::Protocol)
        );
    }
}

#[test]
fn tiles_that_end_early_are_waited_for() {
    let r = rect(0, 0, 4, 1);
    for data in [
        vec![128u8, 1, 2, 3, 1, 4, 5, 6, 1],
        vec![130, 1, 1, 1, 2, 2, 2, 0, 0x81, 1, 0],
        vec![0, 1, 2, 3, 4, 5, 6, 7, 8, 9, 10, 11, 12],
        vec![2, 1, 1, 1, 2, 2, 2, 0b1010_0000],
        vec![1, 1, 2, 3],
    ] {
        for end in 0..data.len() {
            assert_eq!(trle::parse(&data[..end], &r, 16, &bgra(), &bgra()), Ok(None));
        }
        assert!(matches!(trle::parse(&data, &r, 16, &bgra(), &bgra()), Ok(Some(_))));
    }
}

#[test]
fn tiles_come_row_by_row_with_small_ones_at_the_edges() {
    let r = rect(100, 200, 17, 17);
    let data = [1, 1, 1, 1, 1, 2, 2, 2, 1, 3, 3, 3, 1, 4, 4, 4];
    let (events, next) = trle::parse(&data, &r, 16, &bgra(), &bgra()).unwrap().unwrap();
    assert_eq!(next, 16);
    let tile = |x, y, w: u16, h: u16, c: u8| {
        let pixels: Vec<u8> = (0..w as usize * h as usize).flat_map(|_| [c, c, c, 0]).collect();
        VncEvent::RawImage(rect(x, y, w, h), pixels)
    };
    assert_eq!(
        events,
        vec![
            tile(100, 200, 16, 16, 1),
            tile(116, 200, 1, 16, 2),
            tile(100, 216, 16, 1, 3),
            tile(116, 216, 1, 1, 4),
        ]
    );
    // A tile is at most 64 pixels wide and high, and a rectangle ends inside the reach of
    // its coordinates.
    assert_eq!(trle::parse(&data, &r, 65, &bgra(), &bgra()), Err(VncError::Protocol));
    assert_eq!(trle::parse(&data, &r, 0, &bgra(), &bgra()), Err(VncError::Protocol));
    assert_eq!(
        trle::parse(&data, &rect(65535, 0, 1, 1), 16, &bgra(), &bgra()),
        Err(VncError::Protocol)
    );
    // An empty rectangle has no tiles.
    assert_eq!(trle::parse(&[9, 9], &rect(0, 0, 0, 5), 16, &bgra(), &bgra()), Ok(Some((vec![], 0))));
    assert_eq!(trle::parse(&[9, 9], &rect(0, 0, 5, 0), 16, &bgra(), &bgra()), Ok(Some((vec![], 0))));
}

#[test]
fn tiles_of_sixteen_bit_pixels_are_translated() {
    let rgb565 = PixelFormat {
        bits_per_pixel: 16,
        depth: 16,
        big_endian_flag: 1,
        true_color_flag: 1,
        red_max: 31,
        green_max: 63,
        blue_max: 31,
        red_shift: 11,
        green_shift: 5,
        blue_shift: 0,
    };
    let r = rect(0, 0, 2, 1);
    let (events, next) = trle::parse(&[1, 0xf8, 0x00], &r, 16, &bgra(), &rgb565).unwrap().unwrap();
    assert_eq!(next, 3);
    assert_eq!(events, vec![VncEvent::RawImage(r, vec![0, 0xff, 0, 0, 0, 0xff, 0, 0])]);
}

#[test]
fn trle_rectangle_through_the_client() {
    let mut c = live(32, 32);
    let r = rect(1, 1, 2, 1);
    let mut stream = update(&[(r, 15, vec![128, 5, 6, 7, 1])]);
    stream.push(2);
    for end in 4..stream.len() - 1 {
        let mut fresh = live(32, 32);
        assert_eq!(feed_all(&mut fresh, &stream[..end]), Ok(4));
        assert_eq!(fresh.pending, 1);
    }
    assert_eq!(feed_all(&mut c, &stream), Ok(stream.len()));
    assert_eq!(
        drain(&mut c),
        vec![VncEvent::RawImage(r, vec![5, 6, 7, 0, 5, 6, 7, 0]), VncEvent::Bell]
    );
}

#[test]
fn zrle_rectangles_share_one_stream() {
    let mut c = live(128, 8);
    let a = rect(0, 0, 2, 2);
    let b = rect(3, 1, 65, 1);
    let stream = update(&[(a, 16, zrle_payload(&ZRLE_A)), (b, 16, zrle_payload(&ZRLE_B))]);
    assert_eq!(feed_all(&mut c, &stream), Ok(stream.len()));
    let solid: Vec<u8> = (0..64).flat_map(|_| [9u8, 8, 7, 0]).collect();
    assert_eq!(
        drain(&mut c),
        vec![
            VncEvent::RawImage(a, vec![1, 2, 3, 0, 4, 5, 6, 0, 7, 8, 9, 0, 10, 11, 12, 0]),
            VncEvent::RawImage(rect(3, 1, 64, 1), solid),
            VncEvent::RawImage(rect(67, 1, 1, 1), vec![1, 2, 3, 0]),
        ]
    );
}

#[test]
fn zrle_is_waited_for_until_it_is_whole() {
    let a = rect(0, 0, 2, 2);
    let stream = update(&[(a, 16, zrle_payload(&ZRLE_A))]);
    for end in 4..stream.len() {
        let mut c = live(8, 8);
        assert_eq!(feed_all(&mut c, &stream[..end]), Ok(4));
        assert!(c.events.is_empty());
    }
    // The stream is untouched by the attempts that came too early.
    let mut c = live(8, 8);
    assert_eq!(feed_all(&mut c, &stream[..stream.len() - 1]), Ok(4));
    assert_eq!(feed_all(&mut c, &stream[4..]), Ok(stream.len() - 4));
    assert_eq!(drain(&mut c).len(), 1);
}

#[test]
fn zrle_data_that_is_too_short_for_its_tiles_is_a_protocol_error() {
    let mut c = live(8, 8);
    let stream = update(&[(rect(0, 0, 2, 2), 16, zrle_payload(&ZRLE_SHORT))]);
    assert_eq!(feed_all(&mut c, &stream), Err(VncError::Protocol));
    assert_eq!(c.poll_event(), Err(VncError::Protocol));
    assert_eq!(
        zrle::decode(Some(&[0, 1, 2, 3, 4, 5, 6][..]), &rect(0, 0, 2, 2), &bgra(), &bgra()),
        Err(VncError::Protocol)
    );
}

#[test]
fn zrle_data_that_goes_on_after_its_tiles_is_a_protocol_error() {
    let mut c = live(8, 8);
    let stream = update(&[(rect(0, 0, 1, 1), 16, zrle_payload(&ZRLE_LONG))]);
    assert_eq!(feed_all(&mut c, &stream), Err(VncError::Protocol));
    assert_eq!(
        zrle::decode(Some(&[1, 1, 2, 3, 0xee][..]), &rect(0, 0, 1, 1), &bgra(), &bgra()),
        Err(VncError::Protocol)
    );
    assert_eq!(
        zrle::decode(Some(&[1, 1, 2, 3][..]), &rect(0, 0, 1, 1), &bgra(), &bgra()),
        Ok(vec![VncEvent::RawImage(rect(0, 0, 1, 1), vec![1, 2, 3, 0])])
    );
    assert_eq!(zrle::decode(None, &rect(0, 0, 1, 1), &bgra(), &bgra()), Err(VncError::Protocol));
}

#[test]
fn zrle_data_that_is_no_zlib_stream_is_a_protocol_error() {
    let mut c = live(8, 8);
    let stream = update(&[(rect(0, 0, 1, 1), 16, zrle_payload(&[1, 2, 3, 4, 5, 6, 7, 8]))]);
    assert_eq!(feed_all(&mut c, &stream), Err(VncError::Protocol));
}

#[test]
fn zrle_limit_grows_with_the_rectangle() {
    assert_eq!(zrle::limit(&rect(0, 0, 0, 0)), 0);
    assert_eq!(zrle::limit(&rect(0, 0, 1, 1)), 525);
    assert_eq!(zrle::limit(&rect(0, 0, 65, 64)), 2 * 520 + 65 * 64 * 5);
}

#[test]
fn compact_lengths_take_one_to_three_bytes() {
    assert_eq!(tight::read_compact(&[0], 0), Some((0, 1)));
    assert_eq!(tight::read_compact(&[9, 127], 1), Some((127, 2)));
    assert_eq!(tight::read_compact(&[0xc8, 0x01], 0), Some((200, 2)));
    assert_eq!(tight::read_compact(&[0xa0, 0x9c, 0x01], 0), Some((20000, 3)));
    assert_eq!(tight::read_compact(&[0xff, 0xff, 0xff], 0), Some((0x3f_ffff, 3)));
    assert_eq!(tight::read_compact(&[], 0), None);
    assert_eq!(tight::read_compact(&[0x80], 0), None);
    assert_eq!(tight::read_compact(&[0x80, 0x80], 0), None);
}

#[test]
fn tight_pixels_are_compact_for_eight_bit_channels() {
    assert!(tight::is_compact(&bgra()));
    assert_eq!(tight::unit(&bgra()), 3);
    let mut deep = bgra();
    deep.depth = 32;
    assert!(!tight::is_compact(&deep));
    assert_eq!(tight::unit(&deep), 4);
    let mut narrow = bgra();
    narrow.red_max = 127;
    assert_eq!(tight::unit(&narrow), 4);
}

#[test]
fn tight_fill_paints_the_rectangle_in_one_colour() {
    let r = rect(1, 2, 2, 2);
    assert_eq!(
        tight::decode(&r, &bgra(), &bgra(), &[0x80, 10, 20, 30], None),
        Ok(vec![VncEvent::RawImage(r, from_rgb(&[10, 20, 30, 10, 20, 30, 10, 20, 30, 10, 20, 30]))])
    );
    assert_eq!(
        rectangle::measure(VncEncoding::Tight, &r, &bgra(), &bgra(), &[0x80]),
        Ok(Some(4))
    );
    // The bytes have to hold all that the layout asks for; what follows is not looked at.
    assert_eq!(
        tight::decode(&r, &bgra(), &bgra(), &[0x80, 10, 20], None),
        Err(VncError::Protocol)
    );
    assert_eq!(
        tight::decode(&r, &bgra(), &bgra(), &[0x80, 10, 20, 30, 40], None),
        Ok(vec![VncEvent::RawImage(r, from_rgb(&[10, 20, 30, 10, 20, 30, 10, 20, 30, 10, 20, 30]))])
    );
}

#[test]
fn tight_small_data_is_not_compressed() {
    let r = rect(0, 0, 3, 1);
    assert_eq!(
        tight::decode(&r, &bgra(), &bgra(), &[0x00, 1, 2, 3, 4, 5, 6, 7, 8, 9], None),
        Ok(vec![VncEvent::RawImage(r, from_rgb(&[1, 2, 3, 4, 5, 6, 7, 8, 9]))])
    );
    // With the filter named: plain pixels.
    assert_eq!(
        tight::decode(&r, &bgra(), &bgra(), &[0x40, 0, 1, 2, 3, 4, 5, 6, 7, 8, 9], None),
        Ok(vec![VncEvent::RawImage(r, from_rgb(&[1, 2, 3, 4, 5, 6, 7, 8, 9]))])
    );
    assert_eq!(
        rectangle::plan(VncEncoding::Tight, &r, &bgra(), &[0x05, 1, 2, 3, 4, 5, 6, 7, 8, 9]),
        Plan { resets: 5, compressed: false, stream: 0, from: 0, len: 0, limit: 0 }
    );
}

#[test]
fn tight_plain_pixels_go_through_the_named_stream() {
    let mut c = live(16, 16);
    let r = rect(0, 0, 4, 4);
    let mut first = vec![0x10, TIGHT_PLAIN.len() as u8];
    first.extend_from_slice(&TIGHT_PLAIN);
    let mut second = vec![0x10, TIGHT_PLAIN2.len() as u8];
    second.extend_from_slice(&TIGHT_PLAIN2);
    assert_eq!(
        rectangle::plan(VncEncoding::Tight, &r, &bgra(), &first),
        Plan { resets: 0, compressed: true, stream: 1, from: 2, len: TIGHT_PLAIN.len(), limit: 48 }
    );
    let stream = update(&[(r, 7, first), (r, 7, second)]);
    assert_eq!(feed_all(&mut c, &stream), Ok(stream.len()));
    assert_eq!(
        drain(&mut c),
        vec![
            VncEvent::RawImage(r, from_rgb(&TIGHT_PLAIN_PX)),
            VncEvent::RawImage(r, from_rgb(&TIGHT_PLAIN2_PX)),
        ]
    );
}

#[test]
fn tight_reset_puts_a_stream_back_to_its_start() {
    let r = rect(0, 0, 4, 4);
    let mut first = vec![0x10, TIGHT_PLAIN.len() as u8];
    first.extend_from_slice(&TIGHT_PLAIN);
    // Data from the start of a stream, with and without the reset of stream 1.
    let mut with_reset = vec![0x12, TIGHT_FRESH.len() as u8];
    with_reset.extend_from_slice(&TIGHT_FRESH);
    let mut without_reset = vec![0x10, TIGHT_FRESH.len() as u8];
    without_reset.extend_from_slice(&TIGHT_FRESH);

    let mut c = live(16, 16);
    let stream = update(&[(r, 7, first.clone()), (r, 7, with_reset)]);
    assert_eq!(feed_all(&mut c, &stream), Ok(stream.len()));
    assert_eq!(
        drain(&mut c),
        vec![
            VncEvent::RawImage(r, from_rgb(&TIGHT_PLAIN_PX)),
            VncEvent::RawImage(r, from_rgb(&TIGHT_PLAIN2_PX)),
        ]
    );

    let mut c = live(16, 16);
    let stream = update(&[(r, 7, first), (r, 7, without_reset)]);
    assert_eq!(feed_all(&mut c, &stream), Err(VncError::Protocol));
}

#[test]
fn tight_palette_with_byte_indices() {
    let mut c = live(16, 16);
    let r = rect(2, 2, 4, 4);
    let mut payload = vec![0x60, 1, 2];
    payload.extend_from_slice(&[1, 1, 1, 2, 2, 2, 3, 3, 3]);
    payload.push(TIGHT_IDX.len() as u8);
    payload.extend_from_slice(&TIGHT_IDX);
    assert_eq!(
        rectangle::plan(VncEncoding::Tight, &r, &bgra(), &payload),
        Plan { resets: 0, compressed: true, stream: 2, from: 13, len: TIGHT_IDX.len(), limit: 16 }
    );
    let stream = update(&[(r, 7, payload)]);
    assert_eq!(feed_all(&mut c, &stream), Ok(stream.len()));
    let expected: Vec<u8> =
        TIGHT_IDX_RAW.iter().flat_map(|i| [i + 1, i + 1, i + 1, 0]).collect();
    assert_eq!(drain(&mut c), vec![VncEvent::RawImage(r, expected)]);
}

#[test]
fn tight_palette_of_two_colours_takes_a_bit_for_each_pixel() {
    let r = rect(0, 0, 9, 2);
    let mut payload = vec![0x40, 1, 1];
    payload.extend_from_slice(&[10, 10, 10, 20, 20, 20]);
    payload.extend_from_slice(&[0b1000_0001, 0b1000_0000, 0b0000_0000, 0b0000_0000]);
    let events = tight::decode(&r, &bgra(), &bgra(), &payload, None).unwrap();
    let mut indices = vec![0u8; 18];
    indices[0] = 1;
    indices[7] = 1;
    indices[8] = 1;
    let expected: Vec<u8> = indices
        .iter()
        .flat_map(|i| if *i == 1 { [20u8, 20, 20, 0] } else { [10, 10, 10, 0] })
        .collect();
    assert_eq!(events, vec![VncEvent::RawImage(r, expected)]);
    // A palette of one colour has no second entry to point at.
    let mut payload = vec![0x40, 1, 0, 10, 10, 10];
    payload.extend_from_slice(&[0b1000_0000, 0, 0, 0]);
    assert_eq!(tight::decode(&r, &bgra(), &bgra(), &payload, None), Err(VncError::Protocol));
    // An index past a palette of three colours.
    let r = rect(0, 0, 1, 1);
    let payload = vec![0x40, 1, 2, 1, 1, 1, 2, 2, 2, 3, 3, 3, 3];
    assert_eq!(tight::decode(&r, &bgra(), &bgra(), &payload, None), Err(VncError::Protocol));
}

#[test]
fn tight_gradient_adds_what_the_neighbours_let_expect() {
    let mut c = live(16, 16);
    let r = rect(0, 0, 4, 4);
    let mut payload = vec![0x70, 2, TIGHT_GRAD.len() as u8];
    payload.extend_from_slice(&TIGHT_GRAD);
    let stream = update(&[(r, 7, payload)]);
    assert_eq!(feed_all(&mut c, &stream), Ok(stream.len()));
    assert_eq!(drain(&mut c), vec![VncEvent::RawImage(r, TIGHT_GRAD_EXPECT.to_vec())]);
    // Two pixels, sent as they are: the second builds on the first.
    let r = rect(0, 0, 2, 1);
    assert_eq!(
        tight::decode(&r, &bgra(), &bgra(), &[0x40, 2, 250, 1, 2, 10, 1, 255], None),
        Ok(vec![VncEvent::RawImage(r, vec![2, 1, 250, 0, 1, 2, 4, 0])])
    );
}

#[test]
fn tight_jpeg_is_handed_out_as_it_comes() {
    let r = rect(0, 0, 8, 8);
    let image: Vec<u8> = (0..200u16).map(|i| (i % 251) as u8).collect();
    let mut payload = vec![0x90, 0xc8, 0x01];
    payload.extend_from_slice(&image);
    assert_eq!(
        rectangle::measure(VncEncoding::Tight, &r, &bgra(), &bgra(), &payload[..3]),
        Ok(Some(203))
    );
    assert_eq!(rectangle::measure(VncEncoding::Tight, &r, &bgra(), &bgra(), &payload[..2]), Ok(None));
    assert_eq!(
        tight::decode(&r, &bgra(), &bgra(), &payload, None),
        Ok(vec![VncEvent::JpegImage(r, image)])
    );
}

#[test]
fn tight_rejects_unknown_methods_and_filters() {
    let r = rect(0, 0, 1, 1);
    for control in [0xa0u8, 0xb0, 0xf0] {
        assert_eq!(
            rectangle::measure(VncEncoding::Tight, &r, &bgra(), &bgra(), &[control, 0, 0, 0]),
            Err(VncError::Protocol)
        );
        assert_eq!(
            tight::decode(&r, &bgra(), &bgra(), &[control, 0, 0, 0], None),
            Err(VncError::Protocol)
        );
    }
    assert_eq!(
        rectangle::measure(VncEncoding::Tight, &r, &bgra(), &bgra(), &[0x40, 3, 0, 0, 0]),
        Err(VncError::Protocol)
    );
    assert_eq!(rectangle::measure(VncEncoding::Tight, &r, &bgra(), &bgra(), &[]), Ok(None));
    assert_eq!(rectangle::measure(VncEncoding::Tight, &r, &bgra(), &bgra(), &[0x40]), Ok(None));
    assert_eq!(rectangle::measure(VncEncoding::Tight, &r, &bgra(), &bgra(), &[0x40, 1]), Ok(None));
}

#[test]
fn tight_data_of_the_wrong_length_is_a_protocol_error() {
    let r = rect(0, 0, 4, 4);
    let payload = [0x00, 3, 1, 2, 3];
    let right = [7u8; 48];
    assert!(tight::decode(&r, &bgra(), &bgra(), &payload, Some(&right[..])).is_ok());
    assert_eq!(
        tight::decode(&r, &bgra(), &bgra(), &payload, Some(&right[..47])),
        Err(VncError::Protocol)
    );
    assert_eq!(tight::decode(&r, &bgra(), &bgra(), &payload, None), Err(VncError::Protocol));
}

#[test]
fn plans_name_what_goes_to_the_streams() {
    let r = rect(0, 0, 2, 2);
    assert_eq!(
        rectangle::plan(VncEncoding::Zrle, &r, &bgra(), &zrle_payload(&ZRLE_A)),
        Plan {
            resets: 0,
            compressed: true,
            stream: 4,
            from: 4,
            len: ZRLE_A.len(),
            limit: 520 + 20
        }
    );
    let idle = Plan { resets: 0, compressed: false, stream: 0, from: 0, len: 0, limit: 0 };
    assert_eq!(rectangle::plan(VncEncoding::Zrle, &r, &bgra(), &[0, 0]), idle);
    assert_eq!(rectangle::plan(VncEncoding::Raw, &r, &bgra(), &[0u8; 16]), idle);
    assert_eq!(rectangle::plan(VncEncoding::Trle, &r, &bgra(), &[1, 1, 2, 3]), idle);
}

#[test]
fn apply_takes_the_decompressed_data_from_its_caller() {
    let mut c = live(8, 8);
    let r = rect(0, 0, 1, 1);
    let stream = update(&[(r, 16, zrle_payload(&[0xde, 0xad]))]);
    assert_eq!(c.apply(&stream, None), Ok(Some(Progress { consumed: 4, reply: vec![] })));
    let step = c.apply(&stream[4..], Some(&[1, 4, 5, 6][..])).unwrap().unwrap();
    assert_eq!(step.consumed, 12 + 4 + 2);
    assert_eq!(drain(&mut c), vec![VncEvent::RawImage(r, vec![4, 5, 6, 0])]);
}

#[test]
fn each_call_of_the_decompressor_is_weighed() {
    // Three bytes taken and two written: the decompression goes on.
    let mut out = vec![1];
    assert_eq!(absorb(&mut out, 4, 10, 8, 100, 103, &vec![7, 8]), Turn::Fed { at: 7 });
    assert_eq!(out, vec![1, 7, 8]);
    // Nothing taken, but something written: it goes on where it was.
    assert_eq!(absorb(&mut out, 7, 10, 8, 103, 103, &vec![9]), Turn::Fed { at: 7 });
    assert_eq!(out, vec![1, 7, 8, 9]);
    // Nothing taken and nothing written: the end, if no input is left.
    assert_eq!(absorb(&mut out, 10, 10, 8, 106, 106, &vec![]), Turn::Finished);
    assert_eq!(absorb(&mut out, 9, 10, 8, 106, 106, &vec![]), Turn::Refused);
    // More written than is allowed.
    assert_eq!(absorb(&mut out, 7, 10, 8, 103, 104, &vec![0; 5]), Turn::Refused);
    assert_eq!(absorb(&mut out, 7, 10, 8, 103, 104, &vec![0; 4]), Turn::Fed { at: 8 });
    assert_eq!(out.len(), 8);
    // A count that went down, or up by more than the input held.
    assert_eq!(absorb(&mut out, 8, 10, 99, 104, 103, &vec![]), Turn::Refused);
    assert_eq!(absorb(&mut out, 8, 10, 99, 104, 107, &vec![]), Turn::Refused);
    assert_eq!(absorb(&mut out, 8, 10, 99, 104, 106, &vec![]), Turn::Fed { at: 10 });
    // An offset past the end, and more gathered than is allowed.
    assert_eq!(absorb(&mut out, 11, 10, 99, 0, 0, &vec![]), Turn::Refused);
    assert_eq!(absorb(&mut out, 10, 10, 7, 0, 0, &vec![]), Turn::Refused);
    assert_eq!(out.len(), 8);
}

#[test]
fn streams_decompress_each_on_its_own() {
    let mut streams = Streams::new();
    // A chunk without bytes gives no bytes, whatever the limit.
    assert_eq!(streams.inflate(1, &[], 0), Some(vec![]));
    assert_eq!(streams.inflate(1, &TIGHT_PLAIN, 48), Some(TIGHT_PLAIN_PX.to_vec()));
    // Stream 2 is at its start still, and stream 1 is not.
    assert_eq!(streams.inflate(2, &TIGHT_FRESH, 48), Some(TIGHT_PLAIN2_PX.to_vec()));
    assert_eq!(streams.inflate(1, &TIGHT_PLAIN2, 48), Some(TIGHT_PLAIN2_PX.to_vec()));
    assert_eq!(streams.inflate(1, &TIGHT_FRESH, 48), None);
    // Any number above 3 names the stream of ZRLE.
    assert_eq!(streams.inflate(4, &ZRLE_A, 100), Some(vec![0, 1, 2, 3, 4, 5, 6, 7, 8, 9, 10, 11, 12]));
    assert_eq!(streams.inflate(9, &ZRLE_B, 100), Some(vec![1, 9, 8, 7, 0, 1, 2, 3]));
    // No more may come out than the limit allows.
    let mut streams = Streams::new();
    assert_eq!(streams.inflate(0, &TIGHT_PLAIN, 47), None);
    let mut one = Streams::new();
    assert_eq!(inflate(&mut one.zrle, &TIGHT_PLAIN, 48), Some(TIGHT_PLAIN_PX.to_vec()));
    assert_eq!(inflate(&mut one.zrle, &[], 0), Some(vec![]));
}

#[test]
fn reset_puts_back_the_named_streams_only() {
    let mut streams = Streams::new();
    for stream in 0..4 {
        assert_eq!(streams.inflate(stream, &TIGHT_PLAIN, 48), Some(TIGHT_PLAIN_PX.to_vec()));
    }
    assert_eq!(streams.inflate(4, &TIGHT_PLAIN, 48), Some(TIGHT_PLAIN_PX.to_vec()));
    // Streams 0 and 2 start anew; 1, 3 and the stream of ZRLE go on.
    streams.reset(0b0101);
    assert_eq!(streams.inflate(0, &TIGHT_FRESH, 48), Some(TIGHT_PLAIN2_PX.to_vec()));
    assert_eq!(streams.inflate(2, &TIGHT_FRESH, 48), Some(TIGHT_PLAIN2_PX.to_vec()));
    assert_eq!(streams.inflate(1, &TIGHT_PLAIN2, 48), Some(TIGHT_PLAIN2_PX.to_vec()));
    assert_eq!(streams.inflate(3, &TIGHT_PLAIN2, 48), Some(TIGHT_PLAIN2_PX.to_vec()));
    // The high bits of the mask name nothing.
    streams.reset(0xf0);
    assert_eq!(streams.inflate(4, &TIGHT_PLAIN2, 48), Some(TIGHT_PLAIN2_PX.to_vec()));
    assert_eq!(streams.inflate(1, &TIGHT_FRESH, 48), None);
}

#[test]
fn the_due_rectangle_names_its_plan() {
    let mut c = live(16, 16);
    let r = rect(0, 0, 4, 4);
    let mut payload = vec![0x13, TIGHT_PLAIN.len() as u8];
    payload.extend_from_slice(&TIGHT_PLAIN);
    let stream = update(&[(r, 7, payload)]);
    // No rectangle is due before the update has begun.
    assert_eq!(c.plan_next(&stream[4..]), None);
    assert_eq!(c.handle(&stream), Ok(Some(Progress { consumed: 4, reply: vec![] })));
    assert_eq!(c.plan_next(&stream[4..stream.len() - 1]), None);
    assert_eq!(c.plan_next(&stream[4..15]), None);
    assert_eq!(
        c.plan_next(&stream[4..]),
        Some(Plan {
            resets: 3,
            compressed: true,
            stream: 1,
            from: 2,
            len: TIGHT_PLAIN.len(),
            limit: 48
        })
    );
    // A rectangle outside the screen, and one of an unknown encoding, have no plan.
    let outside = update(&[(rect(14, 0, 4, 4), 7, vec![0x80, 1, 2, 3])]);
    assert_eq!(c.plan_next(&outside[4..]), None);
    let unknown = update(&[(r, 5, vec![0; 64])]);
    assert_eq!(c.plan_next(&unknown[4..]), None);
    // Raw pixels ask nothing of the streams.
    let raw = update(&[(r, 0, vec![0; 64])]);
    assert_eq!(
        c.plan_next(&raw[4..]),
        Some(Plan { resets: 0, compressed: false, stream: 0, from: 0, len: 0, limit: 0 })
    );
    c.close();
    assert_eq!(c.plan_next(&stream[4..]), None);
}
