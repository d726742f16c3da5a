use base64::Engine;
use kitty_graphics_protocol::command::Command;
use kitty_graphics_protocol::error::Error;
use kitty_graphics_protocol::frame::{ChunkedSerializer, CHUNK_SIZE};
use kitty_graphics_protocol::types::{Action, ImageFormat};
use kitty_graphics_protocol::{APC_END, APC_START, ESC, GRAPHICS_PREFIX, MAX_CHUNK_SIZE};

fn decode(text: &str) -> Vec<u8> {
    base64::engine::general_purpose::STANDARD.decode(text).unwrap()
}

/// The control data and the payload of a frame.
fn parts(frame: &str) -> (String, String) {
    let inner = frame
        .strip_prefix("\x1b_G")
        .unwrap()
        .strip_suffix("\x1b\\")
        .unwrap();
    let (control, payload) = inner.split_once(';').unwrap();
    (control.to_string(), payload.to_string())
}

fn payload_of(len: usize) -> Vec<u8> {
    (0..len).map(|i| (i * 7 + 3) as u8).collect()
}

#[test]
fn constants_are_the_protocol_s() {
    assert_eq!(ESC, 0x1b);
    assert_eq!(APC_START, [0x1b, b'_']);
    assert_eq!(APC_END, [0x1b, b'\\']);
    assert_eq!(GRAPHICS_PREFIX, "G");
    assert_eq!(MAX_CHUNK_SIZE, 4096);
    assert_eq!(CHUNK_SIZE, 4096);
}

#[test]
fn serialize_frames_the_payload_as_base64() {
    let cmd = Command::builder()
        .action(Action::Transmit)
        .format(ImageFormat::Png)
        .build();
    assert_eq!(cmd.serialize(b"hello").unwrap(), "\x1b_Ga=t,f=100;aGVsbG8=\x1b\\");
    assert_eq!(cmd.serialize(b"").unwrap(), "\x1b_Ga=t,f=100;\x1b\\");
    assert_eq!(cmd.serialize(&[0xfb, 0xff]).unwrap(), "\x1b_Ga=t,f=100;+/8=\x1b\\");
    assert_eq!(
        Command::builder().build().serialize(b"abc").unwrap(),
        "\x1b_G;YWJj\x1b\\"
    );
}

#[test]
fn serialize_bytes_is_the_same_frame() {
    let cmd = Command::place(1, 2, 3);
    assert_eq!(
        cmd.serialize_bytes(b"hello").unwrap(),
        b"\x1b_Ga=p,i=1,c=2,r=3;aGVsbG8=\x1b\\".to_vec()
    );
    assert_eq!(
        cmd.serialize_bytes(b"xyz").unwrap(),
        cmd.serialize(b"xyz").unwrap().into_bytes()
    );
}

#[test]
fn serialize_with_path_sends_the_path() {
    let cmd = Command::builder()
        .action(Action::Transmit)
        .path("/tmp/img.png")
        .build();
    assert_eq!(
        cmd.serialize_with_path().unwrap(),
        "\x1b_Ga=t;L3RtcC9pbWcucG5n\x1b\\"
    );
    let cmd = Command::builder().path("caf\u{e9}").build();
    assert_eq!(cmd.serialize_with_path().unwrap(), "\x1b_G;Y2Fmw6k=\x1b\\");
}

#[test]
fn serialize_with_path_needs_a_path() {
    let cmd = Command::builder().action(Action::Transmit).build();
    assert!(matches!(
        cmd.serialize_with_path(),
        Err(Error::MissingField("path"))
    ));
}

#[test]
fn small_payload_is_one_chunk() {
    let cmd = Command::builder().action(Action::Transmit).build();
    let mut chunks = cmd.serialize_chunked(b"hello").unwrap();
    assert_eq!(chunks.total_chunks(), 1);
    assert!(chunks.has_more());
    assert_eq!(chunks.next(), Some("\x1b_Ga=t,m=0;aGVsbG8=\x1b\\".to_string()));
    assert!(!chunks.has_more());
    assert_eq!(chunks.next(), None);
    assert_eq!(chunks.next(), None);
    assert_eq!(chunks.total_chunks(), 1);
}

#[test]
fn empty_payload_has_no_chunk() {
    let cmd = Command::builder().action(Action::Transmit).build();
    let mut chunks = cmd.serialize_chunked(b"").unwrap();
    assert_eq!(chunks.total_chunks(), 0);
    assert!(!chunks.has_more());
    assert_eq!(chunks.next(), None);
    assert_eq!(cmd.serialize_chunked(b"").unwrap().collect(), Vec::<String>::new());
}

#[test]
fn empty_control_data_still_gets_its_comma() {
    let cmd = Command::builder().build();
    let chunks = cmd.serialize_chunked(b"abc").unwrap().collect();
    assert_eq!(chunks, vec!["\x1b_G,m=0;YWJj\x1b\\".to_string()]);
}

fn check_chunks(len: usize) {
    let data = payload_of(len);
    let cmd = Command::builder()
        .action(Action::TransmitAndDisplay)
        .format(ImageFormat::Png)
        .image_id(5)
        .build();
    let encoded = base64::engine::general_purpose::STANDARD.encode(&data);
    let expected = encoded.len().div_ceil(4096);

    let serializer: ChunkedSerializer = cmd.serialize_chunked(&data).unwrap();
    assert_eq!(serializer.total_chunks(), expected);
    let chunks = serializer.collect();
    assert_eq!(chunks.len(), expected);

    let mut joined = String::new();
    for (k, chunk) in chunks.iter().enumerate() {
        let (control, payload) = parts(chunk);
        let last = k + 1 == chunks.len();
        let flag = if last { "m=0" } else { "m=1" };
        if k == 0 {
            assert_eq!(control, format!("a=T,f=100,i=5,{flag}"));
        } else {
            assert_eq!(control, flag);
        }
        if last {
            assert!(!payload.is_empty() && payload.len() <= 4096);
        } else {
            assert_eq!(payload.len(), 4096);
        }
        joined.push_str(&payload);
    }
    assert_eq!(joined, encoded);
    assert_eq!(decode(&joined), data);

    // One frame carries the same payload.
    let (control, payload) = parts(&cmd.serialize(&data).unwrap());
    assert_eq!(control, "a=T,f=100,i=5");
    assert_eq!(payload, joined);
    assert_eq!(decode(&payload), data);
}

#[test]
fn chunks_of_many_sizes() {
    for len in [1, 2, 3, 4, 100, 3071, 3072, 3073, 6144, 6145, 10000, 12288, 30000] {
        check_chunks(len);
    }
}

#[test]
fn payload_of_exactly_one_chunk() {
    // 3072 bytes are 4096 base64 characters.
    let data = payload_of(3072);
    let cmd = Command::builder().build();
    let chunks = cmd.serialize_chunked(&data).unwrap().collect();
    assert_eq!(chunks.len(), 1);
    assert!(chunks[0].starts_with("\x1b_G,m=0;"));
    let chunks = cmd.serialize_chunked(&payload_of(3073)).unwrap().collect();
    assert_eq!(chunks.len(), 2);
    assert!(chunks[0].starts_with("\x1b_G,m=1;"));
    assert_eq!(parts(&chunks[1]).0, "m=0");
    assert_eq!(parts(&chunks[1]).1.len(), 4);
}

#[test]
fn next_and_collect_agree() {
    let data = payload_of(7000);
    let cmd = Command::place(1, 2, 3);
    let all = cmd.serialize_chunked(&data).unwrap().collect();
    let mut serializer = cmd.serialize_chunked(&data).unwrap();
    assert_eq!(serializer.total_chunks(), 3);
    assert_eq!(serializer.next().as_ref(), Some(&all[0]));
    assert!(serializer.has_more());
    // What is left is collected from where the serializer stands.
    assert_eq!(serializer.total_chunks(), 3);
    assert_eq!(serializer.collect(), all[1..].to_vec());
}

#[test]
fn transmit_png_sends_any_bytes() {
    let chunks = Command::transmit_png(b"not a png").unwrap();
    assert_eq!(chunks, vec!["\x1b_Ga=T,f=100,q=2,m=0;bm90IGEgcG5n\x1b\\".to_string()]);
    assert_eq!(Command::transmit_png(b"").unwrap(), Vec::<String>::new());
    assert_eq!(Command::transmit_png(&payload_of(10000)).unwrap().len(), 4);
}

#[test]
fn transmit_rgba_checks_the_size() {
    let data = vec![0u8; 2 * 3 * 4];
    let chunks = Command::transmit_rgba(&data, 2, 3).unwrap();
    assert_eq!(chunks.len(), 1);
    let (control, payload) = parts(&chunks[0]);
    assert_eq!(control, "a=T,f=32,s=2,v=3,q=2,m=0");
    assert_eq!(decode(&payload), data);

    for (len, w, h) in [(23usize, 2u32, 3u32), (25, 2, 3), (24, 3, 3), (0, 1, 1), (18, 2, 3)] {
        match Command::transmit_rgba(&vec![0u8; len], w, h) {
            Err(Error::InvalidDimensions { width, height }) => {
                assert_eq!((width, height), (w, h));
            }
            _ => panic!("a payload of {len} bytes was taken for {w}x{h}"),
        }
    }
    assert_eq!(Command::transmit_rgba(&[], 0, 7).unwrap(), Vec::<String>::new());
}

#[test]
fn transmit_rgb_checks_the_size() {
    let data = vec![9u8; 2 * 3 * 3];
    let chunks = Command::transmit_rgb(&data, 2, 3).unwrap();
    assert_eq!(chunks.len(), 1);
    let (control, payload) = parts(&chunks[0]);
    assert_eq!(control, "a=T,f=24,s=2,v=3,q=2,m=0");
    assert_eq!(decode(&payload), data);
    assert!(matches!(
        Command::transmit_rgb(&vec![0u8; 24], 2, 3),
        Err(Error::InvalidDimensions { width: 2, height: 3 })
    ));
}

#[test]
fn dimensions_are_multiplied_without_wrapping() {
    // 65536 * 65536 * 4 is 0 in 32 bits: an empty payload must not pass.
    assert!(matches!(
        Command::transmit_rgba(&[], 65536, 65536),
        Err(Error::InvalidDimensions { width: 65536, height: 65536 })
    ));
    assert!(matches!(
        Command::transmit_rgb(&[0u8; 3], 0x8000_0001, 1),
        Err(Error::InvalidDimensions { .. })
    ));
    assert!(matches!(
        Command::transmit_rgba(&[0u8; 4], u32::MAX, u32::MAX),
        Err(Error::InvalidDimensions { .. })
    ));
}

#[test]
fn large_raw_image_is_chunked() {
    let data = payload_of(40 * 30 * 4);
    let chunks = Command::transmit_rgba(&data, 40, 30).unwrap();
    assert_eq!(chunks.len(), 2);
    assert_eq!(parts(&chunks[0]).0, "a=T,f=32,s=40,v=30,q=2,m=1");
    assert_eq!(parts(&chunks[1]).0, "m=0");
    let joined = format!("{}{}", parts(&chunks[0]).1, parts(&chunks[1]).1);
    assert_eq!(decode(&joined), data);
}

#[test]
fn errors_are_made_by_name() {
    assert!(matches!(Error::protocol("bad"), Error::Protocol(m) if m == "bad"));
    assert!(matches!(Error::terminal("worse"), Error::TerminalError(m) if m == "worse"));
}

#[test]
fn payloads_that_can_be_encoded() {
    use_can_encode();
}

fn use_can_encode() {
    let can_encode = kitty_graphics_protocol::encoding::can_encode;
    assert!(can_encode(0));
    assert!(can_encode(1));
    assert!(can_encode(3 * (usize::MAX / 4)));
    assert!(!can_encode(3 * (usize::MAX / 4) + 1));
    assert!(!can_encode(usize::MAX));
}
