use kitty_graphics_protocol::error::Error;
use kitty_graphics_protocol::response::{ErrorCode, Response};

#[test]
fn test_parse_ok_response() {
    let data = b"\x1b_Gi=42;OK\x1b\\";
    let resp = Response::parse(data).unwrap();
    assert!(resp.is_ok());
    assert_eq!(resp.image_id, Some(42));
}

#[test]
fn test_parse_ok_response_with_placement() {
    let data = b"\x1b_Gi=42,p=7;OK\x1b\\";
    let resp = Response::parse(data).unwrap();
    assert!(resp.is_ok());
    assert_eq!(resp.image_id, Some(42));
    assert_eq!(resp.placement_id, Some(7));
}

#[test]
fn test_parse_error_response() {
    let data = b"\x1b_Gi=42;ENOENT:Image not found\x1b\\";
    let resp = Response::parse(data).unwrap();
    assert!(resp.is_error());
    assert_eq!(resp.image_id, Some(42));
    assert!(resp.error.unwrap().contains("Not found"));
}

#[test]
fn test_parse_response_with_image_number() {
    let data = b"\x1b_Gi=99,I=13;OK\x1b\\";
    let resp = Response::parse(data).unwrap();
    assert!(resp.is_ok());
    assert_eq!(resp.image_id, Some(99));
    assert_eq!(resp.image_number, Some(13));
}

#[test]
fn parse_ok_response_has_no_error() {
    let resp = Response::parse(b"\x1b_Gi=42;OK\x1b\\").unwrap();
    assert_eq!(
        resp,
        Response {
            image_id: Some(42),
            image_number: None,
            placement_id: None,
            success: true,
            error: None,
        }
    );
    assert_eq!(resp.error_message(), None);
}

#[test]
fn parse_error_response_explains_the_code() {
    let resp = Response::parse(b"\x1b_Gi=42;ENOENT:Image not found\x1b\\").unwrap();
    assert_eq!(
        resp,
        Response {
            image_id: Some(42),
            image_number: None,
            placement_id: None,
            success: false,
            error: Some("Not found: Image not found".to_string()),
        }
    );
    assert_eq!(resp.error_message(), Some("Not found: Image not found"));
}

fn error_of(message: &str) -> Option<String> {
    let mut data = b"\x1b_Gi=1;".to_vec();
    data.extend_from_slice(message.as_bytes());
    data.extend_from_slice(b"\x1b\\");
    Response::parse(&data).unwrap().error
}

#[test]
fn every_known_code_is_explained() {
    assert_eq!(error_of("EINVAL:bad key"), Some("Invalid argument: bad key".to_string()));
    assert_eq!(error_of("EIO:disk"), Some("IO error: disk".to_string()));
    assert_eq!(error_of("ETOODEEP:chain"), Some("Chain too deep: chain".to_string()));
    assert_eq!(error_of("ECYCLE:loop"), Some("Cycle detected: loop".to_string()));
    assert_eq!(error_of("ENOPARENT:gone"), Some("Parent not found: gone".to_string()));
    assert_eq!(error_of("ENOENT:"), Some("Not found: ".to_string()));
}

#[test]
fn unknown_message_is_the_error_itself() {
    assert_eq!(error_of("EFOO:what"), Some("EFOO:what".to_string()));
    assert_eq!(error_of(""), Some(String::new()));
    assert_eq!(error_of("OKAY"), Some("OKAY".to_string()));
    assert_eq!(error_of("ENOENT"), Some("ENOENT".to_string()));
    assert_eq!(error_of("caf\u{e9}:\u{2713}"), Some("caf\u{e9}:\u{2713}".to_string()));
    assert_eq!(error_of("EIO:caf\u{e9}"), Some("IO error: caf\u{e9}".to_string()));
}

fn is_invalid_response(data: &[u8]) -> bool {
    match Response::parse(data) {
        Err(Error::InvalidResponse(shown)) => shown == String::from_utf8_lossy(data),
        _ => false,
    }
}

#[test]
fn short_buffer_is_rejected() {
    assert!(is_invalid_response(b""));
    assert!(is_invalid_response(b"\x1b_G;\x1b"));
    assert!(is_invalid_response(b"\x1b_G"));
}

#[test]
fn wrong_magic_is_rejected() {
    assert!(is_invalid_response(b"\x1b_Xi=42;OK\x1b\\"));
    assert!(is_invalid_response(b"\x1b[Gi=42;OK\x1b\\"));
    assert!(is_invalid_response(b"x_Gi=42;OK\x1b\\"));
}

#[test]
fn missing_semicolon_is_rejected() {
    assert!(is_invalid_response(b"\x1b_Gi=42 OK\x1b\\"));
}

#[test]
fn missing_terminator_is_rejected() {
    assert!(is_invalid_response(b"\x1b_Gi=42;OK"));
    assert!(is_invalid_response(b"\x1b_G\x1bi=4;OK"));
}

#[test]
fn invalid_utf8_is_rejected() {
    assert!(matches!(
        Response::parse(b"\x1b_Gi=\xff;OK\x1b\\"),
        Err(Error::Utf8Error(_))
    ));
    assert!(matches!(
        Response::parse(b"\x1b_Gi=1;O\xffK\x1b\\"),
        Err(Error::Utf8Error(_))
    ));
    // The control data is looked at before the end of the frame is.
    assert!(matches!(
        Response::parse(b"\x1b_Gi=\xff;OK"),
        Err(Error::Utf8Error(_))
    ));
}

#[test]
fn shortest_frame_is_read() {
    let resp = Response::parse(b"\x1b_G;\x1b\\").unwrap();
    assert_eq!(resp.image_id, None);
    assert!(resp.is_error());
    assert_eq!(resp.error, Some(String::new()));
}

#[test]
fn message_ends_at_the_last_escape() {
    let resp = Response::parse(b"\x1b_Gi=1;a\x1bb\x1b\\").unwrap();
    assert_eq!(resp.error, Some("a\x1bb".to_string()));
    let resp = Response::parse(b"\x1b_Gi=1;OK\x1b").unwrap();
    assert!(resp.is_ok());
}

#[test]
fn control_data_ends_at_the_first_semicolon() {
    let resp = Response::parse(b"\x1b_Gi=1;a;b\x1b\\").unwrap();
    assert_eq!(resp.image_id, Some(1));
    assert_eq!(resp.error, Some("a;b".to_string()));
}

#[test]
fn unknown_and_unparsable_keys_are_ignored() {
    let resp = Response::parse(b"\x1b_Gx=5,i=abc,p=,I,q=1=2,ii=3;OK\x1b\\").unwrap();
    assert!(resp.is_ok());
    assert_eq!(resp.image_id, None);
    assert_eq!(resp.image_number, None);
    assert_eq!(resp.placement_id, None);
}

#[test]
fn numbers_are_read_as_u32() {
    let resp = Response::parse(b"\x1b_Gi=4294967295,I=+7,p=007;OK\x1b\\").unwrap();
    assert_eq!(resp.image_id, Some(4294967295));
    assert_eq!(resp.image_number, Some(7));
    assert_eq!(resp.placement_id, Some(7));
    let resp = Response::parse(b"\x1b_Gi=4294967296,I=-1,p=+;OK\x1b\\").unwrap();
    assert_eq!(resp.image_id, None);
    assert_eq!(resp.image_number, None);
    assert_eq!(resp.placement_id, None);
    let resp = Response::parse(b"\x1b_Gi=99999999999999999999999,p=1 ;OK\x1b\\").unwrap();
    assert_eq!(resp.image_id, None);
    assert_eq!(resp.placement_id, None);
}

#[test]
fn later_part_decides() {
    let resp = Response::parse(b"\x1b_Gi=1,i=2;OK\x1b\\").unwrap();
    assert_eq!(resp.image_id, Some(2));
    let resp = Response::parse(b"\x1b_Gi=1,i=x;OK\x1b\\").unwrap();
    assert_eq!(resp.image_id, None);
    let resp = Response::parse(b"\x1b_Gp=3=4;OK\x1b\\").unwrap();
    assert_eq!(resp.placement_id, None);
}

#[test]
fn response_is_shown() {
    let resp = Response::parse(b"\x1b_Gi=42,p=7;OK\x1b\\").unwrap();
    assert_eq!(resp.to_string(), "OK (image_id=42, placement_id=7)");
    let resp = Response::parse(b"\x1b_Gi=42;OK\x1b\\").unwrap();
    assert_eq!(resp.to_string(), "OK (image_id=42)");
    let resp = Response::parse(b"\x1b_Gp=7;OK\x1b\\").unwrap();
    assert_eq!(resp.to_string(), "OK");
    let resp = Response::parse(b"\x1b_Gi=42;EIO:disk\x1b\\").unwrap();
    assert_eq!(resp.to_string(), "ERROR: IO error: disk");
    let resp = Response {
        image_id: None,
        image_number: None,
        placement_id: None,
        success: false,
        error: None,
    };
    assert_eq!(resp.to_string(), "");
}

#[test]
fn error_codes_are_told_apart() {
    assert_eq!(ErrorCode::from_message("ENOENT:x"), ErrorCode::NotFound);
    assert_eq!(ErrorCode::from_message("ENOENT"), ErrorCode::NotFound);
    assert_eq!(ErrorCode::from_message("EINVAL:x"), ErrorCode::InvalidArgument);
    assert_eq!(ErrorCode::from_message("EIO:x"), ErrorCode::IoError);
    assert_eq!(ErrorCode::from_message("ETOODEEP:x"), ErrorCode::TooDeep);
    assert_eq!(ErrorCode::from_message("ECYCLE:x"), ErrorCode::Cycle);
    assert_eq!(ErrorCode::from_message("ENOPARENT:x"), ErrorCode::NoParent);
    assert_eq!(ErrorCode::from_message("OK"), ErrorCode::Unknown);
    assert_eq!(ErrorCode::from_message(""), ErrorCode::Unknown);
    assert_eq!(ErrorCode::from_message("xENOENT"), ErrorCode::Unknown);
    assert_eq!(ErrorCode::from_message("ENO"), ErrorCode::Unknown);
}

#[test]
fn rejected_bytes_are_shown_with_replacement_characters() {
    match Response::parse(b"\xff\xfe") {
        Err(Error::InvalidResponse(shown)) => assert_eq!(shown, "\u{fffd}\u{fffd}"),
        _ => panic!("two bytes were read as an answer"),
    }
    match Response::parse(b"\x1b_Xcaf\xc3\xa9 \xc3;") {
        Err(Error::InvalidResponse(shown)) => assert_eq!(shown, "\x1b_Xcaf\u{e9} \u{fffd};"),
        _ => panic!("a frame with the wrong letter was read as an answer"),
    }
}
