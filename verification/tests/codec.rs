use acodex_server::lsp::codec::{CodecError, LspFrameCodec};
use acodex_server::lsp::grammar::{find_next_message, parse_message, HeaderFault, Parsed};
use bytes::BytesMut;

fn decode_all(bytes: &[u8]) -> (Vec<String>, Vec<u8>) {
    let mut codec = LspFrameCodec::default();
    let mut buffer = BytesMut::from(bytes);
    let mut texts = Vec::new();
    loop {
        match codec.decode(&mut buffer) {
            Ok(Some(text)) => texts.push(text),
            Ok(None) => break,
            Err(e) => panic!("{}", e.message()),
        }
    }
    (texts, buffer.to_vec())
}

fn decode_once(bytes: &[u8]) -> (Result<Option<String>, CodecError>, Vec<u8>) {
    let mut codec = LspFrameCodec::default();
    let mut buffer = BytesMut::from(bytes);
    let result = codec.decode(&mut buffer);
    (result, buffer.to_vec())
}

#[test]
fn a_frame_is_written_with_its_length_in_bytes() {
    let mut codec = LspFrameCodec::default();
    let mut buffer = BytesMut::new();
    codec.encode("{\"a\":\"é\"}".to_string(), &mut buffer).unwrap();
    assert_eq!(buffer.to_vec(), "Content-Length: 10\r\n\r\n{\"a\":\"é\"}".as_bytes().to_vec());
}

#[test]
fn frames_are_put_behind_what_is_held() {
    let mut codec = LspFrameCodec::default();
    let mut buffer = BytesMut::from(&b"xyz"[..]);
    codec.encode("ab".to_string(), &mut buffer).unwrap();
    assert_eq!(buffer.to_vec(), b"xyzContent-Length: 2\r\n\r\nab".to_vec());
}

#[test]
fn the_empty_text_is_not_written() {
    let mut codec = LspFrameCodec::default();
    let mut buffer = BytesMut::new();
    codec.encode(String::new(), &mut buffer).unwrap();
    assert!(buffer.is_empty());
}

#[test]
fn what_was_written_is_read_back() {
    let mut codec = LspFrameCodec::default();
    let mut buffer = BytesMut::new();
    let texts = ["{}", "häll\u{1F600}", "x", "Content-Length: 3\r\n\r\nabc"];
    for text in texts {
        codec.encode(text.to_string(), &mut buffer).unwrap();
    }
    let (read, rest) = decode_all(&buffer);
    assert_eq!(read, texts.map(|t| t.to_string()).to_vec());
    assert!(rest.is_empty());
}

#[test]
fn a_frame_cut_anywhere_is_delivered() {
    let frame = b"Content-Length: 12\r\n\r\n{\"id\": 1234}";
    for cut in 0..frame.len() {
        let mut codec = LspFrameCodec::default();
        let mut buffer = BytesMut::from(&frame[..cut]);
        assert!(matches!(codec.decode(&mut buffer), Ok(None)));
        assert_eq!(buffer.to_vec(), frame[..cut].to_vec());
        buffer.extend_from_slice(&frame[cut..]);
        buffer.extend_from_slice(b"more");
        assert_eq!(codec.decode(&mut buffer).unwrap(), Some("{\"id\": 1234}".to_string()));
        assert_eq!(buffer.to_vec(), b"more".to_vec());
    }
}

#[test]
fn a_content_type_line_changes_nothing() {
    for line in [
        "Content-Type: application/vscode-jsonrpc\r\n",
        "Content-Type: application/vscode-jsonrpc; charset=utf-8\r\n",
        "Content-Type: application/vscode-jsonrpc;charset=utf8\r\n",
        "Content-Type: x;\t  charset=utf8\r\n",
    ] {
        let bytes = format!("Content-Length: 5\r\n{line}\r\nhelloREST");
        let (result, rest) = decode_once(bytes.as_bytes());
        assert_eq!(result.unwrap(), Some("hello".to_string()));
        assert_eq!(rest, b"REST".to_vec());
    }
}

#[test]
fn an_empty_body_is_swallowed() {
    let (result, rest) = decode_once(b"Content-Length: 0\r\n\r\nabc");
    assert_eq!(result.unwrap(), None);
    assert_eq!(rest, b"abc".to_vec());
}

#[test]
fn a_missing_header_is_reported_and_skipped() {
    let (result, rest) = decode_once(b"garbage Content-Length: 2\r\n\r\nok");
    assert!(matches!(result, Err(CodecError::MissingHeader)));
    assert_eq!(rest, b"Content-Length: 2\r\n\r\nok".to_vec());

    let (result, rest) = decode_once(b"nothing of the kind");
    assert!(matches!(result, Err(CodecError::MissingHeader)));
    assert!(rest.is_empty());
}

#[test]
fn a_bad_length_is_reported() {
    let (result, rest) = decode_once(b"Content-Length: x\r\n\r\nContent-Length: 1\r\n\r\na");
    assert!(matches!(result, Err(CodecError::InvalidLength)));
    assert_eq!(rest, b"Content-Length: 1\r\n\r\na".to_vec());

    let (result, _) = decode_once(b"Content-Length: 99999999999999999999999\r\n\r\n");
    assert!(matches!(result, Err(CodecError::InvalidLength)));
}

#[test]
fn a_body_that_is_not_utf8_is_reported_and_stays() {
    let bytes = b"Content-Length: 2\r\n\r\n\xff\xfe";
    let (result, rest) = decode_once(bytes);
    assert!(matches!(result, Err(CodecError::Utf8(_))));
    assert_eq!(rest, bytes.to_vec());
}

#[test]
fn another_charset_is_a_missing_header() {
    let (result, _) = decode_once(
        b"Content-Length: 2\r\nContent-Type: a;charset=latin1\r\n\r\nab",
    );
    assert!(matches!(result, Err(CodecError::MissingHeader)));
}

#[test]
fn errors_say_what_went_wrong() {
    assert_eq!(
        CodecError::MissingHeader.message(),
        "missing required `Content-Length` header"
    );
    assert_eq!(CodecError::InvalidLength.message(), "unable to parse content length");
    assert_eq!(CodecError::InvalidType.message(), "unable to parse content type");
    let io = std::io::Error::new(std::io::ErrorKind::Other, "disk on fire");
    assert_eq!(CodecError::from(io).message(), "failed to encode frame: disk on fire");
    let utf8 = std::str::from_utf8(b"\xff").unwrap_err();
    let inner = utf8.to_string();
    assert_eq!(
        CodecError::from(utf8).message(),
        format!("frame contains invalid UTF8: {inner}")
    );
}

#[test]
fn a_message_is_found_in_its_header() {
    match parse_message(b"Content-Length: 3\r\n\r\nabcd") {
        Parsed::Message { start, end } => assert_eq!((start, end), (21, 24)),
        _ => panic!("no message"),
    }
    match parse_message(b"Content-Length: 3\r\n\r\na") {
        Parsed::Incomplete(missing) => assert_eq!(missing, 2),
        _ => panic!("not incomplete"),
    }
    match parse_message(b"Nope") {
        Parsed::Fault { fault, at } => {
            assert!(matches!(fault, HeaderFault::Tag));
            assert_eq!(at, 0);
        }
        _ => panic!("no fault"),
    }
}

#[test]
fn the_next_opening_word_is_found() {
    assert_eq!(find_next_message(b"abContent-LengthContent-Length"), Some(2));
    assert_eq!(find_next_message(b"Content-Lengt"), None);
}

#[test]
fn a_copy_of_a_codec_awaits_as_much() {
    let mut codec = LspFrameCodec::default();
    let mut buffer = BytesMut::from(&b"Content-Length: 9\r\n\r\n12345"[..]);
    assert!(matches!(codec.decode(&mut buffer), Ok(None)));
    let mut copy = codec.clone();
    buffer.extend_from_slice(b"6789");
    assert_eq!(copy.decode(&mut buffer).unwrap(), Some("123456789".to_string()));
}

#[test]
fn a_frame_is_written_where_there_is_room() {
    let mut codec = LspFrameCodec::default();
    let mut buffer = BytesMut::new();
    assert!(codec.encode_if_room("ab".to_string(), &mut buffer));
    assert!(codec.encode_if_room(String::new(), &mut buffer));
    assert_eq!(buffer.to_vec(), b"Content-Length: 2\r\n\r\nab".to_vec());
}

#[test]
fn a_conversation_cut_into_any_parts_is_delivered() {
    let texts = ["{\"id\":1}", "é\u{1F600}", "x"];
    let mut codec = LspFrameCodec::default();
    let mut stream = BytesMut::new();
    for text in texts {
        codec.encode(text.to_string(), &mut stream).unwrap();
    }
    for size in 1..=stream.len() {
        let mut reader = LspFrameCodec::default();
        let mut buffer = BytesMut::new();
        let mut read = Vec::new();
        for part in stream.chunks(size) {
            buffer.extend_from_slice(part);
            while let Some(text) = reader.decode(&mut buffer).unwrap() {
                read.push(text);
            }
        }
        assert_eq!(read, texts.map(|t| t.to_string()).to_vec());
        assert!(buffer.is_empty());
    }
}

#[test]
fn the_error_is_that_of_the_body() {
    let body = b"ok\xff!";
    let (result, _) = decode_once(b"Content-Length: 4\r\n\r\nok\xff!\xfe");
    match result {
        Err(CodecError::Utf8(e)) => assert_eq!(e, std::str::from_utf8(body).unwrap_err()),
        _ => panic!("no error"),
    }
}
