use acodex_server::lsp::grammar::{parse_message, HeaderFault, Parsed};
use nom::branch::alt;
use nom::bytes::streaming::{is_not, tag};
use nom::character::streaming::{char, crlf, digit1, space0};
use nom::combinator::{map_res, opt};
use nom::error::ErrorKind;
use nom::multi::length_data;
use nom::sequence::{delimited, terminated, tuple};
use nom::IResult;

/// The grammar of a message, written with streaming combinators.
fn combined(input: &[u8]) -> IResult<&[u8], &[u8]> {
    let length = delimited(tag("Content-Length: "), digit1, crlf);
    let charset = tuple((
        char(';'),
        space0,
        tag("charset="),
        alt((tag("utf-8"), tag("utf8"))),
    ));
    let content_type = tuple((tag("Content-Type: "), is_not(";\r"), opt(charset), crlf));
    let header = terminated(terminated(length, opt(content_type)), crlf);
    let number = map_res(map_res(header, std::str::from_utf8), |s: &str| s.parse::<usize>());
    length_data(number)(input)
}

fn fault(kind: ErrorKind) -> HeaderFault {
    match kind {
        ErrorKind::Tag => HeaderFault::Tag,
        ErrorKind::Digit => HeaderFault::Digit,
        ErrorKind::CrLf => HeaderFault::LineBreak,
        ErrorKind::Char => HeaderFault::Char,
        ErrorKind::IsNot => HeaderFault::MediaType,
        ErrorKind::MapRes => HeaderFault::Length,
        other => panic!("{other:?}"),
    }
}

fn compare(input: &[u8]) {
    match (parse_message(input), combined(input)) {
        (Parsed::Message { start, end }, Ok((rest, body))) => {
            assert_eq!(&input[start..end], body);
            assert_eq!(&input[end..], rest);
        }
        (Parsed::Incomplete(missing), Err(nom::Err::Incomplete(nom::Needed::Size(needed)))) => {
            assert_eq!(missing, needed.get(), "{input:?}");
        }
        (Parsed::Fault { fault: found, at }, Err(nom::Err::Error(error))) => {
            assert_eq!(found, fault(error.code), "{input:?}");
            assert_eq!(at, input.len() - error.input.len(), "{input:?}");
        }
        (ours, theirs) => panic!("{input:?}: {ours:?} and {theirs:?}"),
    }
}

#[test]
fn the_grammar_agrees_with_combinators() {
    let messages: [&[u8]; 8] = [
        b"Content-Length: 5\r\n\r\nhello, world",
        b"Content-Length: 0\r\n\r\n",
        b"Content-Length: 3\r\nContent-Type: a/b\r\n\r\nabc",
        b"Content-Length: 3\r\nContent-Type: a/b; charset=utf-8\r\n\r\nabc",
        b"Content-Length: 3\r\nContent-Type: a/b;\t charset=utf8\r\n\r\nabc",
        b"Content-Length: 3\r\nContent-Type: ;charset=utf8\r\n\r\nabc",
        b"Content-Length: 3\r\nContent-Type: a;charset=latin1\r\n\r\nabc",
        b"Content-Length: 99999999999999999999999\r\n\r\n",
    ];
    for message in messages {
        for end in 0..=message.len() {
            compare(&message[..end]);
        }
        for at in 0..message.len() {
            for byte in [b'x', b'0', b'\r', b'\n', b';', b' ', 0xff] {
                let mut changed = message.to_vec();
                changed[at] = byte;
                compare(&changed);
                changed.remove(at);
                compare(&changed);
            }
        }
    }
}
