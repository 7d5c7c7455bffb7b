//! Frames on a byte stream: text in, text out, with a content length in front of each.
use vstd::prelude::*;
use bytes::BytesMut;
use vstd::utf8::{decode_utf8, encode_utf8, valid_utf8};
use crate::lsp::buffer::{advance, buffered, contents, put_slice, reserve};
use crate::lsp::grammar::{
    find_next_message,
    parse_message,
    parsed,
    word,
    HeaderFault,
    Parsed,
};
use crate::text::numerals::{
    decimal_bytes,
    decimal_string,
    lemma_decimal_utf8,
    lemma_digit_count,
    number_of_digits,
};
use crate::text::scan::first_occurrence;
use crate::text::unicode::{lemma_encode_empty, utf8_error};

verus! {

/// An input or output failure of the operating system.
#[verifier::external_type_specification]
#[verifier::external_body]
pub struct ExIoError(std::io::Error);

/// Why a frame could not be read or written.
#[derive(Debug)]
pub enum CodecError {
    MissingHeader,
    InvalidLength,
    InvalidType,
    Encode(std::io::Error),
    Utf8(core::str::Utf8Error),
}

impl CodecError {
    /// What the error says, given how an inner error is displayed.
    pub open spec fn message_text(&self, inner: Seq<char>) -> Seq<char> {
        match *self {
            CodecError::MissingHeader => "missing required `Content-Length` header"@,
            CodecError::InvalidLength => "unable to parse content length"@,
            CodecError::InvalidType => "unable to parse content type"@,
            CodecError::Encode(_) => "failed to encode frame: "@ + inner,
            CodecError::Utf8(_) => "frame contains invalid UTF8: "@ + inner,
        }
    }

    /// The message of this error, given how its inner error is displayed.
    pub fn message_with(&self, inner: &str) -> (text: String)
        ensures
            text@ == self.message_text(inner@),
    {
        let text = match self {
            CodecError::MissingHeader => String::from_str(
                "missing required `Content-Length` header",
            ),
            CodecError::InvalidLength => String::from_str("unable to parse content length"),
            CodecError::InvalidType => String::from_str("unable to parse content type"),
            CodecError::Encode(_) => String::from_str("failed to encode frame: ").concat(inner),
            CodecError::Utf8(_) => String::from_str("frame contains invalid UTF8: ").concat(inner),
        };
        text
    }

    /// The message of this error.
    pub fn message(&self) -> (text: String)
        ensures
            self matches CodecError::MissingHeader ==> text@
                == "missing required `Content-Length` header"@,
            self matches CodecError::InvalidLength ==> text@ == "unable to parse content length"@,
            self matches CodecError::InvalidType ==> text@ == "unable to parse content type"@,
            self matches CodecError::Encode(e) ==> exists|inner: String|
                #![trigger self.message_text(inner@)]
                vstd::string::to_string_from_display_ensures::<std::io::Error>(e, inner) && text@
                    == self.message_text(inner@),
            self matches CodecError::Utf8(e) ==> exists|inner: String|
                #![trigger self.message_text(inner@)]
                vstd::string::to_string_from_display_ensures::<core::str::Utf8Error>(e, inner)
                    && text@ == self.message_text(inner@),
    {
        let inner = match self {
            CodecError::Encode(e) => e.to_string(),
            CodecError::Utf8(e) => e.to_string(),
            _ => String::new(),
        };
        self.message_with(inner.as_str())
    }
}

impl From<std::io::Error> for CodecError {
    fn from(error: std::io::Error) -> (r: Self) {
        CodecError::Encode(error)
    }
}

impl vstd::std_specs::convert::FromSpecImpl<std::io::Error> for CodecError {
    open spec fn obeys_from_spec() -> bool {
        true
    }

    open spec fn from_spec(error: std::io::Error) -> Self {
        CodecError::Encode(error)
    }
}

impl From<core::str::Utf8Error> for CodecError {
    fn from(error: core::str::Utf8Error) -> (r: Self) {
        CodecError::Utf8(error)
    }
}

impl vstd::std_specs::convert::FromSpecImpl<core::str::Utf8Error> for CodecError {
    open spec fn obeys_from_spec() -> bool {
        true
    }

    open spec fn from_spec(error: core::str::Utf8Error) -> Self {
        CodecError::Utf8(error)
    }
}

/// The ways in which reading a frame goes wrong.
pub enum Failure {
    MissingHeader,
    InvalidLength,
    InvalidType,
    Encode,
    Utf8,
}

/// What one call of `decode` answers.
pub enum Outcome {
    /// No frame was produced.
    Nothing,
    /// A frame with this text.
    Text(Seq<char>),
    /// The front of the buffer was refused.
    Failed(Failure),
}

/// The answer, with how many bytes are awaited and what is left in the buffer afterwards.
pub struct DecodeStep {
    pub outcome: Outcome,
    pub awaited: nat,
    pub rest: Seq<u8>,
}

/// How a refused header is reported.
pub open spec fn failure_of(fault: HeaderFault) -> Failure {
    match fault {
        HeaderFault::Digit => Failure::InvalidLength,
        HeaderFault::Length => Failure::InvalidLength,
        HeaderFault::Char => Failure::InvalidType,
        HeaderFault::MediaType => Failure::InvalidType,
        HeaderFault::Tag => Failure::MissingHeader,
        HeaderFault::LineBreak => Failure::MissingHeader,
    }
}

/// What is left of `input` from the next place on at which a header may start.
pub open spec fn resynchronized(input: Seq<u8>) -> Seq<u8> {
    match first_occurrence(input, word("Content-Length"@)) {
        Some(at) => input.skip(at),
        None => Seq::empty(),
    }
}

/// The body of the message at the front of `input`, where there is one.
pub open spec fn message_body(input: Seq<u8>) -> Seq<u8> {
    match parsed(input) {
        Parsed::Message { start, end } => input.subrange(start as int, end as int),
        _ => Seq::empty(),
    }
}

/// One call of `decode` on a buffer that holds `input`, where `awaited` bytes are awaited.
pub open spec fn decode_step(awaited: nat, input: Seq<u8>) -> DecodeStep {
    if awaited > input.len() {
        DecodeStep { outcome: Outcome::Nothing, awaited, rest: input }
    } else {
        match parsed(input) {
            Parsed::Message { start: _, end } => {
                let body = message_body(input);
                if !valid_utf8(body) {
                    DecodeStep { outcome: Outcome::Failed(Failure::Utf8), awaited, rest: input }
                } else if body.len() == 0 {
                    DecodeStep {
                        outcome: Outcome::Nothing,
                        awaited: 0,
                        rest: input.skip(end as int),
                    }
                } else {
                    DecodeStep {
                        outcome: Outcome::Text(decode_utf8(body)),
                        awaited: 0,
                        rest: input.skip(end as int),
                    }
                }
            },
            Parsed::Incomplete(needed) => DecodeStep {
                outcome: Outcome::Nothing,
                awaited: needed,
                rest: input,
            },
            Parsed::Fault { fault, at } => DecodeStep {
                outcome: Outcome::Failed(failure_of(fault)),
                awaited,
                rest: resynchronized(input.skip(at as int)),
            },
        }
    }
}

/// The result of `decode`, with an inner error left out.
pub open spec fn outcome_of(result: Result<Option<String>, CodecError>) -> Outcome {
    match result {
        Ok(None) => Outcome::Nothing,
        Ok(Some(text)) => Outcome::Text(text@),
        Err(CodecError::MissingHeader) => Outcome::Failed(Failure::MissingHeader),
        Err(CodecError::InvalidLength) => Outcome::Failed(Failure::InvalidLength),
        Err(CodecError::InvalidType) => Outcome::Failed(Failure::InvalidType),
        Err(CodecError::Encode(_)) => Outcome::Failed(Failure::Encode),
        Err(CodecError::Utf8(_)) => Outcome::Failed(Failure::Utf8),
    }
}

/// The header in front of a body of `length` bytes.
pub open spec fn header(length: nat) -> Seq<u8> {
    word("Content-Length: "@) + decimal_bytes(length) + word("\r\n\r\n"@)
}

/// The bytes that a text is sent as: nothing for the empty text, else its header and its UTF-8.
pub open spec fn frame(text: Seq<char>) -> Seq<u8> {
    if text.len() == 0 {
        Seq::empty()
    } else {
        header(encode_utf8(text).len()) + encode_utf8(text)
    }
}

/// Reads and writes frames. Between two calls it remembers how many bytes it awaits.
#[derive(Debug)]
pub struct LspFrameCodec {
    remaining_bytes: usize,
}

impl View for LspFrameCodec {
    type V = nat;

    closed spec fn view(&self) -> nat {
        self.remaining_bytes as nat
    }
}

impl Clone for LspFrameCodec {
    fn clone(&self) -> (codec: Self)
        ensures
            codec@ == self@,
    {
        LspFrameCodec { remaining_bytes: self.remaining_bytes }
    }
}

impl Default for LspFrameCodec {
    fn default() -> (codec: Self)
        ensures
            codec@ == 0,
    {
        LspFrameCodec { remaining_bytes: 0 }
    }
}

impl LspFrameCodec {
    /// Puts the frame of `item` behind what `dst` holds. It never fails.
    pub fn encode(&mut self, item: String, dst: &mut BytesMut) -> (result: Result<(), CodecError>)
        requires
            buffered(*old(dst)).len() + frame(item@).len() <= isize::MAX,
        ensures
            result is Ok,
            buffered(*final(dst)) == buffered(*old(dst)) + frame(item@),
            final(self)@ == old(self)@,
    {
        let body = item.as_str().as_bytes();
        proof {
            lemma_encode_empty(item@);
            lemma_fixed_parts();
        }
        if body.len() > 0 {
            let length: usize = body.len();
            proof {
                lemma_digit_count(length as nat);
                lemma_decimal_utf8(length as nat);
            }
            let ghost before = buffered(*dst);
            reserve(dst, length + number_of_digits(length) + 20);
            let digits = decimal_string(length as u64);
            put_slice(dst, "Content-Length: ".as_bytes());
            put_slice(dst, digits.as_str().as_bytes());
            put_slice(dst, "\r\n\r\n".as_bytes());
            put_slice(dst, body);
            assert(buffered(*dst) =~= before + frame(item@));
        } else {
            assert(buffered(*dst) =~= buffered(*dst) + frame(item@));
        }
        Ok(())
    }

    /// Puts the frame of `item` behind what `dst` holds, where a buffer can hold that much, and says
    /// whether it did.
    pub fn encode_if_room(&mut self, item: String, dst: &mut BytesMut) -> (done: bool)
        ensures
            done <==> buffered(*old(dst)).len() + frame(item@).len() <= isize::MAX,
            buffered(*final(dst)) == (if done {
                buffered(*old(dst)) + frame(item@)
            } else {
                buffered(*old(dst))
            }),
            final(self)@ == old(self)@,
    {
        let held: usize = contents(dst).len();
        let length: usize = item.as_str().as_bytes().len();
        proof {
            lemma_encode_empty(item@);
            lemma_fixed_parts();
            if length > 0 {
                lemma_digit_count(length as nat);
            }
        }
        let most: usize = isize::MAX as usize;
        if held > most || length > most - held {
            return false;
        }
        if length > 0 {
            let digits: usize = number_of_digits(length);
            let left: usize = most - held - length;
            if left < 20 || left - 20 < digits {
                return false;
            }
        }
        match self.encode(item, dst) {
            Ok(()) => true,
            Err(_) => false,
        }
    }

    /// Takes the next frame off the front of `src`.
    pub fn decode(&mut self, src: &mut BytesMut) -> (result: Result<Option<String>, CodecError>)
        ensures
            outcome_of(result) == decode_step(old(self)@, buffered(*old(src))).outcome,
            final(self)@ == decode_step(old(self)@, buffered(*old(src))).awaited,
            buffered(*final(src)) == decode_step(old(self)@, buffered(*old(src))).rest,
            result matches Err(CodecError::Utf8(e)) ==> e == utf8_error(
                message_body(buffered(*old(src))),
            ),
    {
        let held: usize = contents(src).len();
        if self.remaining_bytes > held {
            return Ok(None);
        }
        let ghost input = buffered(*src);
        match parse_message(contents(src)) {
            Parsed::Message { start, end } => {
                let body = vstd::slice::slice_subrange(contents(src), start, end);
                let text = match core::str::from_utf8(body) {
                    Ok(s) => {
                        proof {
                            vstd::utf8::encode_utf8_decode_utf8(s@);
                            lemma_encode_empty(s@);
                        }
                        String::from_str(s)
                    },
                    Err(e) => return Err(CodecError::from(e)),
                };
                advance(src, end);
                self.remaining_bytes = 0;
                if text.as_str().is_empty() {
                    Ok(None)
                } else {
                    Ok(Some(text))
                }
            },
            Parsed::Incomplete(needed) => {
                self.remaining_bytes = needed;
                Ok(None)
            },
            Parsed::Fault { fault, at } => {
                advance(src, at);
                match find_next_message(contents(src)) {
                    Some(position) => {
                        proof {
                            crate::text::scan::lemma_occurrence(
                                buffered(*src),
                                word("Content-Length"@),
                            );
                        }
                        advance(src, position)
                    },
                    None => {
                        let rest: usize = contents(src).len();
                        advance(src, rest);
                        assert(buffered(*src) =~= Seq::<u8>::empty());
                    },
                }
                match fault {
                    HeaderFault::Digit | HeaderFault::Length => Err(CodecError::InvalidLength),
                    HeaderFault::Char | HeaderFault::MediaType => Err(CodecError::InvalidType),
                    HeaderFault::Tag | HeaderFault::LineBreak => Err(CodecError::MissingHeader),
                }
            },
        }
    }
}

/// The lengths of the fixed parts of a header.
pub proof fn lemma_fixed_parts()
    ensures
        word("Content-Length: "@).len() == 16,
        word("\r\n\r\n"@).len() == 4,
{
    reveal_strlit("Content-Length: ");
    reveal_strlit("\r\n\r\n");
    vstd::utf8::is_ascii_chars_encode_utf8("Content-Length: "@);
    vstd::utf8::is_ascii_chars_encode_utf8("\r\n\r\n"@);
}

} // verus!
