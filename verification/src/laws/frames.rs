//! Frames: how they are written, read, refused and waited for.
use vstd::prelude::*;
use bytes::BytesMut;
use vstd::utf8::{encode_utf8, valid_utf8};
use crate::lsp::buffer::buffered;
use crate::lsp::codec::{frame, CodecError, LspFrameCodec};
use crate::lsp::grammar::{find_next_message, is_blank, parse_message, parsed, word, Parsed};
use crate::lsp::laws::{
    charset_field,
    is_charset,
    law_decode_consumes_front,
    law_failures,
    law_frame_round_trip,
    law_partial_frame_waits,
    law_resynchronizes,
    lemma_message_shape,
    lemma_typed_header_of,
    lemma_whole_header_of,
    lemma_wrong_length,
    lemma_wrong_line_end,
    lemma_wrong_opening,
    lemma_wrong_second_line,
};
use crate::text::numerals::{
    all_digits,
    decimal,
    digits_value,
    is_digit,
    lemma_decimal_utf8,
    parse_unsigned,
};
use crate::text::scan::{lemma_occurrence, word_at};
use crate::text::unicode::{lemma_encode_concat, lemma_encode_empty};

verus! {

/// Bytes that are all decimal digits, and at least one.
pub open spec fn decimal_digits(digits: Seq<u8>) -> bool {
    digits.len() > 0 && forall|i: int| 0 <= i < digits.len() ==> 48 <= #[trigger] digits[i] <= 57
}

/// What a charset may be in a content type line: nothing, or UTF-8 behind a semicolon and blanks.
pub open spec fn utf8_or_none(charset: Seq<u8>, blanks: Seq<u8>) -> bool {
    &&& forall|i: int| 0 <= i < blanks.len() ==> #[trigger] blanks[i] == 32 || blanks[i] == 9
    &&& {
        ||| charset.len() == 0
        ||| charset == seq![59u8] + blanks + encode_utf8("charset="@) + encode_utf8("utf-8"@)
        ||| charset == seq![59u8] + blanks + encode_utf8("charset="@) + encode_utf8("utf8"@)
    }
}

proof fn lemma_fixed()
    ensures
        word("Content-Length: "@).len() == 16,
        word("Content-Length"@).len() == 14,
        word("Content-Length: "@).take(14) == word("Content-Length"@),
        word("\r\n"@) == seq![13u8, 10u8],
        word("\r\n\r\n"@) == seq![13u8, 10u8, 13u8, 10u8],
        word("Content-Type: "@).len() == 14,
        word("Content-Type: "@)[0] == 67,
{
    reveal_strlit("Content-Length: ");
    reveal_strlit("Content-Length");
    reveal_strlit("\r\n\r\n");
    vstd::utf8::is_ascii_chars_encode_utf8("Content-Length: "@);
    vstd::utf8::is_ascii_chars_encode_utf8("Content-Length"@);
    vstd::utf8::is_ascii_chars_encode_utf8("\r\n\r\n"@);
    reveal_strlit("\r\n");
    reveal_strlit("Content-Type: ");
    vstd::utf8::is_ascii_chars_encode_utf8("\r\n"@);
    vstd::utf8::is_ascii_chars_encode_utf8("Content-Type: "@);
    assert(word("\r\n"@) =~= seq![13u8, 10u8]);
    assert(word("Content-Length: "@).take(14) =~= word("Content-Length"@));
    assert(word("\r\n\r\n"@) =~= seq![13u8, 10u8, 13u8, 10u8]);
}

/// A text that is not empty is written with its length in bytes in front of it, behind what the
/// buffer holds; the empty text is not written. Writing never fails.
pub proof fn law_texts_are_written_with_their_length(
    codec: &mut LspFrameCodec,
    text: String,
    dst: &mut BytesMut,
    result: Result<(), CodecError>,
)
    requires
        call_ensures(LspFrameCodec::encode, (codec, text, dst), result),
    ensures
        result is Ok,
        text@.len() == 0 ==> buffered(*final(dst)) == buffered(*old(dst)),
        text@.len() > 0 ==> buffered(*final(dst)) == buffered(*old(dst)) + encode_utf8(
            "Content-Length: "@ + decimal(encode_utf8(text@).len()) + "\r\n\r\n"@ + text@,
        ),
        final(codec)@ == old(codec)@,
{
    let n = encode_utf8(text@).len();
    lemma_decimal_utf8(n);
    lemma_encode_concat("Content-Length: "@ + decimal(n) + "\r\n\r\n"@, text@);
    lemma_encode_concat("Content-Length: "@ + decimal(n), "\r\n\r\n"@);
    lemma_encode_concat("Content-Length: "@, decimal(n));
    assert(buffered(*old(dst)) + Seq::<u8>::empty() =~= buffered(*old(dst)));
}

/// Where there is room for a frame it is written as always, and where there is none nothing is;
/// there is room for every frame of which the buffer and it stay within the largest size.
pub proof fn law_frames_are_written_where_there_is_room(
    codec: &mut LspFrameCodec,
    text: String,
    dst: &mut BytesMut,
    done: bool,
    other_codec: &mut LspFrameCodec,
    other: &mut BytesMut,
    result: Result<(), CodecError>,
)
    requires
        call_ensures(LspFrameCodec::encode_if_room, (codec, text, dst), done),
        buffered(*other) == buffered(*dst),
        call_ensures(LspFrameCodec::encode, (other_codec, text, other), result),
    ensures
        done <==> buffered(*final(other)).len() <= isize::MAX,
        done ==> buffered(*final(dst)) == buffered(*final(other)),
        !done ==> buffered(*final(dst)) == buffered(*old(dst)),
{
}

/// A message is read whatever digits its length is written with: its body comes out as text where it
/// is text, and then exactly the message is taken off. An empty body gives nothing and is taken off.
/// A body that is not UTF-8 is refused and stays.
pub proof fn law_messages_are_read(
    codec: &mut LspFrameCodec,
    src: &mut BytesMut,
    result: Result<Option<String>, CodecError>,
    digits: &[u8],
    length: u64,
    body: Seq<u8>,
    rest: Seq<u8>,
)
    requires
        call_ensures(LspFrameCodec::decode, (codec, src), result),
        codec@ <= buffered(*src).len(),
        decimal_digits(digits@),
        call_ensures(parse_unsigned, (digits, u64::MAX), Some(length)),
        body.len() == length,
        length <= usize::MAX,
        buffered(*src) == encode_utf8("Content-Length: "@) + digits@ + encode_utf8("\r\n\r\n"@) + body + rest,
    ensures
        valid_utf8(body) && body.len() > 0 ==> (result matches Ok(Some(text)) && encode_utf8(text@)
            == body) && buffered(*final(src)) == rest && final(codec)@ == 0,
        body.len() == 0 ==> result == Ok::<Option<String>, CodecError>(None) && buffered(
            *final(src),
        ) == rest && final(codec)@ == 0,
        !valid_utf8(body) ==> (result matches Err(CodecError::Utf8(_))) && buffered(*final(src))
            == buffered(*old(src)),
{
    lemma_fixed();
    let input = buffered(*src);
    let h = encode_utf8("Content-Length: "@) + digits@ + encode_utf8("\r\n\r\n"@);
    assert(all_digits(digits@));
    assert(input.subrange(0, 0 + h.len() as int) =~= h);
    lemma_whole_header_of(input, digits@);
    let start = (20 + digits@.len()) as int;
    assert(input.subrange(start, start + body.len()) =~= body);
    assert(input.skip(start + body.len()) =~= rest);
    if valid_utf8(body) {
        vstd::utf8::decode_utf8_encode_utf8(body);
    }
    if body.len() == 0 {
        assert(body =~= Seq::<u8>::empty());
        lemma_encode_empty(Seq::empty());
        vstd::utf8::encode_utf8_valid_utf8(Seq::empty());
        assert(encode_utf8(Seq::<char>::empty()) =~= body);
        assert(valid_utf8(body));
    }
}

/// A message of which the body has not come whole gives nothing and stays.
pub proof fn law_messages_are_waited_for(
    codec: &mut LspFrameCodec,
    src: &mut BytesMut,
    result: Result<Option<String>, CodecError>,
    digits: &[u8],
    length: u64,
    part: Seq<u8>,
)
    requires
        call_ensures(LspFrameCodec::decode, (codec, src), result),
        decimal_digits(digits@),
        call_ensures(parse_unsigned, (digits, u64::MAX), Some(length)),
        part.len() < length,
        length <= usize::MAX,
        buffered(*src) == encode_utf8("Content-Length: "@) + digits@ + encode_utf8("\r\n\r\n"@) + part,
    ensures
        result == Ok::<Option<String>, CodecError>(None),
        buffered(*final(src)) == buffered(*old(src)),
        old(codec)@ <= buffered(*old(src)).len() ==> final(codec)@ == length - part.len(),
{
    lemma_fixed();
    let input = buffered(*src);
    let h = encode_utf8("Content-Length: "@) + digits@ + encode_utf8("\r\n\r\n"@);
    assert(all_digits(digits@));
    assert(input.subrange(0, 0 + h.len() as int) =~= h);
    lemma_whole_header_of(input, digits@);
}

/// While fewer bytes are there than are awaited, nothing happens.
pub proof fn law_awaited_bytes_are_waited_for(
    codec: &mut LspFrameCodec,
    src: &mut BytesMut,
    result: Result<Option<String>, CodecError>,
)
    requires
        call_ensures(LspFrameCodec::decode, (codec, src), result),
        buffered(*src).len() < codec@,
    ensures
        result == Ok::<Option<String>, CodecError>(None),
        buffered(*final(src)) == buffered(*old(src)),
        final(codec)@ == old(codec)@,
{
}

/// Where a message does not open as one does, that is refused; reading goes on at the next place at
/// which the opening word stands, and nowhere where it stands nowhere.
pub proof fn law_other_openings_are_refused(
    codec: &mut LspFrameCodec,
    src: &mut BytesMut,
    result: Result<Option<String>, CodecError>,
    i: int,
)
    requires
        call_ensures(LspFrameCodec::decode, (codec, src), result),
        codec@ <= buffered(*src).len(),
        0 <= i < 16,
        i < buffered(*src).len(),
        buffered(*src)[i] != encode_utf8("Content-Length: "@)[i],
    ensures
        result matches Err(CodecError::MissingHeader),
        ({
            let (before, after) = (buffered(*old(src)), buffered(*final(src)));
            let skipped = before.len() - after.len();
            &&& 0 <= skipped
            &&& after == before.skip(skipped)
            &&& after.len() == 0 || word_at(before, skipped, encode_utf8("Content-Length"@))
            &&& forall|j: int| 0 <= j < skipped ==> !#[trigger] word_at(
                before,
                j,
                encode_utf8("Content-Length"@),
            )
        }),
{
    lemma_fixed();
    let input = buffered(*src);
    lemma_wrong_opening(input, i);
    assert(input.skip(0) =~= input);
    lemma_occurrence(input, word("Content-Length"@));
    assert(input.skip(input.len() as int) =~= Seq::<u8>::empty());
}

/// Where the length of a message does not begin with a digit, that is refused.
pub proof fn law_lengths_begin_with_a_digit(
    codec: &mut LspFrameCodec,
    src: &mut BytesMut,
    result: Result<Option<String>, CodecError>,
)
    requires
        call_ensures(LspFrameCodec::decode, (codec, src), result),
        codec@ <= buffered(*src).len(),
        buffered(*src).len() > 16,
        buffered(*src).take(16) == encode_utf8("Content-Length: "@),
        !(48 <= buffered(*src)[16] <= 57),
    ensures
        result matches Err(CodecError::InvalidLength),
{
    lemma_wrong_length(buffered(*src));
}

/// A length that is too large for the machine is refused, and the message stays.
pub proof fn law_lengths_fit_the_machine(
    codec: &mut LspFrameCodec,
    src: &mut BytesMut,
    result: Result<Option<String>, CodecError>,
    digits: &[u8],
    rest: Seq<u8>,
)
    requires
        call_ensures(LspFrameCodec::decode, (codec, src), result),
        codec@ <= buffered(*src).len(),
        decimal_digits(digits@),
        call_ensures(parse_unsigned, (digits, usize::MAX as u64), None::<u64>),
        buffered(*src) == encode_utf8("Content-Length: "@) + digits@ + encode_utf8("\r\n\r\n"@) + rest,
    ensures
        result matches Err(CodecError::InvalidLength),
        buffered(*final(src)) == buffered(*old(src)),
        final(codec)@ == old(codec)@,
{
    lemma_fixed();
    let input = buffered(*src);
    let h = encode_utf8("Content-Length: "@) + digits@ + encode_utf8("\r\n\r\n"@);
    assert(all_digits(digits@));
    assert(input.subrange(0, 0 + h.len() as int) =~= h);
    lemma_whole_header_of(input, digits@);
    let opening = word("Content-Length"@);
    assert(input.subrange(0, 0 + opening.len() as int) =~= word("Content-Length: "@).take(
        opening.len() as int,
    ));
    assert(input.skip(0) =~= input);
    lemma_occurrence(input, opening);
}

/// A content type line changes nothing: with any media type, and with UTF-8 or no charset, the
/// message is read as it is without the line.
pub proof fn law_typed_messages_are_read(
    codec: &mut LspFrameCodec,
    src: &mut BytesMut,
    result: Result<Option<String>, CodecError>,
    digits: &[u8],
    length: u64,
    media: Seq<u8>,
    charset: Seq<u8>,
    blanks: Seq<u8>,
    body: Seq<u8>,
    rest: Seq<u8>,
)
    requires
        call_ensures(LspFrameCodec::decode, (codec, src), result),
        codec@ <= buffered(*src).len(),
        decimal_digits(digits@),
        call_ensures(parse_unsigned, (digits, u64::MAX), Some(length)),
        media.len() > 0,
        forall|i: int| 0 <= i < media.len() ==> #[trigger] media[i] != 59 && media[i] != 13,
        utf8_or_none(charset, blanks),
        body.len() == length,
        0 < length <= usize::MAX,
        buffered(*src) == encode_utf8("Content-Length: "@) + digits@ + encode_utf8("\r\n"@)
            + encode_utf8("Content-Type: "@) + media + charset + encode_utf8("\r\n\r\n"@) + body
            + rest,
    ensures
        valid_utf8(body) ==> (result matches Ok(Some(text)) && encode_utf8(text@) == body)
            && buffered(*final(src)) == rest && final(codec)@ == 0,
        !valid_utf8(body) ==> (result matches Err(CodecError::Utf8(_))) && buffered(*final(src))
            == buffered(*old(src)),
{
    lemma_fixed();
    let input = buffered(*src);
    let h = word("Content-Length: "@) + digits@ + word("\r\n"@) + word("Content-Type: "@) + media
        + charset + word("\r\n\r\n"@);
    assert(all_digits(digits@));
    assert(input.subrange(0, 0 + h.len() as int) =~= h);
    assert forall|i: int| 0 <= i < blanks.len() implies is_blank(#[trigger] blanks[i]) by {}
    if charset.len() > 0 {
        let hyphen = charset == charset_field(blanks, true);
        assert(charset == charset_field(blanks, hyphen));
    }
    assert(is_charset(charset));
    lemma_typed_header_of(input, digits@, media, charset);
    let start = h.len() as int;
    assert(start == 36 + digits@.len() + media.len() + charset.len());
    assert(input.subrange(start, start + body.len()) =~= body);
    assert(input.skip(start + body.len()) =~= rest);
    if valid_utf8(body) {
        vstd::utf8::decode_utf8_encode_utf8(body);
    }
}

/// What is written is read: from a buffer that begins with what writing a text into an empty one
/// left there, reading gives the text and leaves what follows.
pub proof fn law_what_is_written_is_read(
    writer: &mut LspFrameCodec,
    text: String,
    dst: &mut BytesMut,
    written: Result<(), CodecError>,
    reader: &mut LspFrameCodec,
    src: &mut BytesMut,
    result: Result<Option<String>, CodecError>,
    rest: Seq<u8>,
)
    requires
        call_ensures(LspFrameCodec::encode, (writer, text, dst), written),
        text@.len() > 0,
        encode_utf8(text@).len() <= usize::MAX,
        buffered(*dst).len() == 0,
        call_ensures(LspFrameCodec::decode, (reader, src), result),
        reader@ <= buffered(*final(dst)).len(),
        buffered(*src) == buffered(*final(dst)) + rest,
    ensures
        result matches Ok(Some(read)) && read@ == text@,
        buffered(*final(src)) == rest,
        final(reader)@ == 0,
{
    assert(buffered(*final(dst)) =~= frame(text@));
    law_frame_round_trip(text@, rest, reader@);
}

/// While only a front of what was written has come, nothing is read and nothing is lost, and no
/// more is awaited than was written.
pub proof fn law_fronts_are_waited_for(
    writer: &mut LspFrameCodec,
    text: String,
    dst: &mut BytesMut,
    written: Result<(), CodecError>,
    reader: &mut LspFrameCodec,
    src: &mut BytesMut,
    result: Result<Option<String>, CodecError>,
    have: nat,
)
    requires
        call_ensures(LspFrameCodec::encode, (writer, text, dst), written),
        text@.len() > 0,
        encode_utf8(text@).len() <= usize::MAX,
        buffered(*dst).len() == 0,
        call_ensures(LspFrameCodec::decode, (reader, src), result),
        reader@ <= buffered(*final(dst)).len(),
        have < buffered(*final(dst)).len(),
        buffered(*src) == buffered(*final(dst)).take(have as int),
    ensures
        result == Ok::<Option<String>, CodecError>(None),
        buffered(*final(src)) == buffered(*old(src)),
        final(reader)@ <= buffered(*final(dst)).len(),
{
    assert(buffered(*final(dst)) =~= frame(text@));
    law_partial_frame_waits(text@, have);
}

/// Only what stands in a message is read: a text that comes out stood behind a header that names
/// its length, and all up to its end was taken off.
pub proof fn law_read_texts_stood_in_messages(
    codec: &mut LspFrameCodec,
    src: &mut BytesMut,
    result: Result<Option<String>, CodecError>,
    text: String,
) -> (d: int)
    requires
        call_ensures(LspFrameCodec::decode, (codec, src), result),
        result == Ok::<Option<String>, CodecError>(Some(text)),
    ensures
        ({
            let (before, after) = (buffered(*old(src)), buffered(*final(src)));
            let start = before.len() - after.len() - encode_utf8(text@).len();
            &&& text@.len() > 0
            &&& d > 0
            &&& start >= 20 + d
            &&& before.take(16) == encode_utf8("Content-Length: "@)
            &&& decimal_digits(before.subrange(16, 16 + d))
            &&& digits_value(before.subrange(16, 16 + d)) == encode_utf8(text@).len()
            &&& before[16 + d] == 13
            &&& before[17 + d] == 10
            &&& before[start - 2] == 13
            &&& before[start - 1] == 10
            &&& before.skip(start) == encode_utf8(text@) + after
        }),
{
    let input = buffered(*src);
    assert(parsed(input) is Message);
    let d = lemma_message_shape(input);
    let digits = input.subrange(16, 16 + d);
    assert forall|i: int| 0 <= i < digits.len() implies 48 <= #[trigger] digits[i] <= 57 by {
        assert(is_digit(digits[i]));
    }
    match parsed(input) {
        Parsed::Message { start, end } => {
            let body = input.subrange(start as int, end as int);
            vstd::utf8::decode_utf8_encode_utf8(body);
            lemma_encode_empty(text@);
            assert(encode_utf8(text@) == body);
            assert(input.skip(start as int) =~= body + input.skip(end as int));
        },
        _ => {},
    }
    d
}

/// Whatever is refused, reading goes on at an opening word or at the end, nothing is put into the
/// buffer, and the reason is a missing header, a bad length or bad UTF-8.
pub proof fn law_refusals_leave_an_opening(
    codec: &mut LspFrameCodec,
    src: &mut BytesMut,
    result: Result<Option<String>, CodecError>,
)
    requires
        call_ensures(LspFrameCodec::decode, (codec, src), result),
        result is Err,
    ensures
        (result matches Err(CodecError::MissingHeader)) || (result matches Err(
            CodecError::InvalidLength,
        )) || (result matches Err(CodecError::Utf8(_))),
        buffered(*final(src)).len() == 0 || word_at(
            buffered(*final(src)),
            0,
            encode_utf8("Content-Length"@),
        ),
        buffered(*final(src)).len() <= buffered(*old(src)).len(),
        buffered(*final(src)) == buffered(*old(src)).skip(
            buffered(*old(src)).len() - buffered(*final(src)).len(),
        ),
        final(codec)@ == old(codec)@,
{
    law_failures(codec@, buffered(*src));
    law_resynchronizes(codec@, buffered(*src));
    law_decode_consumes_front(codec@, buffered(*src));
}

/// Where the digits of a length are not ended by a line break, or neither a content type nor an
/// empty line follows, the header is missing.
pub proof fn law_header_lines_are_ended(
    codec: &mut LspFrameCodec,
    src: &mut BytesMut,
    result: Result<Option<String>, CodecError>,
    digits: Seq<u8>,
    rest: Seq<u8>,
)
    requires
        call_ensures(LspFrameCodec::decode, (codec, src), result),
        codec@ <= buffered(*src).len(),
        decimal_digits(digits),
        buffered(*src) == encode_utf8("Content-Length: "@) + digits + rest,
        rest.len() > 0,
        !(48 <= rest[0] <= 57),
        rest[0] != 13 || (rest.len() > 1 && rest[1] != 10) || (rest.len() > 2 && rest[2] != 13
            && rest[2] != 67),
    ensures
        result matches Err(CodecError::MissingHeader),
{
    lemma_fixed();
    let input = buffered(*src);
    let d = digits.len() as int;
    let line = word("Content-Length: "@) + digits;
    assert(all_digits(digits));
    assert(input.subrange(0, 0 + line.len() as int) =~= line);
    assert(input[16 + d] == rest[0]);
    if rest.len() > 1 {
        assert(input[17 + d] == rest[1]);
    }
    if rest[0] != 13 || (rest.len() > 1 && rest[1] != 10) {
        lemma_wrong_line_end(input, digits);
    } else {
        assert(input[18 + d] == rest[2]);
        assert(input.subrange(0, 0 + (line + word("\r\n"@)).len() as int) =~= line + word("\r\n"@));
        lemma_wrong_second_line(input, digits);
    }
}

/// The body of a message is found behind the empty line, and is as long as the digits say.
pub proof fn law_bodies_are_found(
    input: &[u8],
    found: Parsed<usize>,
    digits: &[u8],
    length: u64,
    rest: Seq<u8>,
)
    requires
        call_ensures(parse_message, (input,), found),
        decimal_digits(digits@),
        call_ensures(parse_unsigned, (digits, u64::MAX), Some(length)),
        length <= usize::MAX,
        input@ == encode_utf8("Content-Length: "@) + digits@ + encode_utf8("\r\n\r\n"@) + rest,
    ensures
        length <= rest.len() ==> (found matches Parsed::Message { start, end } && start
            == input@.len() - rest.len() && end - start == length),
        length > rest.len() ==> (found matches Parsed::Incomplete(missing) && missing == length
            - rest.len()),
{
    lemma_fixed();
    let h = word("Content-Length: "@) + digits@ + word("\r\n\r\n"@);
    assert(all_digits(digits@));
    assert(input@.subrange(0, 0 + h.len() as int) =~= h);
    lemma_whole_header_of(input@, digits@);
}

/// The next opening word is found at the first place at which it stands.
pub proof fn law_next_opening_word_is_found(input: &[u8], at: Option<usize>)
    requires
        call_ensures(find_next_message, (input,), at),
    ensures
        at matches Some(i) ==> word_at(input@, i as int, encode_utf8("Content-Length"@)),
        forall|j: int|
            (at matches Some(i) ==> j < i) ==> !#[trigger] word_at(
                input@,
                j,
                encode_utf8("Content-Length"@),
            ),
{
    lemma_occurrence(input@, word("Content-Length"@));
}

/// Nothing is awaited in the beginning, and a copy awaits as much as what it is a copy of.
pub proof fn law_fresh_codecs_await_nothing(fresh: LspFrameCodec, codec: &LspFrameCodec, copy: LspFrameCodec)
    requires
        call_ensures(<LspFrameCodec as Default>::default, (), fresh),
        call_ensures(<LspFrameCodec as Clone>::clone, (codec,), copy),
    ensures
        fresh@ == 0,
        copy@ == codec@,
{
}

/// Each failure is told in its own words, with those of the failure inside it behind them.
pub proof fn law_codec_errors_are_told(error: CodecError, inner: &str, text: String)
    requires
        call_ensures(CodecError::message_with, (&error, inner), text),
    ensures
        error is MissingHeader ==> text@ == "missing required `Content-Length` header"@,
        error is InvalidLength ==> text@ == "unable to parse content length"@,
        error is InvalidType ==> text@ == "unable to parse content type"@,
        error is Encode ==> text@ == "failed to encode frame: "@ + inner@,
        error is Utf8 ==> text@ == "frame contains invalid UTF8: "@ + inner@,
{
}

/// Failures from outside keep what they say about themselves.
pub proof fn law_outside_failures_are_kept(
    failure: std::io::Error,
    encode: CodecError,
    broken: core::str::Utf8Error,
    utf8: CodecError,
)
    requires
        call_ensures(<CodecError as From<std::io::Error>>::from, (failure,), encode),
        call_ensures(<CodecError as From<core::str::Utf8Error>>::from, (broken,), utf8),
    ensures
        encode == CodecError::Encode(failure),
        utf8 == CodecError::Utf8(broken),
{
}

/// A failure without another inside is told in the same words whichever way it is asked.
pub proof fn law_codec_errors_are_told_alone(error: CodecError, text: String)
    requires
        call_ensures(CodecError::message, (&error,), text),
    ensures
        error is MissingHeader ==> text@ == "missing required `Content-Length` header"@,
        error is InvalidLength ==> text@ == "unable to parse content length"@,
        error is InvalidType ==> text@ == "unable to parse content type"@,
{
}

} // verus!
