//! What holds of the frame codec over several calls.
use vstd::prelude::*;
use vstd::utf8::encode_utf8;
use crate::lsp::codec::{
    decode_step,
    frame,
    header,
    DecodeStep,
    Failure,
    Outcome,
};
use crate::lsp::grammar::{
    charset_at,
    content_type_at,
    header_rest_at,
    is_blank,
    is_media_byte,
    length_digits,
    length_field,
    line_break_at,
    optional,
    parsed,
    run_at,
    tag_at,
    word,
    HeaderFault,
    Parsed,
    Step,
};
use crate::text::numerals::{
    all_digits,
    decimal_bytes,
    digits_value,
    is_digit,
    lemma_decimal_bytes,
};
use crate::text::scan::{lemma_occurrence, lemma_run, lemma_run_items, word_at};
use crate::text::unicode::lemma_encode_empty;

verus! {

/// The bytes of the words that a header is made of.
proof fn lemma_words()
    ensures
        word("Content-Length: "@).len() == 16,
        word("Content-Length: "@)[0] == 67,
        word("Content-Type: "@).len() == 14,
        word("Content-Type: "@)[0] == 67,
        word("charset="@).len() == 8,
        word("charset="@)[0] == 99,
        word("utf-8"@).len() == 5,
        word("utf-8"@)[3] == 45,
        word("utf8"@).len() == 4,
        word("utf8"@)[3] == 56,
        word("\r\n"@) == seq![13u8, 10u8],
        word("\r\n\r\n"@) == seq![13u8, 10u8, 13u8, 10u8],
{
    reveal_strlit("Content-Length: ");
    reveal_strlit("Content-Type: ");
    reveal_strlit("charset=");
    reveal_strlit("utf-8");
    reveal_strlit("utf8");
    reveal_strlit("\r\n");
    reveal_strlit("\r\n\r\n");
    vstd::utf8::is_ascii_chars_encode_utf8("Content-Length: "@);
    vstd::utf8::is_ascii_chars_encode_utf8("Content-Type: "@);
    vstd::utf8::is_ascii_chars_encode_utf8("charset="@);
    vstd::utf8::is_ascii_chars_encode_utf8("utf-8"@);
    vstd::utf8::is_ascii_chars_encode_utf8("utf8"@);
    vstd::utf8::is_ascii_chars_encode_utf8("\r\n"@);
    vstd::utf8::is_ascii_chars_encode_utf8("\r\n\r\n"@);
    assert(word("\r\n"@) =~= seq![13u8, 10u8]);
    assert(word("\r\n\r\n"@) =~= seq![13u8, 10u8, 13u8, 10u8]);
}

/// A word that stands in full at `at` matches there.
proof fn lemma_tag_whole(input: Seq<u8>, at: nat, w: Seq<u8>)
    requires
        word_at(input, at as int, w),
    ensures
        tag_at(input, at, w) == Step::<nat>::Done(at + w.len()),
{
    let rest = input.skip(at as int);
    assert(rest.take(w.len() as int) =~= input.subrange(at as int, at as int + w.len()));
    assert(w.take(w.len() as int) =~= w);
}

/// A front of a word that ends with the input leaves the rest of the word to come.
proof fn lemma_tag_part(input: Seq<u8>, at: nat, w: Seq<u8>)
    requires
        at <= input.len(),
        input.len() - at < w.len(),
        forall|i: int| 0 <= i < input.len() - at ==> input[at + i] == #[trigger] w[i],
    ensures
        tag_at(input, at, w) == Step::<nat>::Incomplete((w.len() - (input.len() - at)) as nat),
{
    let rest = input.skip(at as int);
    assert(rest.take(rest.len() as int) =~= w.take(rest.len() as int));
}

/// A wrong byte within the reach of a word is a fault.
proof fn lemma_tag_wrong(input: Seq<u8>, at: nat, w: Seq<u8>, i: int)
    requires
        0 <= i < w.len(),
        at + i < input.len(),
        input[at + i] != w[i],
    ensures
        tag_at(input, at, w) == Step::<nat>::Fault(HeaderFault::Tag, at),
{
    let rest = input.skip(at as int);
    let shared = if rest.len() < w.len() {
        rest.len()
    } else {
        w.len()
    };
    assert(rest.take(shared as int)[i] != w.take(shared as int)[i]);
}

/// A run of bytes with a byte of another kind behind it matches.
proof fn lemma_run_whole(input: Seq<u8>, at: nat, p: spec_fn(u8) -> bool, n: nat)
    requires
        at + n < input.len(),
        forall|i: int| at <= i < at + n ==> p(#[trigger] input[i]),
        !p(input[(at + n) as int]),
    ensures
        run_at(input, at, p) == Step::<nat>::Done(at + n),
{
    let rest = input.skip(at as int);
    assert forall|i: int| 0 <= i < n implies p(#[trigger] rest[i]) by {
        assert(rest[i] == input[at + i]);
    }
    lemma_run(rest, p, n);
}

/// The length line at the front of an input that starts with it, whatever its digits are.
proof fn lemma_length_line_of(input: Seq<u8>, digits: Seq<u8>)
    requires
        digits.len() > 0,
        all_digits(digits),
        input.len() > 16 + digits.len(),
        word_at(input, 0, word("Content-Length: "@) + digits),
        !is_digit(input[(16 + digits.len()) as int]),
    ensures
        length_digits(input) == Step::<nat>::Done(16 + digits.len()),
        length_field(input, 16 + digits.len()) == digits,
{
    lemma_words();
    let tag = word("Content-Length: "@);
    let front = tag + digits;
    assert(input.subrange(0, 0 + front.len() as int) =~= front);
    assert(input.subrange(0, 0 + tag.len() as int) =~= tag) by {
        assert forall|i: int| 0 <= i < 16 implies input[i] == tag[i] by {
            assert(input.subrange(0, 0 + front.len() as int)[i] == front[i]);
        }
    }
    lemma_tag_whole(input, 0, tag);
    let p = |b: u8| is_digit(b);
    assert forall|i: int| 16 <= i < 16 + digits.len() implies p(#[trigger] input[i]) by {
        assert(input.subrange(0, 0 + front.len() as int)[i] == front[i]);
        assert(is_digit(digits[i - 16]));
    }
    lemma_run_whole(input, 16, p, digits.len());
    assert(length_field(input, 16 + digits.len()) =~= digits) by {
        assert forall|i: int| 0 <= i < digits.len() implies input[16 + i] == digits[i] by {
            assert(input.subrange(0, 0 + front.len() as int)[16 + i] == front[16 + i]);
        }
    }
}

/// The length line of a number.
proof fn lemma_length_line(input: Seq<u8>, length: nat)
    requires
        input.len() > 16 + decimal_bytes(length).len(),
        word_at(input, 0, word("Content-Length: "@) + decimal_bytes(length)),
        !is_digit(input[(16 + decimal_bytes(length).len()) as int]),
    ensures
        length_digits(input) == Step::<nat>::Done(16 + decimal_bytes(length).len()),
        digits_value(length_field(input, 16 + decimal_bytes(length).len())) == length,
{
    lemma_decimal_bytes(length);
    lemma_length_line_of(input, decimal_bytes(length));
}

/// A whole header is read to its end, whatever its digits are.
pub proof fn lemma_whole_header_of(input: Seq<u8>, digits: Seq<u8>)
    requires
        digits.len() > 0,
        all_digits(digits),
        word_at(input, 0, word("Content-Length: "@) + digits + word("\r\n\r\n"@)),
    ensures
        length_digits(input) == Step::<nat>::Done(16 + digits.len()),
        length_field(input, 16 + digits.len()) == digits,
        header_rest_at(input, 16 + digits.len()) == Step::<nat>::Done(20 + digits.len()),
{
    lemma_words();
    let h = word("Content-Length: "@) + digits + word("\r\n\r\n"@);
    let d = digits.len();
    let front = word("Content-Length: "@) + digits;
    assert forall|i: int| 0 <= i < h.len() implies #[trigger] input[i] == h[i] by {
        assert(input.subrange(0, 0 + h.len() as int)[i] == h[i]);
    }
    assert(input.subrange(0, 0 + front.len() as int) =~= front);
    assert(input[(16 + d) as int] == 13u8);
    assert(input[(17 + d) as int] == 10u8);
    assert(input[(18 + d) as int] == 13u8);
    assert(input[(19 + d) as int] == 10u8);
    lemma_length_line_of(input, digits);
    assert(input.subrange((16 + d) as int, (16 + d + 2) as int) =~= word("\r\n"@));
    lemma_tag_whole(input, 16 + d, word("\r\n"@));
    lemma_tag_wrong(input, 18 + d, word("Content-Type: "@), 0);
    assert(input.subrange((18 + d) as int, (18 + d + 2) as int) =~= word("\r\n"@));
    lemma_tag_whole(input, 18 + d, word("\r\n"@));
}

/// A whole header is read to its end.
proof fn lemma_whole_header(input: Seq<u8>, length: nat)
    requires
        word_at(input, 0, header(length)),
    ensures
        length_digits(input) == Step::<nat>::Done(16 + decimal_bytes(length).len()),
        digits_value(length_field(input, 16 + decimal_bytes(length).len())) == length,
        header_rest_at(input, 16 + decimal_bytes(length).len()) == Step::<nat>::Done(
            header(length).len(),
        ),
        header(length).len() == 20 + decimal_bytes(length).len(),
{
    lemma_words();
    lemma_decimal_bytes(length);
    lemma_whole_header_of(input, decimal_bytes(length));
}

/// An input with a wrong byte in its first sixteen has no header.
pub proof fn lemma_wrong_opening(input: Seq<u8>, i: int)
    requires
        0 <= i < 16,
        i < input.len(),
        input[i] != word("Content-Length: "@)[i],
    ensures
        parsed(input) == (Parsed::<nat>::Fault { fault: HeaderFault::Tag, at: 0 }),
{
    lemma_words();
    lemma_tag_wrong(input, 0, word("Content-Length: "@), i);
}

/// A header that opens well and goes on without a digit has no length.
pub proof fn lemma_wrong_length(input: Seq<u8>)
    requires
        input.len() > 16,
        input.take(16) == word("Content-Length: "@),
        !is_digit(input[16]),
    ensures
        parsed(input) == (Parsed::<nat>::Fault { fault: HeaderFault::Digit, at: 16 }),
{
    lemma_words();
    assert(input.subrange(0, 16int) =~= input.take(16));
    lemma_tag_whole(input, 0, word("Content-Length: "@));
    lemma_run_whole(input, 16, |b: u8| is_digit(b), 0);
}

/// A proper front of a header is incomplete, and never asks for more than sixteen bytes.
proof fn lemma_part_header(input: Seq<u8>, length: nat)
    requires
        input.len() < header(length).len(),
        input == header(length).take(input.len() as int),
    ensures
        parsed(input) matches Parsed::Incomplete(n) && 1 <= n <= 16,
{
    lemma_words();
    lemma_decimal_bytes(length);
    let h = header(length);
    let k = input.len();
    let tag = word("Content-Length: "@);
    let digits = decimal_bytes(length);
    let d = digits.len();
    assert forall|i: int| 0 <= i < k implies #[trigger] input[i] == h[i] by {}
    if k < 16 {
        assert forall|i: int| 0 <= i < input.len() - 0 implies input[0 + i] == #[trigger] tag[i] by {
            assert(h[i] == tag[i]);
        }
        lemma_tag_part(input, 0, tag);
    } else {
        assert(input.subrange(0, 16int) =~= tag) by {
            assert forall|i: int| 0 <= i < 16 implies input[i] == tag[i] by {
                assert(h[i] == tag[i]);
            }
        }
        lemma_tag_whole(input, 0, tag);
        if k <= 16 + d {
            let p = |b: u8| is_digit(b);
            let rest = input.skip(16);
            assert forall|i: int| 0 <= i < rest.len() implies p(#[trigger] rest[i]) by {
                assert(h[16 + i] == digits[i]);
                assert(is_digit(digits[i]));
            }
            lemma_run(rest, p, rest.len());
        } else {
            let front = tag + digits;
            assert(input.subrange(0, 0 + front.len() as int) =~= front) by {
                assert forall|i: int| 0 <= i < front.len() implies input[i] == front[i] by {
                    assert(h[i] == front[i]);
                }
            }
            assert(h[(16 + d) as int] == 13u8);
            lemma_length_line(input, length);
            if k == 17 + d {
                assert(input[(16 + d) as int] == word("\r\n"@)[0]);
                lemma_tag_part(input, 16 + d, word("\r\n"@));
            } else {
                assert(h[(17 + d) as int] == 10u8);
                assert(input.subrange((16 + d) as int, (16 + d + 2) as int) =~= word("\r\n"@));
                lemma_tag_whole(input, 16 + d, word("\r\n"@));
                if k == 18 + d {
                    lemma_tag_part(input, 18 + d, word("Content-Type: "@));
                } else {
                    assert(h[(18 + d) as int] == 13u8);
                    assert(k == 19 + d);
                    lemma_tag_wrong(input, 18 + d, word("Content-Type: "@), 0);
                    assert(input[(18 + d) as int] == word("\r\n"@)[0]);
                    lemma_tag_part(input, 18 + d, word("\r\n"@));
                }
            }
        }
    }
}

/// What was written is read back: a frame at the front of the buffer decodes to its text, and
/// exactly the frame is consumed. It does not matter how many bytes up to the frame's own length
/// were still awaited.
pub proof fn law_frame_round_trip(text: Seq<char>, rest: Seq<u8>, awaited: nat)
    requires
        text.len() > 0,
        encode_utf8(text).len() <= usize::MAX,
        awaited <= frame(text).len(),
    ensures
        decode_step(awaited, frame(text) + rest) == (DecodeStep {
            outcome: Outcome::Text(text),
            awaited: 0,
            rest,
        }),
{
    let body = encode_utf8(text);
    let h = header(body.len());
    let input = frame(text) + rest;
    lemma_encode_empty(text);
    assert(input.subrange(0, 0 + h.len() as int) =~= h);
    lemma_whole_header(input, body.len());
    assert(input.subrange(h.len() as int, (h.len() + body.len()) as int) =~= body);
    assert(input.skip((h.len() + body.len()) as int) =~= rest);
    vstd::utf8::encode_utf8_valid_utf8(text);
    vstd::utf8::encode_utf8_decode_utf8(text);
}

/// Half a frame is neither lost nor refused: while only a front of it has come, nothing is
/// produced and nothing is consumed, and no more bytes are awaited than the frame has.
pub proof fn law_partial_frame_waits(text: Seq<char>, have: nat)
    requires
        text.len() > 0,
        encode_utf8(text).len() <= usize::MAX,
        have < frame(text).len(),
    ensures
        ({
            let step = decode_step(0, frame(text).take(have as int));
            &&& step.outcome == Outcome::Nothing
            &&& step.rest == frame(text).take(have as int)
            &&& 1 <= step.awaited <= frame(text).len()
        }),
{
    let body = encode_utf8(text);
    let h = header(body.len());
    let input = frame(text).take(have as int);
    lemma_encode_empty(text);
    lemma_words();
    lemma_decimal_bytes(body.len());
    if have < h.len() {
        assert(input =~= h.take(have as int));
        lemma_part_header(input, body.len());
    } else {
        assert(input.subrange(0, 0 + h.len() as int) =~= h);
        lemma_whole_header(input, body.len());
    }
}

/// However a frame is cut in two on its way, its text comes out once the second part is there.
pub proof fn law_split_frame_is_delivered(text: Seq<char>, have: nat, rest: Seq<u8>)
    requires
        text.len() > 0,
        encode_utf8(text).len() <= usize::MAX,
        have < frame(text).len(),
    ensures
        ({
            let first = decode_step(0, frame(text).take(have as int));
            let arrived = first.rest + frame(text).skip(have as int) + rest;
            decode_step(first.awaited, arrived) == (DecodeStep {
                outcome: Outcome::Text(text),
                awaited: 0,
                rest,
            })
        }),
{
    law_partial_frame_waits(text, have);
    let first = decode_step(0, frame(text).take(have as int));
    let arrived = first.rest + frame(text).skip(have as int) + rest;
    assert(arrived =~= frame(text) + rest);
    law_frame_round_trip(text, rest, first.awaited);
}

/// The frames of several texts in a row.
pub open spec fn frames(texts: Seq<Seq<char>>) -> Seq<u8>
    decreases texts.len(),
{
    if texts.len() == 0 {
        Seq::empty()
    } else {
        frame(texts[0]) + frames(texts.skip(1))
    }
}

/// What `count` calls of `decode` produce, up to the first that produces no text, and what they
/// leave in the buffer.
pub open spec fn decoded(input: Seq<u8>, count: nat) -> (Seq<Seq<char>>, Seq<u8>)
    decreases count,
{
    if count == 0 {
        (Seq::empty(), input)
    } else {
        let step = decode_step(0, input);
        match step.outcome {
            Outcome::Text(text) => {
                let later = decoded(step.rest, (count - 1) as nat);
                (seq![text] + later.0, later.1)
            },
            _ => (Seq::empty(), input),
        }
    }
}

/// A conversation is read as it was written: the frames of any number of texts decode to these
/// texts, in their order, and what follows them stays.
pub proof fn law_stream_round_trip(texts: Seq<Seq<char>>, rest: Seq<u8>)
    requires
        forall|i: int|
            0 <= i < texts.len() ==> 0 < (#[trigger] texts[i]).len() && encode_utf8(texts[i]).len()
                <= usize::MAX,
    ensures
        decoded(frames(texts) + rest, texts.len()) == (texts, rest),
    decreases texts.len(),
{
    if texts.len() == 0 {
        assert(frames(texts) + rest =~= rest);
        assert(texts =~= Seq::<Seq<char>>::empty());
    } else {
        let tail = texts.skip(1);
        assert forall|i: int| 0 <= i < tail.len() implies 0 < (#[trigger] tail[i]).len()
            && encode_utf8(tail[i]).len() <= usize::MAX by {
            assert(tail[i] == texts[i + 1]);
        }
        assert(0 < texts[0].len());
        law_stream_round_trip(tail, rest);
        assert(frames(texts) + rest =~= frame(texts[0]) + (frames(tail) + rest));
        law_frame_round_trip(texts[0], frames(tail) + rest, 0);
        assert(seq![texts[0]] + tail =~= texts);
    }
}

/// The empty text is not sent, and an empty body is swallowed without an answer.
pub proof fn law_empty_frame(rest: Seq<u8>, awaited: nat)
    requires
        awaited <= header(0).len(),
    ensures
        frame(Seq::empty()) == Seq::<u8>::empty(),
        decode_step(awaited, header(0) + rest) == (DecodeStep {
            outcome: Outcome::Nothing,
            awaited: 0,
            rest,
        }),
{
    let h = header(0);
    let input = h + rest;
    assert(input.subrange(0, 0 + h.len() as int) =~= h);
    lemma_whole_header(input, 0);
    assert(input.subrange(h.len() as int, h.len() as int) =~= Seq::<u8>::empty());
    assert(input.skip(h.len() as int) =~= rest);
}

/// A charset in a content type line: a semicolon, blanks, `charset=` and the name of UTF-8.
pub open spec fn charset_field(blanks: Seq<u8>, hyphen: bool) -> Seq<u8> {
    seq![59u8] + blanks + word("charset="@) + (if hyphen {
        word("utf-8"@)
    } else {
        word("utf8"@)
    })
}

/// A header that names a media type between the length and the empty line.
pub open spec fn typed_header(length: nat, media: Seq<u8>, charset: Seq<u8>) -> Seq<u8> {
    word("Content-Length: "@) + decimal_bytes(length) + word("\r\n"@) + word("Content-Type: "@) + media
        + charset + word("\r\n\r\n"@)
}

/// Whether a charset may stand in a content type line: there is none, or it is UTF-8.
pub open spec fn is_charset(charset: Seq<u8>) -> bool {
    ||| charset.len() == 0
    ||| exists|blanks: Seq<u8>, hyphen: bool|
        charset == #[trigger] charset_field(blanks, hyphen) && forall|i: int|
            0 <= i < blanks.len() ==> is_blank(#[trigger] blanks[i])
}

/// A charset that stands at `at` is read to its end.
proof fn lemma_charset(input: Seq<u8>, at: nat, blanks: Seq<u8>, hyphen: bool)
    requires
        word_at(input, at as int, charset_field(blanks, hyphen)),
        forall|i: int| 0 <= i < blanks.len() ==> is_blank(#[trigger] blanks[i]),
    ensures
        charset_at(input, at) == Step::<nat>::Done(at + charset_field(blanks, hyphen).len()),
{
    lemma_words();
    let field = charset_field(blanks, hyphen);
    let n = blanks.len();
    let name = if hyphen {
        word("utf-8"@)
    } else {
        word("utf8"@)
    };
    assert forall|i: int| 0 <= i < field.len() implies #[trigger] input[at + i] == field[i] by {
        assert(input.subrange(at as int, at as int + field.len())[i] == field[i]);
    }
    assert(input[at as int + 0] == 59u8);
    let p = |b: u8| is_blank(b);
    assert forall|i: int| at + 1 <= i < at + 1 + n implies p(#[trigger] input[i]) by {
        assert(input[at + (i - at)] == field[i - at]);
        assert(is_blank(blanks[i - at - 1]));
    }
    assert(input[at as int + (1 + n)] == field[1 + n as int]);
    assert(field[1 + n as int] == word("charset="@)[0]);
    lemma_run_whole(input, at + 1, p, n);
    assert(input.subrange((at + 1 + n) as int, (at + 1 + n) as int + 8) =~= word("charset="@)) by {
        assert forall|i: int| 0 <= i < 8 implies input[at + 1 + n + i] == word("charset="@)[i] by {
            assert(input[at + (1 + n + i)] == field[1 + n + i]);
        }
    }
    lemma_tag_whole(input, at + 1 + n, word("charset="@));
    let p3 = at + 9 + n;
    assert(input.subrange(p3 as int, p3 as int + name.len()) =~= name) by {
        assert forall|i: int| 0 <= i < name.len() implies input[p3 + i] == name[i] by {
            assert(input[at + (9 + n + i)] == field[9 + n + i]);
        }
    }
    lemma_tag_whole(input, p3, name);
    if !hyphen {
        assert(input[p3 as int + 3] == name[3]) by {
            assert(input[at as int + (9 + n + 3)] == field[9 + n as int + 3]);
        }
        lemma_tag_wrong(input, p3, word("utf-8"@), 3);
    }
}

/// A content type line that stands at `at` is read to its end.
proof fn lemma_content_type(input: Seq<u8>, at: nat, media: Seq<u8>, charset: Seq<u8>)
    requires
        word_at(input, at as int, word("Content-Type: "@)),
        word_at(input, at as int + 14, media),
        word_at(input, at as int + 14 + media.len(), charset),
        word_at(input, at as int + 14 + media.len() + charset.len(), word("\r\n"@)),
        media.len() > 0,
        forall|i: int| 0 <= i < media.len() ==> is_media_byte(#[trigger] media[i]),
        is_charset(charset),
    ensures
        content_type_at(input, at) == Step::<nat>::Done(at + 16 + media.len() + charset.len()),
{
    lemma_words();
    lemma_tag_whole(input, at, word("Content-Type: "@));
    let p2 = at + 14;
    let p3 = p2 + media.len();
    let p4 = p3 + charset.len();
    let p = |b: u8| is_media_byte(b);
    assert forall|i: int| p2 <= i < p2 + media.len() implies p(#[trigger] input[i]) by {
        assert(input.subrange(p2 as int, p2 as int + media.len())[i - p2] == input[i]);
    }
    assert(input.subrange(p4 as int, p4 as int + 2)[0] == input[p4 as int]);
    assert(input[p4 as int] == 13u8);
    if charset.len() == 0 {
        lemma_run_whole(input, p2, p, media.len());
    } else {
        let (blanks, hyphen) = choose|blanks: Seq<u8>, hyphen: bool|
            charset == #[trigger] charset_field(blanks, hyphen) && forall|i: int|
                0 <= i < blanks.len() ==> is_blank(#[trigger] blanks[i]);
        assert(input.subrange(p3 as int, p3 as int + charset.len())[0] == input[p3 as int]);
        assert(charset[0] == 59u8);
        lemma_run_whole(input, p2, p, media.len());
        lemma_charset(input, p3, blanks, hyphen);
    }
    assert(optional(charset_at(input, p3), p3) == Step::<nat>::Done(p4));
    lemma_tag_whole(input, p4, word("\r\n"@));
}

/// Where one word stands behind another, both stand.
proof fn lemma_word_at_parts(s: Seq<u8>, at: int, a: Seq<u8>, b: Seq<u8>)
    requires
        word_at(s, at, a + b),
    ensures
        word_at(s, at, a),
        word_at(s, at + a.len(), b),
{
    let whole = s.subrange(at, at + (a + b).len());
    assert(s.subrange(at, at + a.len()) =~= whole.subrange(0, a.len() as int));
    assert(whole.subrange(0, a.len() as int) =~= a);
    assert(s.subrange(at + a.len(), at + a.len() + b.len()) =~= whole.subrange(
        a.len() as int,
        whole.len() as int,
    ));
    assert(whole.subrange(a.len() as int, whole.len() as int) =~= b);
}

/// A header with a content type line is read to its end, whatever its digits are.
pub proof fn lemma_typed_header_of(
    input: Seq<u8>,
    digits: Seq<u8>,
    media: Seq<u8>,
    charset: Seq<u8>,
)
    requires
        digits.len() > 0,
        all_digits(digits),
        word_at(
            input,
            0,
            word("Content-Length: "@) + digits + word("\r\n"@) + word("Content-Type: "@) + media
                + charset + word("\r\n\r\n"@),
        ),
        media.len() > 0,
        forall|i: int| 0 <= i < media.len() ==> is_media_byte(#[trigger] media[i]),
        is_charset(charset),
    ensures
        length_digits(input) == Step::<nat>::Done(16 + digits.len()),
        length_field(input, 16 + digits.len()) == digits,
        header_rest_at(input, 16 + digits.len()) == Step::<nat>::Done(
            36 + digits.len() + media.len() + charset.len(),
        ),
{
    lemma_words();
    let line = word("Content-Length: "@) + digits;
    let eol = word("\r\n"@);
    let label = word("Content-Type: "@);
    let d = digits.len();
    let p1 = 18 + d;
    let p4 = p1 + 14 + media.len() + charset.len();
    assert(word("\r\n\r\n"@) =~= eol + eol);
    assert(line + eol + label + media + charset + word("\r\n\r\n"@) =~= line + (eol + (label + (media
        + (charset + (eol + eol))))));
    lemma_word_at_parts(input, 0, line, eol + (label + (media + (charset + (eol + eol)))));
    lemma_word_at_parts(input, 16 + d as int, eol, label + (media + (charset + (eol + eol))));
    lemma_word_at_parts(input, p1 as int, label, media + (charset + (eol + eol)));
    lemma_word_at_parts(input, p1 as int + 14, media, charset + (eol + eol));
    lemma_word_at_parts(input, p1 + 14 + media.len() as int, charset, eol + eol);
    lemma_word_at_parts(input, p4 as int, eol, eol);
    assert(input.subrange(16 + d as int, 16 + d as int + 2)[0] == input[16 + d as int]);
    lemma_length_line_of(input, digits);
    lemma_tag_whole(input, 16 + d, eol);
    lemma_content_type(input, p1, media, charset);
    lemma_tag_whole(input, p4 + 2, eol);
}

/// A header with a content type line is read to its end.
proof fn lemma_typed_header(input: Seq<u8>, length: nat, media: Seq<u8>, charset: Seq<u8>)
    requires
        word_at(input, 0, typed_header(length, media, charset)),
        media.len() > 0,
        forall|i: int| 0 <= i < media.len() ==> is_media_byte(#[trigger] media[i]),
        is_charset(charset),
    ensures
        length_digits(input) == Step::<nat>::Done(16 + decimal_bytes(length).len()),
        digits_value(length_field(input, 16 + decimal_bytes(length).len())) == length,
        header_rest_at(input, 16 + decimal_bytes(length).len()) == Step::<nat>::Done(
            typed_header(length, media, charset).len(),
        ),
{
    lemma_words();
    lemma_decimal_bytes(length);
    lemma_typed_header_of(input, decimal_bytes(length), media, charset);
}

/// Behind the digits of the length a line break is expected.
pub proof fn lemma_wrong_line_end(input: Seq<u8>, digits: Seq<u8>)
    requires
        digits.len() > 0,
        all_digits(digits),
        input.len() > 16 + digits.len(),
        word_at(input, 0, word("Content-Length: "@) + digits),
        !is_digit(input[(16 + digits.len()) as int]),
        input[(16 + digits.len()) as int] != 13 || (input.len() > 17 + digits.len() && input[(17
            + digits.len()) as int] != 10),
    ensures
        parsed(input) == (Parsed::<nat>::Fault {
            fault: HeaderFault::LineBreak,
            at: 16 + digits.len(),
        }),
{
    lemma_words();
    lemma_length_line_of(input, digits);
    let at = 16 + digits.len();
    if input[at as int] != 13 {
        lemma_tag_wrong(input, at, word("\r\n"@), 0);
    } else {
        lemma_tag_wrong(input, at, word("\r\n"@), 1);
    }
}

/// Behind the line of the length a content type line or a line break is expected.
pub proof fn lemma_wrong_second_line(input: Seq<u8>, digits: Seq<u8>)
    requires
        digits.len() > 0,
        all_digits(digits),
        input.len() > 18 + digits.len(),
        word_at(input, 0, word("Content-Length: "@) + digits + word("\r\n"@)),
        input[(18 + digits.len()) as int] != 13,
        input[(18 + digits.len()) as int] != word("Content-Type: "@)[0],
    ensures
        parsed(input) == (Parsed::<nat>::Fault {
            fault: HeaderFault::LineBreak,
            at: 18 + digits.len(),
        }),
{
    lemma_words();
    let eol = word("\r\n"@);
    let at = 18 + digits.len();
    lemma_word_at_parts(input, 0, word("Content-Length: "@) + digits, eol);
    assert(input.subrange(at - 2, at as int)[0] == input[at - 2]);
    lemma_length_line_of(input, digits);
    lemma_tag_whole(input, (at - 2) as nat, eol);
    lemma_tag_wrong(input, at, word("Content-Type: "@), 0);
    lemma_tag_wrong(input, at, eol, 0);
}

/// A message begins with the length line, has a line break in front of its body, and its body is
/// as long as the digits say.
pub proof fn lemma_message_shape(input: Seq<u8>) -> (d: int)
    requires
        parsed(input) is Message,
    ensures
        d > 0,
        input.take(16) == word("Content-Length: "@),
        all_digits(input.subrange(16, 16 + d)),
        parsed(input) matches Parsed::Message { start, end } && 20 + d <= start <= end <= input.len()
            && digits_value(input.subrange(16, 16 + d)) == end - start && input[start - 2] == 13
            && input[start - 1] == 10,
        input[16 + d] == 13,
        input[17 + d] == 10,
{
    lemma_words();
    lemma_parsed_bounds(input);
    let tag = word("Content-Length: "@);
    let eol = word("\r\n"@);
    let end = match length_digits(input) {
        Step::Done(end) => end,
        _ => 0,
    };
    assert(input.skip(0).take(16) =~= input.take(16));
    assert(tag.take(16) =~= tag);
    let p = |b: u8| is_digit(b);
    let rest = input.skip(16);
    lemma_run_items(rest, p);
    let d = end - 16;
    assert forall|i: int| 0 <= i < d implies is_digit(#[trigger] input.subrange(16, 16 + d)[i]) by {
        assert(p(rest[i]));
    }
    lemma_line_break(input, end);
    let p1 = end + 2;
    lemma_content_type_bounds(input, p1);
    lemma_content_type_advances(input, p1);
    match optional(content_type_at(input, p1), p1) {
        Step::Done(p2) => {
            lemma_line_break(input, p2);
        },
        _ => {},
    }
    d
}

/// A line break that was read stands there.
proof fn lemma_line_break(input: Seq<u8>, at: nat)
    requires
        at <= input.len(),
        line_break_at(input, at) is Done,
    ensures
        line_break_at(input, at) == Step::<nat>::Done(at + 2),
        at + 2 <= input.len(),
        input[at as int] == 13,
        input[at as int + 1] == 10,
{
    lemma_words();
    let eol = word("\r\n"@);
    let rest = input.skip(at as int);
    assert(rest.take(2) == eol.take(2));
    assert(rest.take(2)[0] == eol.take(2)[0]);
    assert(rest.take(2)[1] == eol.take(2)[1]);
}

/// A content type line that was read takes something.
proof fn lemma_content_type_advances(input: Seq<u8>, at: nat)
    requires
        at <= input.len(),
    ensures
        content_type_at(input, at) matches Step::Done(end) ==> at <= end,
{
    lemma_words();
}

/// A content type line is allowed and changes nothing: with any media type, and with no charset
/// or with UTF-8, the body decodes as it does without the line.
pub proof fn law_content_type_is_ignored(
    text: Seq<char>,
    media: Seq<u8>,
    charset: Seq<u8>,
    rest: Seq<u8>,
)
    requires
        text.len() > 0,
        encode_utf8(text).len() <= usize::MAX,
        media.len() > 0,
        forall|i: int| 0 <= i < media.len() ==> is_media_byte(#[trigger] media[i]),
        is_charset(charset),
    ensures
        decode_step(
            0,
            typed_header(encode_utf8(text).len(), media, charset) + encode_utf8(text) + rest,
        ) == (DecodeStep { outcome: Outcome::Text(text), awaited: 0, rest }),
{
    let body = encode_utf8(text);
    let h = typed_header(body.len(), media, charset);
    let input = h + body + rest;
    lemma_encode_empty(text);
    assert(input.subrange(0, 0 + h.len() as int) =~= h);
    lemma_typed_header(input, body.len(), media, charset);
    assert(input.subrange(h.len() as int, (h.len() + body.len()) as int) =~= body);
    assert(input.skip((h.len() + body.len()) as int) =~= rest);
    vstd::utf8::encode_utf8_valid_utf8(text);
    vstd::utf8::encode_utf8_decode_utf8(text);
}

/// Reading only ever takes bytes off the front of the buffer.
pub proof fn law_decode_consumes_front(awaited: nat, input: Seq<u8>)
    ensures
        decode_step(awaited, input).rest.len() <= input.len(),
        decode_step(awaited, input).rest == input.skip(
            input.len() - decode_step(awaited, input).rest.len(),
        ),
{
    lemma_parsed_bounds(input);
    let step = decode_step(awaited, input);
    assert(input.skip(0) =~= input);
    if awaited <= input.len() {
        match parsed(input) {
            Parsed::Fault { fault, at } => {
                let tail = input.skip(at as int);
                lemma_occurrence(tail, word("Content-Length"@));
                match crate::text::scan::first_occurrence(tail, word("Content-Length"@)) {
                    Some(i) => {
                        assert(tail.skip(i) =~= input.skip(at + i));
                    },
                    None => {
                        assert(input.skip(input.len() as int) =~= Seq::<u8>::empty());
                    },
                }
            },
            _ => {},
        }
    }
}

/// The positions that a parse gives lie within the input.
proof fn lemma_parsed_bounds(input: Seq<u8>)
    ensures
        parsed(input) matches Parsed::Message { start, end } ==> start <= end <= input.len(),
        parsed(input) matches Parsed::Fault { fault, at } ==> at <= input.len(),
        parsed(input) matches Parsed::Fault { fault, at } ==> fault == HeaderFault::Tag || fault
            == HeaderFault::Digit || fault == HeaderFault::LineBreak || fault
            == HeaderFault::Length,
{
    lemma_words();
    match length_digits(input) {
        Step::Done(end) => {
            match line_break_at(input, end) {
                Step::Done(p1) => {
                    lemma_content_type_bounds(input, p1);
                },
                _ => {},
            }
        },
        _ => {},
    }
}

proof fn lemma_content_type_bounds(input: Seq<u8>, at: nat)
    requires
        at <= input.len(),
    ensures
        content_type_at(input, at) matches Step::Done(end) ==> end <= input.len(),
{
    lemma_words();
}

/// The content type line never makes a frame fail, and nothing is reported that reading cannot
/// run into: a refusal is a missing header, a bad length or bad UTF-8.
pub proof fn law_failures(awaited: nat, input: Seq<u8>)
    ensures
        decode_step(awaited, input).outcome matches Outcome::Failed(failure) ==> {
            ||| failure == Failure::MissingHeader
            ||| failure == Failure::InvalidLength
            ||| failure == Failure::Utf8
        },
{
    lemma_parsed_bounds(input);
}

/// After a refusal the buffer is empty or starts with the opening word of a header.
pub proof fn law_resynchronizes(awaited: nat, input: Seq<u8>)
    ensures
        decode_step(awaited, input).outcome is Failed ==> decode_step(awaited, input).rest.len()
            == 0 || word_at(decode_step(awaited, input).rest, 0, word("Content-Length"@)),
{
    let opening = word("Content-Length"@);
    match parsed(input) {
        Parsed::Fault { fault, at } => {
            let tail = input.skip(at as int);
            lemma_occurrence(tail, opening);
            match crate::text::scan::first_occurrence(tail, opening) {
                Some(i) => {
                    assert(tail.skip(i).subrange(0, 0 + opening.len() as int) =~= tail.subrange(
                        i,
                        i + opening.len(),
                    ));
                },
                None => {},
            }
        },
        Parsed::Message { start, end } => {
            let field = word("Content-Length: "@);
            lemma_opening_word();
            assert(input.skip(0).take(field.len() as int) == field.take(field.len() as int));
            assert(field.take(field.len() as int) =~= field);
            assert(input.subrange(0, 0 + opening.len() as int) =~= input.skip(0).take(
                field.len() as int,
            ).take(opening.len() as int));
        },
        _ => {},
    }
}

/// The opening word of a header stands at the front of its first field.
proof fn lemma_opening_word()
    ensures
        word("Content-Length: "@).len() > word("Content-Length"@).len(),
        word("Content-Length: "@).take(word("Content-Length"@).len() as int) == word(
            "Content-Length"@,
        ),
{
    reveal_strlit("Content-Length: ");
    reveal_strlit("Content-Length");
    vstd::utf8::is_ascii_chars_encode_utf8("Content-Length: "@);
    vstd::utf8::is_ascii_chars_encode_utf8("Content-Length"@);
    assert(word("Content-Length: "@).take(word("Content-Length"@).len() as int) =~= word(
        "Content-Length"@,
    ));
}

/// What reading gives until no more frame comes out: the texts, how many bytes are awaited then,
/// what stays in the buffer, and whether a call was refused.
#[verifier::opaque]
pub open spec fn drained(awaited: nat, input: Seq<u8>) -> (Seq<Seq<char>>, nat, Seq<u8>, bool)
    decreases input.len(),
{
    let step = decode_step(awaited, input);
    match step.outcome {
        Outcome::Text(text) => if step.rest.len() < input.len() {
            let (texts, after, rest, refused) = drained(step.awaited, step.rest);
            (seq![text] + texts, after, rest, refused)
        } else {
            (seq![text], step.awaited, step.rest, false)
        },
        Outcome::Nothing => (Seq::empty(), step.awaited, step.rest, false),
        Outcome::Failed(_) => (Seq::empty(), step.awaited, step.rest, true),
    }
}

/// What a stream gives that comes in parts, each of which is put behind what the buffer holds and
/// then read as far as it goes: the texts, what stays in the buffer, and whether a call was refused.
pub open spec fn received(awaited: nat, held: Seq<u8>, parts: Seq<Seq<u8>>) -> (
    Seq<Seq<char>>,
    Seq<u8>,
    bool,
)
    decreases parts.len(),
{
    if parts.len() == 0 {
        (Seq::empty(), held, false)
    } else {
        let (texts, after, rest, refused) = drained(awaited, held + parts[0]);
        let (later, end, refused_later) = received(after, rest, parts.skip(1));
        (texts + later, end, refused || refused_later)
    }
}

/// Whether every text can be sent in a frame.
pub open spec fn sendable(texts: Seq<Seq<char>>) -> bool {
    forall|i: int|
        0 <= i < texts.len() ==> 0 < (#[trigger] texts[i]).len() && encode_utf8(texts[i]).len()
            <= usize::MAX
}

/// However a conversation is cut into parts on its way, and into however many, its texts come out,
/// each once and in its order, no call is refused, and nothing stays behind.
pub proof fn law_any_cut_is_delivered(texts: Seq<Seq<char>>, parts: Seq<Seq<u8>>)
    requires
        sendable(texts),
        parts.flatten() == frames(texts),
    ensures
        received(0, Seq::empty(), parts) == (texts, Seq::<u8>::empty(), false),
{
    assert(Seq::<u8>::empty() + parts.flatten() =~= frames(texts));
    if texts.len() > 0 {
        assert(texts[0].len() > 0);
        lemma_frame_is_long(texts[0]);
    }
    lemma_received(texts, 0, Seq::empty(), parts);
}

/// A frame is longer than the first field of its header.
proof fn lemma_frame_is_long(text: Seq<char>)
    requires
        text.len() > 0,
    ensures
        frame(text).len() > 16,
{
    lemma_words();
}

/// What a state awaits is no more than the frame that it stands in.
spec fn on_the_way(texts: Seq<Seq<char>>, awaited: nat, held: Seq<u8>) -> bool {
    texts.len() > 0 ==> awaited <= frame(texts[0]).len() && held.len() < frame(texts[0]).len()
}

/// A frame at the front comes out first, and then what the rest gives.
proof fn lemma_frame_drains(text: Seq<char>, awaited: nat, more: Seq<u8>)
    requires
        text.len() > 0,
        encode_utf8(text).len() <= usize::MAX,
        awaited <= frame(text).len(),
    ensures
        drained(awaited, frame(text) + more) == ({
            let (texts, after, rest, refused) = drained(0, more);
            (seq![text] + texts, after, rest, refused)
        }),
{
    reveal(drained);
    lemma_frame_is_long(text);
    law_frame_round_trip(text, more, awaited);
}

/// A part of a frame stays where it is.
proof fn lemma_part_stays(text: Seq<char>, awaited: nat, have: nat)
    requires
        text.len() > 0,
        encode_utf8(text).len() <= usize::MAX,
        awaited <= frame(text).len(),
        have < frame(text).len(),
    ensures
        ({
            let input = frame(text).take(have as int);
            let (texts, after, rest, refused) = drained(awaited, input);
            texts.len() == 0 && after <= frame(text).len() && rest == input && !refused
        }),
{
    reveal(drained);
    law_partial_frame_waits(text, have);
}

proof fn lemma_drained(texts: Seq<Seq<char>>, awaited: nat, input: Seq<u8>, later: Seq<u8>)
    requires
        sendable(texts),
        input + later == frames(texts),
        texts.len() > 0 ==> awaited <= frame(texts[0]).len(),
    ensures
        ({
            let (out, after, rest, refused) = drained(awaited, input);
            let remaining = texts.skip(out.len() as int);
            &&& out.len() <= texts.len()
            &&& out == texts.take(out.len() as int)
            &&& rest + later == frames(remaining)
            &&& on_the_way(remaining, after, rest)
            &&& !refused
        }),
    decreases texts.len(),
{
    if texts.len() == 0 {
        assert(input =~= Seq::<u8>::empty());
        lemma_empty_waits(awaited);
        assert(texts.skip(0) =~= texts);
        assert(texts.take(0) =~= Seq::<Seq<char>>::empty());
    } else {
        let first = frame(texts[0]);
        let tail = texts.skip(1);
        assert(texts[0].len() > 0);
        assert(frames(texts) == first + frames(tail));
        if input.len() >= first.len() {
            let more = input.skip(first.len() as int);
            assert(input.take(first.len() as int) =~= (input + later).take(first.len() as int));
            assert((first + frames(tail)).take(first.len() as int) =~= first);
            assert(input =~= first + more);
            assert(more + later =~= (input + later).skip(first.len() as int));
            assert((first + frames(tail)).skip(first.len() as int) =~= frames(tail));
            assert forall|i: int| 0 <= i < tail.len() implies 0 < (#[trigger] tail[i]).len()
                && encode_utf8(tail[i]).len() <= usize::MAX by {
                assert(tail[i] == texts[i + 1]);
            }
            lemma_frame_drains(texts[0], awaited, more);
            lemma_drained(tail, 0, more, later);
            let out = drained(0, more).0;
            let whole = drained(awaited, input).0;
            assert(whole =~= texts.take(whole.len() as int)) by {
                assert(tail.take(out.len() as int) =~= texts.subrange(1, 1 + out.len() as int));
            }
            assert(texts.skip(whole.len() as int) =~= tail.skip(out.len() as int));
        } else {
            assert(input =~= (input + later).take(input.len() as int));
            assert((first + frames(tail)).take(input.len() as int) =~= first.take(
                input.len() as int,
            ));
            lemma_part_stays(texts[0], awaited, input.len());
            let out = drained(awaited, input).0;
            assert(texts.skip(0) =~= texts);
            assert(out =~= texts.take(0));
        }
    }
}

/// An empty buffer gives nothing and stays empty.
proof fn lemma_empty_waits(awaited: nat)
    ensures
        drained(awaited, Seq::empty()).0 == Seq::<Seq<char>>::empty(),
        drained(awaited, Seq::empty()).2 == Seq::<u8>::empty(),
        !drained(awaited, Seq::empty()).3,
{
    reveal(drained);
    lemma_words();
    let input = Seq::<u8>::empty();
    let field = word("Content-Length: "@);
    assert(input.skip(0).take(0) =~= field.take(0));
}

proof fn lemma_received(texts: Seq<Seq<char>>, awaited: nat, held: Seq<u8>, parts: Seq<Seq<u8>>)
    requires
        sendable(texts),
        held + parts.flatten() == frames(texts),
        on_the_way(texts, awaited, held),
    ensures
        received(awaited, held, parts) == (texts, Seq::<u8>::empty(), false),
    decreases parts.len(),
{
    if parts.len() == 0 {
        assert(held + parts.flatten() =~= held);
        if texts.len() > 0 {
            assert(frames(texts).len() >= frame(texts[0]).len());
        }
        assert(texts =~= Seq::<Seq<char>>::empty());
        assert(held =~= Seq::<u8>::empty());
    } else {
        let later = parts.drop_first().flatten();
        assert(parts.skip(1) =~= parts.drop_first());
        assert(parts.flatten() == parts.first() + later);
        assert((held + parts[0]) + later =~= held + parts.flatten());
        lemma_drained(texts, awaited, held + parts[0], later);
        let (out, after, rest, _) = drained(awaited, held + parts[0]);
        let remaining = texts.skip(out.len() as int);
        assert forall|i: int| 0 <= i < remaining.len() implies 0 < (#[trigger] remaining[i]).len()
            && encode_utf8(remaining[i]).len() <= usize::MAX by {
            assert(remaining[i] == texts[i + out.len()]);
        }
        lemma_received(remaining, after, rest, parts.skip(1));
        assert(out + remaining =~= texts);
    }
}

} // verus!
