//! The header of a language server message, read from a buffer that may still be filling.
//!
//! A message is `Content-Length: `, a decimal number and a line break, then an optional content
//! type line, then an empty line, then that many bytes. Every rule below looks at the bytes from
//! a position on and gives one of three answers: it matched up to a later position, it needs more
//! bytes before it can tell, or it failed.
use vstd::prelude::*;
use crate::text::numerals::{all_digits, digits_value, is_digit, read_digits};
use crate::text::scan::{find_word, first_occurrence, lemma_run, lemma_run_items, run};

verus! {

/// Why the bytes of a header were refused.
#[derive(Clone, Copy, Debug, PartialEq, Eq, Structural)]
pub enum HeaderFault {
    /// A fixed word was expected and something else stands there.
    Tag,
    /// A digit was expected.
    Digit,
    /// A line break was expected.
    LineBreak,
    /// A particular character was expected.
    Char,
    /// The media type is empty.
    MediaType,
    /// The length does not fit in the machine's word.
    Length,
}

/// The answer of one rule; positions and counts are `usize` in code and `nat` in contracts.
#[derive(Debug)]
pub enum Step<N> {
    /// The rule matched, up to this position.
    Done(N),
    /// At least this many bytes are missing.
    Incomplete(N),
    /// The rule failed at this position.
    Fault(HeaderFault, N),
}

impl Step<usize> {
    /// The same answer over natural numbers.
    pub open spec fn view(self) -> Step<nat> {
        match self {
            Step::Done(at) => Step::Done(at as nat),
            Step::Incomplete(needed) => Step::Incomplete(needed as nat),
            Step::Fault(fault, at) => Step::Fault(fault, at as nat),
        }
    }
}

/// What a buffer holds at its front.
#[derive(Debug)]
pub enum Parsed<N> {
    /// A message whose body is the bytes from `start` up to `end`.
    Message { start: N, end: N },
    /// The beginning of a message, of which at least this many bytes are missing.
    Incomplete(N),
    /// No message: the header fails at `at`.
    Fault { fault: HeaderFault, at: N },
}

impl Parsed<usize> {
    /// The same answer over natural numbers.
    pub open spec fn view(self) -> Parsed<nat> {
        match self {
            Parsed::Message { start, end } => Parsed::Message { start: start as nat, end: end as nat },
            Parsed::Incomplete(needed) => Parsed::Incomplete(needed as nat),
            Parsed::Fault { fault, at } => Parsed::Fault { fault, at: at as nat },
        }
    }
}

/// The bytes of an ASCII word.
pub open spec fn word(text: Seq<char>) -> Seq<u8> {
    vstd::utf8::encode_utf8(text)
}

/// The fixed word `w` at `at`.
pub open spec fn tag_at(input: Seq<u8>, at: nat, w: Seq<u8>) -> Step<nat> {
    let rest = input.skip(at as int);
    let shared = if rest.len() < w.len() {
        rest.len()
    } else {
        w.len()
    };
    if rest.take(shared as int) != w.take(shared as int) {
        Step::Fault(HeaderFault::Tag, at)
    } else if rest.len() < w.len() {
        Step::Incomplete((w.len() - rest.len()) as nat)
    } else {
        Step::Done(at + w.len())
    }
}

/// A line break at `at`. Where half of it has come, two bytes are asked for.
pub open spec fn line_break_at(input: Seq<u8>, at: nat) -> Step<nat> {
    match tag_at(input, at, word("\r\n"@)) {
        Step::Done(end) => Step::Done(end),
        Step::Incomplete(_) => Step::Incomplete(2),
        Step::Fault(_, p) => Step::Fault(HeaderFault::LineBreak, p),
    }
}

/// As many bytes that satisfy `p` as there are from `at` on; the byte behind them must have come.
pub open spec fn run_at(input: Seq<u8>, at: nat, p: spec_fn(u8) -> bool) -> Step<nat> {
    let count = run(input.skip(at as int), p);
    if at + count >= input.len() {
        Step::Incomplete(1)
    } else {
        Step::Done(at + count)
    }
}

/// Such a run that is not empty.
pub open spec fn run1_at(
    input: Seq<u8>,
    at: nat,
    p: spec_fn(u8) -> bool,
    fault: HeaderFault,
) -> Step<nat> {
    match run_at(input, at, p) {
        Step::Done(end) => if end == at {
            Step::Fault(fault, at)
        } else {
            Step::Done(end)
        },
        other => other,
    }
}

/// The one byte `c` at `at`.
pub open spec fn char_at(input: Seq<u8>, at: nat, c: u8) -> Step<nat> {
    if at >= input.len() {
        Step::Incomplete(1)
    } else if input[at as int] == c {
        Step::Done(at + 1)
    } else {
        Step::Fault(HeaderFault::Char, at)
    }
}

/// A rule that may fail without harm: then nothing is consumed.
pub open spec fn optional(step: Step<nat>, at: nat) -> Step<nat> {
    match step {
        Step::Fault(_, _) => Step::Done(at),
        other => other,
    }
}

/// A byte of a media type: anything but a semicolon or a carriage return.
pub open spec fn is_media_byte(b: u8) -> bool {
    b != 59 && b != 13
}

/// A space or a tab.
pub open spec fn is_blank(b: u8) -> bool {
    b == 32 || b == 9
}

/// `utf-8` or `utf8` at `at`.
pub open spec fn utf8_name_at(input: Seq<u8>, at: nat) -> Step<nat> {
    match tag_at(input, at, word("utf-8"@)) {
        Step::Fault(_, _) => tag_at(input, at, word("utf8"@)),
        other => other,
    }
}

/// `; charset=utf-8` at `at`, with any blanks behind the semicolon.
pub open spec fn charset_at(input: Seq<u8>, at: nat) -> Step<nat> {
    match char_at(input, at, 59) {
        Step::Done(p1) => match run_at(input, p1, |b: u8| is_blank(b)) {
            Step::Done(p2) => match tag_at(input, p2, word("charset="@)) {
                Step::Done(p3) => utf8_name_at(input, p3),
                other => other,
            },
            other => other,
        },
        other => other,
    }
}

/// A content type line at `at`.
pub open spec fn content_type_at(input: Seq<u8>, at: nat) -> Step<nat> {
    match tag_at(input, at, word("Content-Type: "@)) {
        Step::Done(p1) => match run1_at(
            input,
            p1,
            |b: u8| is_media_byte(b),
            HeaderFault::MediaType,
        ) {
            Step::Done(p2) => match optional(charset_at(input, p2), p2) {
                Step::Done(p3) => line_break_at(input, p3),
                other => other,
            },
            other => other,
        },
        other => other,
    }
}

/// The content length line at the front; it matches up to the end of the digits.
pub open spec fn length_digits(input: Seq<u8>) -> Step<nat> {
    match tag_at(input, 0, word("Content-Length: "@)) {
        Step::Done(p1) => run1_at(input, p1, |b: u8| is_digit(b), HeaderFault::Digit),
        other => other,
    }
}

/// What follows the digits, up to the first byte of the body.
pub open spec fn header_rest_at(input: Seq<u8>, at: nat) -> Step<nat> {
    match line_break_at(input, at) {
        Step::Done(p1) => match optional(content_type_at(input, p1), p1) {
            Step::Done(p2) => line_break_at(input, p2),
            other => other,
        },
        other => other,
    }
}

/// The digits of the content length, where the length line matches up to `end`.
pub open spec fn length_field(input: Seq<u8>, end: nat) -> Seq<u8> {
    input.subrange(word("Content-Length: "@).len() as int, end as int)
}

/// What `input` holds at its front.
pub open spec fn parsed(input: Seq<u8>) -> Parsed<nat> {
    match length_digits(input) {
        Step::Incomplete(n) => Parsed::Incomplete(n),
        Step::Fault(fault, at) => Parsed::Fault { fault, at },
        Step::Done(end) => match header_rest_at(input, end) {
            Step::Incomplete(n) => Parsed::Incomplete(n),
            Step::Fault(fault, at) => Parsed::Fault { fault, at },
            Step::Done(start) => {
                let length = digits_value(length_field(input, end));
                let available = (input.len() - start) as nat;
                if length > usize::MAX {
                    Parsed::Fault { fault: HeaderFault::Length, at: 0 }
                } else if length > available {
                    Parsed::Incomplete((length - available) as nat)
                } else {
                    Parsed::Message { start, end: start + length }
                }
            },
        },
    }
}

fn match_tag(input: &[u8], at: usize, w: &[u8]) -> (step: Step<usize>)
    requires
        at <= input@.len(),
    ensures
        step.view() == tag_at(input@, at as nat, w@),
        step matches Step::Done(end) ==> end <= input@.len(),
{
    let have: usize = input.len() - at;
    let shared: usize = if have < w.len() {
        have
    } else {
        w.len()
    };
    let ghost rest = input@.skip(at as int);
    let mut i: usize = 0;
    while i < shared
        invariant
            at + have == input.len(),
            shared <= have,
            shared <= w@.len(),
            i <= shared,
            rest == input@.skip(at as int),
            forall|j: int| 0 <= j < i ==> rest[j] == #[trigger] w@[j],
            shared == (if rest.len() < w@.len() {
                rest.len()
            } else {
                w@.len()
            }),
        decreases shared - i,
    {
        if input[at + i] != w[i] {
            proof {
                assert(rest.take(shared as int)[i as int] != w@.take(shared as int)[i as int]);
            }
            return Step::Fault(HeaderFault::Tag, at);
        }
        i = i + 1;
    }
    assert(rest.take(shared as int) =~= w@.take(shared as int));
    if have < w.len() {
        Step::Incomplete(w.len() - have)
    } else {
        Step::Done(at + w.len())
    }
}

fn match_line_break(input: &[u8], at: usize) -> (step: Step<usize>)
    requires
        at <= input@.len(),
    ensures
        step.view() == line_break_at(input@, at as nat),
        step matches Step::Done(end) ==> end <= input@.len(),
{
    match match_tag(input, at, "\r\n".as_bytes()) {
        Step::Done(end) => Step::Done(end),
        Step::Incomplete(_) => Step::Incomplete(2),
        Step::Fault(_, p) => Step::Fault(HeaderFault::LineBreak, p),
    }
}

/// The three kinds of bytes that a header has runs of.
#[derive(Clone, Copy, PartialEq, Eq, Structural)]
enum ByteClass {
    Digit,
    Media,
    Blank,
}

spec fn in_class(class: ByteClass, b: u8) -> bool {
    match class {
        ByteClass::Digit => is_digit(b),
        ByteClass::Media => is_media_byte(b),
        ByteClass::Blank => is_blank(b),
    }
}

fn match_run(input: &[u8], at: usize, class: ByteClass) -> (step: Step<usize>)
    requires
        at <= input@.len(),
    ensures
        step.view() == run_at(input@, at as nat, |b: u8| in_class(class, b)),
        step matches Step::Done(end) ==> at <= end < input@.len(),
{
    let ghost rest = input@.skip(at as int);
    let ghost p = |b: u8| in_class(class, b);
    let mut i: usize = at;
    while i < input.len()
        invariant
            at <= i <= input@.len(),
            rest == input@.skip(at as int),
            p == (|b: u8| in_class(class, b)),
            forall|j: int| 0 <= j < i - at ==> p(#[trigger] rest[j]),
        decreases input@.len() - i,
    {
        let b: u8 = input[i];
        let inside = match class {
            ByteClass::Digit => 48 <= b && b <= 57,
            ByteClass::Media => b != 59 && b != 13,
            ByteClass::Blank => b == 32 || b == 9,
        };
        assert(rest[i - at] == b);
        if !inside {
            proof {
                lemma_run(rest, p, (i - at) as nat);
            }
            return Step::Done(i);
        }
        i = i + 1;
    }
    proof {
        lemma_run(rest, p, (i - at) as nat);
    }
    Step::Incomplete(1)
}

fn match_char(input: &[u8], at: usize, c: u8) -> (step: Step<usize>)
    requires
        at <= input@.len(),
    ensures
        step.view() == char_at(input@, at as nat, c),
        step matches Step::Done(end) ==> end <= input@.len(),
{
    if at >= input.len() {
        Step::Incomplete(1)
    } else if input[at] == c {
        Step::Done(at + 1)
    } else {
        Step::Fault(HeaderFault::Char, at)
    }
}

fn match_charset(input: &[u8], at: usize) -> (step: Step<usize>)
    requires
        at <= input@.len(),
    ensures
        step.view() == charset_at(input@, at as nat),
        step matches Step::Done(end) ==> end <= input@.len(),
{
    let p1: usize = match match_char(input, at, 59) {
        Step::Done(p) => p,
        other => return other,
    };
    assert((|b: u8| in_class(ByteClass::Blank, b)) =~= (|b: u8| is_blank(b)));
    let p2: usize = match match_run(input, p1, ByteClass::Blank) {
        Step::Done(p) => p,
        other => return other,
    };
    let p3: usize = match match_tag(input, p2, "charset=".as_bytes()) {
        Step::Done(p) => p,
        other => return other,
    };
    match match_tag(input, p3, "utf-8".as_bytes()) {
        Step::Fault(_, _) => match_tag(input, p3, "utf8".as_bytes()),
        other => other,
    }
}

fn match_content_type(input: &[u8], at: usize) -> (step: Step<usize>)
    requires
        at <= input@.len(),
    ensures
        step.view() == content_type_at(input@, at as nat),
        step matches Step::Done(end) ==> end <= input@.len(),
{
    let p1: usize = match match_tag(input, at, "Content-Type: ".as_bytes()) {
        Step::Done(p) => p,
        other => return other,
    };
    assert((|b: u8| in_class(ByteClass::Media, b)) =~= (|b: u8| is_media_byte(b)));
    let p2: usize = match match_run(input, p1, ByteClass::Media) {
        Step::Done(p) => p,
        other => return other,
    };
    if p2 == p1 {
        return Step::Fault(HeaderFault::MediaType, p1);
    }
    let p3: usize = match match_charset(input, p2) {
        Step::Done(p) => p,
        Step::Incomplete(n) => return Step::Incomplete(n),
        Step::Fault(_, _) => p2,
    };
    match_line_break(input, p3)
}

fn match_length_digits(input: &[u8]) -> (step: Step<usize>)
    ensures
        step.view() == length_digits(input@),
        step matches Step::Done(end) ==> {
            &&& word("Content-Length: "@).len() <= end <= input@.len()
            &&& all_digits(length_field(input@, end as nat))
        },
{
    let p1: usize = match match_tag(input, 0, "Content-Length: ".as_bytes()) {
        Step::Done(p) => p,
        other => return other,
    };
    assert((|b: u8| in_class(ByteClass::Digit, b)) =~= (|b: u8| is_digit(b)));
    let p2: usize = match match_run(input, p1, ByteClass::Digit) {
        Step::Done(p) => p,
        other => return other,
    };
    if p2 == p1 {
        return Step::Fault(HeaderFault::Digit, p1);
    }
    proof {
        let rest = input@.skip(p1 as int);
        let p = |b: u8| is_digit(b);
        lemma_run_items(rest, p);
        let field = length_field(input@, p2 as nat);
        assert forall|i: int| 0 <= i < field.len() implies is_digit(#[trigger] field[i]) by {
            assert(field[i] == rest[i]);
            assert(p(rest[i]));
        }
    }
    Step::Done(p2)
}

fn match_header_rest(input: &[u8], at: usize) -> (step: Step<usize>)
    requires
        at <= input@.len(),
    ensures
        step.view() == header_rest_at(input@, at as nat),
        step matches Step::Done(end) ==> end <= input@.len(),
{
    let p1: usize = match match_line_break(input, at) {
        Step::Done(p) => p,
        other => return other,
    };
    let p2: usize = match match_content_type(input, p1) {
        Step::Done(p) => p,
        Step::Incomplete(n) => return Step::Incomplete(n),
        Step::Fault(_, _) => p1,
    };
    match_line_break(input, p2)
}

/// Reads the message at the front of `input`.
pub fn parse_message(input: &[u8]) -> (result: Parsed<usize>)
    ensures
        result.view() == parsed(input@),
        result matches Parsed::Message { start, end } ==> start <= end <= input@.len(),
        result matches Parsed::Fault { fault, at } ==> at <= input@.len(),
{
    let end: usize = match match_length_digits(input) {
        Step::Done(p) => p,
        Step::Incomplete(n) => return Parsed::Incomplete(n),
        Step::Fault(fault, at) => return Parsed::Fault { fault, at },
    };
    let start: usize = match match_header_rest(input, end) {
        Step::Done(p) => p,
        Step::Incomplete(n) => return Parsed::Incomplete(n),
        Step::Fault(fault, at) => return Parsed::Fault { fault, at },
    };
    let first: usize = "Content-Length: ".as_bytes().len();
    let digits = vstd::slice::slice_subrange(input, first, end);
    match read_digits(digits, usize::MAX as u64) {
        None => Parsed::Fault { fault: HeaderFault::Length, at: 0 },
        Some(value) => {
            let length: usize = value as usize;
            let available: usize = input.len() - start;
            if length > available {
                Parsed::Incomplete(length - available)
            } else {
                Parsed::Message { start, end: start + length }
            }
        },
    }
}

/// Where the next header may start: the first place at which its opening word stands.
pub fn find_next_message(input: &[u8]) -> (at: Option<usize>)
    ensures
        at matches Some(i) ==> first_occurrence(input@, word("Content-Length"@)) == Some(i as int),
        at is None ==> first_occurrence(input@, word("Content-Length"@)) is None,
{
    proof {
        reveal_strlit("Content-Length");
        vstd::utf8::is_ascii_chars_encode_utf8("Content-Length"@);
    }
    find_word(input, "Content-Length".as_bytes())
}

} // verus!
