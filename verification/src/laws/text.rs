//! Numerals, words, separators and paths.
use vstd::prelude::*;
use vstd::utf8::{encode_utf8, valid_utf8};
use crate::paths::{file_name, final_component, join, last_piece_len};
use crate::text::numerals::{
    all_digits,
    decimal,
    decimal_string,
    digit_char,
    digits_value,
    is_digit,
    lemma_decimal_is_read_back,
    lemma_decimal_utf8,
    lemma_digit_count,
    number_of_digits,
    parse_unsigned,
    read_digits,
};
use crate::text::scan::{
    find_word,
    lemma_occurrence,
    lemma_run,
    lemma_run_items,
    run,
    stands_at,
    tail,
    word_at,
};
use crate::text::unicode::utf8_text;
use crate::text::words::{
    equal_to,
    is_space,
    is_whitespace,
    other_than,
    split_halves,
    split_whitespace,
    texts,
    trim,
    trim_start_matches,
    trimmed,
    words,
};

verus! {

/// A numeral is made of the ten digits, starts with nought only for nought, and is read back as
/// the number wherever the number is allowed.
pub proof fn law_numerals_are_read_back(n: u64, text: String, bytes: &[u8], max: u64, read: Option<u64>)
    requires
        call_ensures(decimal_string, (n,), text),
        bytes@ == encode_utf8(text@),
        call_ensures(parse_unsigned, (bytes, max), read),
    ensures
        read == (if n <= max {
            Some(n)
        } else {
            None
        }),
        text@.len() > 0,
        forall|i: int| 0 <= i < text@.len() ==> '0' <= #[trigger] text@[i] <= '9',
        text@[0] == '0' ==> n == 0 && text@.len() == 1,
{
    lemma_decimal_is_read_back(n as nat);
    lemma_digits_of(n as nat);
}

/// The digits of a numeral, of which only nought's starts with nought.
pub proof fn lemma_digits_of(n: nat)
    ensures
        decimal(n).len() > 0,
        forall|i: int| 0 <= i < decimal(n).len() ==> '0' <= #[trigger] decimal(n)[i] <= '9',
        decimal(n)[0] == '0' ==> n == 0 && decimal(n).len() == 1,
    decreases n,
{
    let digit = digit_char(n % 10);
    assert(48 <= digit as int <= 57);
    if n >= 10 {
        lemma_digits_of(n / 10);
        assert(decimal(n)[0] == decimal(n / 10)[0]);
    }
    assert forall|i: int| 0 <= i < decimal(n).len() implies '0' <= #[trigger] decimal(n)[i]
        <= '9' by {
        if n >= 10 && i < decimal(n).len() - 1 {
            assert(decimal(n)[i] == decimal(n / 10)[i]);
        } else {
            assert(decimal(n)[i] == digit);
        }
    }
}

/// One more digit makes a number ten times as large and adds the digit; what no longer fits is no
/// number.
pub proof fn law_digits_count_in_tens(
    front: &[u8],
    digit: u8,
    whole: &[u8],
    max: u64,
    value: u64,
    read: Option<u64>,
)
    requires
        call_ensures(parse_unsigned, (front, u64::MAX), Some(value)),
        48 <= digit <= 57,
        whole@ == front@.push(digit),
        call_ensures(parse_unsigned, (whole, max), read),
    ensures
        read == (if value * 10 + (digit - 48) <= max {
            Some((value * 10 + (digit - 48)) as u64)
        } else {
            None
        }),
{
    let (f, w) = (front@, whole@);
    let signed = f.len() > 0 && f[0] == 43u8;
    let (fb, wb) = if signed {
        (f.skip(1), w.skip(1))
    } else {
        (f, w)
    };
    assert(w[0] == f[0]);
    assert(wb =~= fb.push(digit));
    assert(wb.drop_last() =~= fb);
    assert forall|i: int| 0 <= i < wb.len() implies is_digit(#[trigger] wb[i]) by {
        if i < fb.len() {
            assert(is_digit(fb[i]));
        }
    }
}

/// One digit is its own value, with a plus sign in front of it or without.
pub proof fn law_single_digits(bytes: &[u8], digit: u8, read: Option<u64>)
    requires
        48 <= digit <= 57,
        bytes@ == seq![digit] || bytes@ == seq![43u8, digit],
        call_ensures(parse_unsigned, (bytes, u64::MAX), read),
    ensures
        read == Some((digit - 48) as u64),
{
    let s = bytes@;
    let body = seq![digit];
    if s == seq![43u8, digit] {
        assert(s[0] == 43);
        assert(s.skip(1) =~= body);
    } else {
        assert(s[0] == digit);
    }
    assert(is_digit(body[0]));
    assert(body.drop_last() =~= Seq::<u8>::empty());
    assert(digits_value(body.drop_last()) == 0);
    assert(digits_value(body) == (digit - 48) as nat);
}

/// Nothing, a plus sign alone, and anything with another character in it is no number.
pub proof fn law_no_number_without_digits(bytes: &[u8], at: int, max: u64, read: Option<u64>)
    requires
        bytes@.len() == 0 || bytes@ == seq![43u8] || (0 <= at < bytes@.len() && !(48 <= bytes@[at]
            <= 57) && (at > 0 || bytes@[at] != 43)),
        call_ensures(parse_unsigned, (bytes, max), read),
    ensures
        read is None,
{
    let s = bytes@;
    if s.len() > 0 && s != seq![43u8] {
        if s[0] == 43u8 {
            assert(s.skip(1)[at - 1] == s[at]);
            assert(!is_digit(s.skip(1)[at - 1]));
        } else {
            assert(!is_digit(s[at]));
        }
    } else if s.len() > 0 {
        assert(s[0] == 43);
        assert(s.skip(1).len() == 0);
    }
}

/// As many digits are counted as the numeral has, and none for nought.
pub proof fn law_digits_are_counted(n: usize, count: usize, text: String)
    requires
        call_ensures(number_of_digits, (n,), count),
        call_ensures(decimal_string, (n as u64,), text),
    ensures
        n == 0 ==> count == 0,
        n > 0 ==> count == text@.len(),
{
    if n > 0 {
        lemma_digit_count(n as nat);
        lemma_decimal_utf8(n as nat);
        vstd::utf8::is_ascii_chars_encode_utf8(text@);
    }
}

/// The last items of a sequence are all of it, or that many from its end.
pub proof fn law_tail_is_the_end<T>(s: Seq<T>, n: nat)
    ensures
        tail(s, n).len() == (if s.len() <= n {
            s.len()
        } else {
            n
        }),
        forall|i: int|
            0 <= i < tail(s, n).len() ==> #[trigger] tail(s, n)[i] == s[s.len() - tail(s, n).len()
                + i],
{
}

/// A text that is nothing but white space has no words.
pub proof fn law_blank_has_no_words(text: &str, list: Vec<String>)
    requires
        call_ensures(split_whitespace, (text,), list),
        forall|i: int| 0 <= i < text@.len() ==> is_space(#[trigger] text@[i]),
    ensures
        list@.len() == 0,
{
    lemma_blank(text@);
    assert(texts(list@).len() == list@.len());
}

/// A text that has no words is nothing but white space.
pub proof fn lemma_blank(s: Seq<char>)
    ensures
        words(s).len() == 0 <==> forall|i: int| 0 <= i < s.len() ==> is_space(#[trigger] s[i]),
    decreases s.len(),
{
    if s.len() > 0 {
        if is_space(s[0]) {
            let rest = s.skip(1);
            lemma_blank(rest);
            if words(s).len() == 0 {
                assert forall|i: int| 0 <= i < s.len() implies is_space(#[trigger] s[i]) by {
                    if i > 0 {
                        assert(rest[i - 1] == s[i]);
                    }
                }
            } else {
                let i = choose|i: int| 0 <= i < rest.len() && !is_space(#[trigger] rest[i]);
                assert(!is_space(s[i + 1]));
            }
        } else {
            assert(words(s).len() > 0);
            assert(!is_space(s[0]));
        }
    }
}

/// A text without white space is one word.
pub proof fn law_one_word(text: &str, list: Vec<String>)
    requires
        call_ensures(split_whitespace, (text,), list),
        text@.len() > 0,
        forall|i: int| 0 <= i < text@.len() ==> !is_space(#[trigger] text@[i]),
    ensures
        list@.len() == 1,
        list@[0]@ == text@,
{
    lemma_one_word(text@);
    assert(texts(list@)[0] == list@[0]@);
}

/// A text without white space is one word.
pub proof fn lemma_one_word(s: Seq<char>)
    requires
        s.len() > 0,
        forall|i: int| 0 <= i < s.len() ==> !is_space(#[trigger] s[i]),
    ensures
        words(s) == seq![s],
{
    lemma_run(s, |c: char| !is_space(c), s.len());
    assert(!is_space(s[0]));
    assert(s.take(s.len() as int) =~= s);
    let rest = s.skip(s.len() as int);
    assert(words(rest).len() == 0);
    assert(words(s) =~= seq![s]);
}

/// White space parts words: the words of two texts with white space between them are the words of
/// the one and then of the other.
pub proof fn law_white_space_parts_words(
    first: &str,
    space: char,
    second: &str,
    whole: &str,
    a: Vec<String>,
    b: Vec<String>,
    list: Vec<String>,
)
    requires
        is_space(space),
        whole@ == first@.push(space) + second@,
        call_ensures(split_whitespace, (first,), a),
        call_ensures(split_whitespace, (second,), b),
        call_ensures(split_whitespace, (whole,), list),
    ensures
        texts(list@) == texts(a@) + texts(b@),
{
    lemma_words_join(first@, space, second@);
}

/// White space parts words.
pub proof fn lemma_words_join(a: Seq<char>, space: char, b: Seq<char>)
    requires
        is_space(space),
    ensures
        words(a.push(space) + b) == words(a) + words(b),
    decreases a.len(),
{
    let whole = a.push(space) + b;
    let p = |c: char| !is_space(c);
    if a.len() == 0 {
        assert(whole[0] == space);
        assert(whole.skip(1) =~= b);
        assert(words(a) + words(b) =~= words(b));
    } else if is_space(a[0]) {
        let rest = a.skip(1);
        assert(whole[0] == a[0]);
        assert(whole.skip(1) =~= rest.push(space) + b);
        lemma_words_join(rest, space, b);
    } else {
        lemma_run_items(a, p);
        let n = run(a, p);
        assert(n > 0);
        let rest = a.skip(n as int);
        assert(whole[0] == a[0]);
        assert forall|i: int| 0 <= i < n implies p(#[trigger] whole[i]) by {
            assert(p(a[i]));
            assert(whole[i] == a[i]);
        }
        if n < a.len() {
            assert(whole[n as int] == a[n as int]);
        } else {
            assert(whole[n as int] == space);
        }
        lemma_run(whole, p, n);
        assert(whole.take(n as int) =~= a.take(n as int));
        assert(whole.skip(n as int) =~= rest.push(space) + b);
        lemma_words_join(rest, space, b);
        assert(words(whole) =~= words(a) + words(b));
    }
}

/// Trimming takes off white space at both ends, all of it, and nothing else.
pub proof fn law_trim_takes_white_space(text: &str, inner: &str)
    requires
        call_ensures(trim, (text,), inner),
    ensures
        exists|from: int, to: int|
            0 <= from <= to <= text@.len() && inner@ == #[trigger] text@.subrange(from, to) && (
            forall|i: int|
                (0 <= i < from || to <= i < text@.len()) ==> is_space(#[trigger] text@[i])),
        inner@.len() > 0 ==> !is_space(inner@[0]) && !is_space(inner@.last()),
{
    lemma_trimmed(text@);
}

proof fn lemma_trimmed(s: Seq<char>) -> (bounds: (int, int))
    ensures
        ({
            let (from, to) = bounds;
            let inner = trimmed(s);
            &&& 0 <= from <= to <= s.len()
            &&& inner == s.subrange(from, to)
            &&& forall|i: int|
                (0 <= i < from || to <= i < s.len()) ==> is_space(#[trigger] s[i])
            &&& inner.len() > 0 ==> !is_space(inner[0]) && !is_space(inner.last())
        }),
    decreases s.len(),
{
    if s.len() == 0 {
        assert(s.subrange(0, 0) =~= s);
        (0, 0)
    } else if is_space(s[0]) {
        let rest = s.skip(1);
        let (from, to) = lemma_trimmed(rest);
        assert(rest.subrange(from, to) =~= s.subrange(from + 1, to + 1));
        assert forall|i: int|
            (0 <= i < from + 1 || to + 1 <= i < s.len()) implies is_space(#[trigger] s[i]) by {
            if i > 0 {
                assert(rest[i - 1] == s[i]);
            }
        }
        (from + 1, to + 1)
    } else if is_space(s.last()) {
        let rest = s.drop_last();
        let (from, to) = lemma_trimmed(rest);
        assert(rest.subrange(from, to) =~= s.subrange(from, to));
        assert forall|i: int|
            (0 <= i < from || to <= i < s.len()) implies is_space(#[trigger] s[i]) by {
            if i < s.len() - 1 {
                assert(rest[i] == s[i]);
            }
        }
        (from, to)
    } else {
        assert(s.subrange(0, s.len() as int) =~= s);
        (0, s.len() as int)
    }
}

/// The letters at the front are taken off, all of them, and nothing else.
pub proof fn law_leading_letters_are_taken_off(text: &str, c: char, rest: &str)
    requires
        call_ensures(trim_start_matches, (text, c), rest),
    ensures
        exists|n: int|
            0 <= n <= text@.len() && rest@ == #[trigger] text@.skip(n) && (forall|i: int|
                0 <= i < n ==> #[trigger] text@[i] == c),
        rest@.len() > 0 ==> rest@[0] != c,
{
    let p = equal_to(c);
    lemma_run_items(text@, p);
    let n = run(text@, p) as int;
    assert(rest@ == text@.skip(n));
    assert forall|i: int| 0 <= i < n implies #[trigger] text@[i] == c by {
        assert(p(text@[i]));
    }
    if rest@.len() > 0 {
        assert(rest@[0] == text@[n]);
        assert(!p(text@[n]));
    }
}

/// A text falls into two halves exactly where the separator stands in it once; the halves are what
/// stands before it and behind it.
pub proof fn law_halves_join(
    text: &str,
    separator: char,
    pair: Option<(&str, &str)>,
    left: Seq<char>,
    right: Seq<char>,
)
    requires
        call_ensures(split_halves, (text, separator), pair),
    ensures
        pair matches Some((a, b)) ==> text@ == a@.push(separator) + b@ && !a@.contains(separator)
            && !b@.contains(separator),
        text@ == left.push(separator) + right && !left.contains(separator) && !right.contains(
            separator,
        ) ==> (pair matches Some((a, b)) && a@ == left && b@ == right),
{
    let s = text@;
    let p = other_than(separator);
    lemma_run_items(s, p);
    let n = run(s, p) as int;
    if let Some((a, b)) = pair {
        assert(s[n] == separator);
        assert(s =~= a@.push(separator) + b@);
        assert forall|i: int| 0 <= i < a@.len() implies #[trigger] a@[i] != separator by {
            assert(p(s[i]));
        }
    }
    if s == left.push(separator) + right && !left.contains(separator) && !right.contains(
        separator,
    ) {
        assert forall|i: int| 0 <= i < left.len() implies p(#[trigger] s[i]) by {
            assert(left[i] == s[i]);
            assert(left.contains(left[i]));
        }
        assert(s[left.len() as int] == separator);
        lemma_run(s, p, left.len());
        assert(s.skip(n + 1) =~= right);
        assert(s.take(n) =~= left);
    }
}

/// A word is found at the first place at which it stands in full.
pub proof fn law_first_place_is_found(s: &[u8], word: &[u8], at: Option<usize>)
    requires
        word@.len() > 0,
        call_ensures(find_word, (s, word), at),
    ensures
        at matches Some(i) ==> i + word@.len() <= s@.len() && s@.subrange(
            i as int,
            i + word@.len(),
        ) == word@,
        forall|j: int|
            0 <= j && j + word@.len() <= s@.len() && (at matches Some(i) ==> j < i) ==> #[trigger]
                s@.subrange(j, j + word@.len()) != word@,
{
    lemma_occurrence(s@, word@);
    assert forall|j: int|
        0 <= j && j + word@.len() <= s@.len() && (at matches Some(i) ==> j < i) implies #[trigger]
        s@.subrange(j, j + word@.len()) != word@ by {
        assert(!word_at(s@, j, word@));
    }
}

/// Bytes are read as text exactly where they are UTF-8, and the text has those bytes.
pub proof fn law_text_has_its_bytes(bytes: &[u8], text: Option<String>)
    requires
        call_ensures(utf8_text, (bytes,), text),
    ensures
        text is Some <==> valid_utf8(bytes@),
        text matches Some(t) ==> encode_utf8(t@) == bytes@,
{
}

/// A part that is taken from a directory stands behind it, with one separator between them; an
/// absolute part stands alone.
pub proof fn law_parts_are_taken_from_directories(base: &[u8], part: &[u8], path: Vec<u8>)
    requires
        call_ensures(join, (base, part), path),
    ensures
        part@.len() > 0 && part@[0] == 47 ==> path@ == part@,
        !(part@.len() > 0 && part@[0] == 47) && base@.len() > 0 && base@.last() != 47 ==> path@
            == base@ + seq![47u8] + part@,
        !(part@.len() > 0 && part@[0] == 47) && (base@.len() == 0 || base@.last() == 47) ==> path@
            == base@ + part@,
{
    assert(base@.push(47) =~= base@ + seq![47u8]);
}

/// The name at the end of a path is what stands behind its last separator.
pub proof fn law_name_is_behind_the_last_separator(
    dir: Seq<u8>,
    name: Seq<u8>,
    path: &[u8],
    found: Option<&[u8]>,
)
    requires
        call_ensures(file_name, (path,), found),
        path@ == dir.push(47) + name || path@ == name,
        name.len() > 0,
        forall|i: int| 0 <= i < name.len() ==> #[trigger] name[i] != 47,
        name != seq![46u8],
        name != seq![46u8, 46u8],
    ensures
        found matches Some(n) && n@ == name,
{
    lemma_name_at_end(path@, dir, name);
}

/// The name at the end of a path is what stands behind its last separator.
pub proof fn lemma_name_at_end(path: Seq<u8>, dir: Seq<u8>, name: Seq<u8>)
    requires
        path == dir.push(47) + name || path == name,
        name.len() > 0,
        forall|i: int| 0 <= i < name.len() ==> #[trigger] name[i] != 47,
        name != seq![46u8],
        name != seq![46u8, 46u8],
    ensures
        final_component(path) == Some(name),
{
    let front = if path == name {
        Seq::<u8>::empty()
    } else {
        dir.push(47)
    };
    assert(path =~= front + name);
    lemma_piece(front, name);
    assert(path.skip(path.len() - name.len()) =~= name);
}

/// A separator at the end of a path changes nothing about its name, nor does `.` behind it.
pub proof fn law_separators_at_the_end_do_not_count(
    path: &[u8],
    longer: &[u8],
    name: Option<&[u8]>,
    found: Option<&[u8]>,
)
    requires
        call_ensures(file_name, (path,), name),
        call_ensures(file_name, (longer,), found),
        longer@ == path@.push(47) || longer@ == path@.push(47).push(46),
    ensures
        name is Some <==> found is Some,
        name matches Some(n) ==> (found matches Some(f) && f@ == n@),
{
    let s = longer@;
    if s == path@.push(47) {
        assert(s.last() == 47);
        assert(s.skip(s.len() as int) =~= Seq::<u8>::empty());
        assert(s.take(s.len() - 0 - 1) =~= path@);
    } else {
        let dot = seq![46u8];
        assert(s =~= path@.push(47) + dot);
        lemma_piece(path@.push(47), dot);
        assert(s.skip(s.len() - 1) =~= dot);
        assert(s.take(s.len() - 1 - 1) =~= path@);
    }
}

/// A path that ends in `..` has no name.
pub proof fn law_the_directory_above_has_no_name(dir: Seq<u8>, path: &[u8], found: Option<&[u8]>)
    requires
        call_ensures(file_name, (path,), found),
        path@ == dir.push(47) + seq![46u8, 46u8] || path@ == seq![46u8, 46u8],
    ensures
        found is None,
{
    let dots = seq![46u8, 46u8];
    let front = if path@ == dots {
        Seq::<u8>::empty()
    } else {
        dir.push(47)
    };
    assert(path@ =~= front + dots);
    lemma_piece(front, dots);
    let piece = path@.skip(path@.len() - 2);
    assert(piece =~= dots);
    assert(piece.len() != seq![46u8].len());
}

proof fn lemma_piece(front: Seq<u8>, name: Seq<u8>)
    requires
        front.len() == 0 || front.last() == 47,
        forall|i: int| 0 <= i < name.len() ==> #[trigger] name[i] != 47,
    ensures
        last_piece_len(front + name) == name.len(),
    decreases name.len(),
{
    let whole = front + name;
    if name.len() == 0 {
        assert(whole =~= front);
    } else {
        assert(whole.last() == name.last());
        assert(whole.drop_last() =~= front + name.drop_last());
        assert forall|i: int| 0 <= i < name.len() - 1 implies #[trigger] name.drop_last()[i]
            != 47 by {
            assert(name[i] != 47);
        }
        assert(name[name.len() - 1] != 47);
        lemma_piece(front, name.drop_last());
    }
}

/// White space are the blanks and breaks of ASCII, and the wider ones of Unicode, and nothing else.
pub proof fn law_white_space_is_blanks_and_breaks(c: char, space: bool)
    requires
        call_ensures(is_whitespace, (c,), space),
    ensures
        (c as u32) < 128 ==> (space <==> c == ' ' || c == '\t' || c == '\n' || c == '\u{b}' || c
            == '\u{c}' || c == '\r'),
        128 <= c as u32 ==> (space <==> set![
            0x85u32,
            0xa0u32,
            0x1680u32,
            0x2000u32,
            0x2001u32,
            0x2002u32,
            0x2003u32,
            0x2004u32,
            0x2005u32,
            0x2006u32,
            0x2007u32,
            0x2008u32,
            0x2009u32,
            0x200au32,
            0x2028u32,
            0x2029u32,
            0x202fu32,
            0x205fu32,
            0x3000u32,
        ].contains(c as u32)),
{
}

/// A word stands at a place exactly where each of its bytes does.
pub proof fn law_words_stand_byte_by_byte(s: &[u8], at: usize, w: &[u8], found: bool)
    requires
        call_ensures(stands_at, (s, at, w), found),
    ensures
        found <==> at + w@.len() <= s@.len() && forall|i: int|
            0 <= i < w@.len() ==> s@[at + i] == #[trigger] w@[i],
{
    if at + w@.len() <= s@.len() {
        let part = s@.subrange(at as int, at + w@.len());
        if found {
            assert forall|i: int| 0 <= i < w@.len() implies s@[at + i] == #[trigger] w@[i] by {
                assert(part[i] == w@[i]);
            }
        }
        if forall|i: int| 0 <= i < w@.len() ==> s@[at + i] == #[trigger] w@[i] {
            assert(part =~= w@);
        }
    }
}

/// Digits are read as the number that they are read as where a sign may stand in front of them.
pub proof fn law_digits_are_a_number_without_a_sign(
    s: &[u8],
    max: u64,
    digits: Option<u64>,
    number: Option<u64>,
)
    requires
        s@.len() > 0,
        forall|i: int| 0 <= i < s@.len() ==> 48 <= #[trigger] s@[i] <= 57,
        call_ensures(read_digits, (s, max), digits),
        call_ensures(parse_unsigned, (s, max), number),
    ensures
        digits == number,
{
    assert(all_digits(s@));
}

} // verus!
