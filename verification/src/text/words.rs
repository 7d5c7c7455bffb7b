//! Words, white space and separators in text.
use vstd::prelude::*;
use crate::text::scan::{lemma_run, lemma_run_items, run};

verus! {

/// Whether `c` is white space: the characters with the Unicode property `White_Space`.
pub open spec fn is_space(c: char) -> bool {
    ||| '\u{9}' <= c <= '\u{d}'
    ||| c == '\u{20}'
    ||| c == '\u{85}'
    ||| c == '\u{a0}'
    ||| c == '\u{1680}'
    ||| '\u{2000}' <= c <= '\u{200a}'
    ||| c == '\u{2028}'
    ||| c == '\u{2029}'
    ||| c == '\u{202f}'
    ||| c == '\u{205f}'
    ||| c == '\u{3000}'
}

/// Whether `c` is white space.
pub fn is_whitespace(c: char) -> (space: bool)
    ensures
        space == is_space(c),
{
    ('\u{9}' <= c && c <= '\u{d}') || c == '\u{20}' || c == '\u{85}' || c == '\u{a0}' || c
        == '\u{1680}' || ('\u{2000}' <= c && c <= '\u{200a}') || c == '\u{2028}' || c == '\u{2029}'
        || c == '\u{202f}' || c == '\u{205f}' || c == '\u{3000}'
}

/// The words of a text: the longest stretches without white space, in their order.
pub open spec fn words(s: Seq<char>) -> Seq<Seq<char>>
    decreases s.len(),
{
    if s.len() == 0 {
        Seq::empty()
    } else if is_space(s[0]) {
        words(s.skip(1))
    } else {
        proof {
            lemma_run_items(s, |c: char| !is_space(c));
            lemma_word_starts(s);
        }
        let n = run(s, |c: char| !is_space(c));
        seq![s.take(n as int)] + words(s.skip(n as int))
    }
}

/// A text that does not start with white space starts with a word.
pub proof fn lemma_word_starts(s: Seq<char>)
    requires
        s.len() > 0,
        !is_space(s[0]),
    ensures
        run(s, |c: char| !is_space(c)) > 0,
{
}

/// A text without the white space at its two ends.
pub open spec fn trimmed(s: Seq<char>) -> Seq<char>
    decreases s.len(),
{
    if s.len() == 0 {
        s
    } else if is_space(s[0]) {
        trimmed(s.skip(1))
    } else if is_space(s.last()) {
        trimmed(s.drop_last())
    } else {
        s
    }
}

/// The test for the character `c`.
pub open spec fn equal_to(c: char) -> spec_fn(char) -> bool {
    |d: char| d == c
}

/// The test for any character but `c`.
pub open spec fn other_than(c: char) -> spec_fn(char) -> bool {
    |d: char| d != c
}

/// A text without the characters `c` at its front.
pub open spec fn without_leading(s: Seq<char>, c: char) -> Seq<char> {
    s.skip(run(s, equal_to(c)) as int)
}

/// The two sides of the one place at which `separator` stands, or nothing where it stands
/// nowhere or more than once.
pub open spec fn halves(s: Seq<char>, separator: char) -> Option<(Seq<char>, Seq<char>)> {
    let first = run(s, other_than(separator));
    if first >= s.len() || s.skip(first as int + 1).contains(separator) {
        None
    } else {
        Some((s.take(first as int), s.skip(first as int + 1)))
    }
}

/// The views of a list of strings.
pub open spec fn texts(list: Seq<String>) -> Seq<Seq<char>> {
    list.map_values(|s: String| s@)
}

/// The characters of a text, one by one.
pub fn characters(text: &str) -> (list: Vec<char>)
    ensures
        list@ == text@,
{
    let mut list: Vec<char> = Vec::new();
    for c in it: text.chars()
        invariant
            it.seq() == text@,
            list@ == text@.take(it.index() as int),
    {
        list.push(c);
        assert(list@ =~= text@.take(it.index() as int + 1));
    }
    assert(text@.take(text@.len() as int) =~= text@);
    list
}

/// The words of a text, in their order.
pub fn split_whitespace(text: &str) -> (list: Vec<String>)
    ensures
        texts(list@) == words(text@),
{
    let chars = characters(text);
    let ghost s = text@;
    let ghost p = |c: char| !is_space(c);
    let mut list: Vec<String> = Vec::new();
    let mut i: usize = 0;
    proof {
        assert(s.skip(0) =~= s);
        assert(texts(list@) + words(s) =~= words(s));
    }
    while i < chars.len()
        invariant
            i <= chars@.len(),
            chars@ == s,
            s == text@,
            p == (|c: char| !is_space(c)),
            texts(list@) + words(s.skip(i as int)) == words(s),
        decreases chars@.len() - i,
    {
        let ghost rest = s.skip(i as int);
        if is_whitespace(chars[i]) {
            assert(rest.skip(1) =~= s.skip(i + 1));
            i = i + 1;
        } else {
            let start: usize = i;
            let ghost before = texts(list@);
            while i < chars.len() && !is_whitespace(chars[i])
                invariant
                    start <= i <= chars@.len(),
                    chars@ == s,
                    rest == s.skip(start as int),
                    p == (|c: char| !is_space(c)),
                    forall|j: int| 0 <= j < i - start ==> p(#[trigger] rest[j]),
                decreases chars@.len() - i,
            {
                assert(p(rest[i - start]));
                i = i + 1;
            }
            proof {
                if i < chars@.len() {
                    assert(rest[i - start] == s[i as int]);
                }
                lemma_run(rest, p, (i - start) as nat);
                assert(rest[0] == s[start as int]);
                assert(p(rest[0]));
                assert(s.subrange(start as int, i as int) =~= rest.take(i - start));
                assert(s.skip(i as int) =~= rest.skip(i - start));
            }
            list.push(String::from_str(text.substring_char(start, i)));
            proof {
                let word = rest.take(i - start);
                assert(texts(list@) =~= before.push(word));
                assert(before + (seq![word] + words(s.skip(i as int))) =~= before.push(word) + words(
                    s.skip(i as int),
                ));
            }
        }
    }
    proof {
        assert(s.skip(i as int) =~= Seq::<char>::empty());
        assert(texts(list@) + words(s.skip(i as int)) =~= texts(list@));
    }
    list
}

/// The text without the white space at its two ends.
pub fn trim<'a>(text: &'a str) -> (inner: &'a str)
    ensures
        inner@ == trimmed(text@),
{
    let chars = characters(text);
    let ghost s = text@;
    let mut from: usize = 0;
    let mut to: usize = chars.len();
    assert(s.subrange(0, s.len() as int) =~= s);
    while from < to && is_whitespace(chars[from])
        invariant
            from <= to,
            to == chars@.len(),
            chars@ == s,
            trimmed(s.subrange(from as int, to as int)) == trimmed(s),
        decreases to - from,
    {
        assert(s.subrange(from as int, to as int).skip(1) =~= s.subrange(from + 1, to as int));
        from = from + 1;
    }
    while from < to && is_whitespace(chars[to - 1])
        invariant
            from <= to <= chars@.len(),
            chars@ == s,
            from < to ==> !is_space(s[from as int]),
            trimmed(s.subrange(from as int, to as int)) == trimmed(s),
        decreases to - from,
    {
        assert(s.subrange(from as int, to as int).drop_last() =~= s.subrange(
            from as int,
            to - 1,
        ));
        to = to - 1;
    }
    text.substring_char(from, to)
}

/// The text without the characters `c` at its front.
pub fn trim_start_matches<'a>(text: &'a str, c: char) -> (rest: &'a str)
    ensures
        rest@ == without_leading(text@, c),
{
    let chars = characters(text);
    let ghost p = equal_to(c);
    let mut i: usize = 0;
    while i < chars.len() && chars[i] == c
        invariant
            i <= chars@.len(),
            chars@ == text@,
            p == equal_to(c),
            forall|j: int| 0 <= j < i ==> p(#[trigger] text@[j]),
        decreases chars@.len() - i,
    {
        i = i + 1;
    }
    proof {
        lemma_run(text@, p, i as nat);
        assert(text@.subrange(i as int, text@.len() as int) =~= text@.skip(i as int));
    }
    text.substring_char(i, chars.len())
}

/// Splits a text at `separator`, where it stands exactly once.
pub fn split_halves<'a>(text: &'a str, separator: char) -> (pair: Option<(&'a str, &'a str)>)
    ensures
        pair matches Some(h) ==> halves(text@, separator) == Some((h.0@, h.1@)),
        pair is None ==> halves(text@, separator) is None,
{
    let chars = characters(text);
    let ghost s = text@;
    let ghost p = other_than(separator);
    let mut first: usize = 0;
    while first < chars.len() && chars[first] != separator
        invariant
            first <= chars@.len(),
            chars@ == s,
            p == other_than(separator),
            forall|j: int| 0 <= j < first ==> p(#[trigger] s[j]),
        decreases chars@.len() - first,
    {
        first = first + 1;
    }
    proof {
        lemma_run(s, p, first as nat);
    }
    if first >= chars.len() {
        return None;
    }
    let ghost later = s.skip(first + 1);
    let mut i: usize = first + 1;
    while i < chars.len()
        invariant
            first < i <= chars@.len(),
            chars@ == s,
            s == text@,
            later == s.skip(first + 1),
            run(s, other_than(separator)) == first,
            forall|j: int| 0 <= j < i - first - 1 ==> later[j] != separator,
        decreases chars@.len() - i,
    {
        if chars[i] == separator {
            assert(later[i - first - 1] == separator);
            return None;
        }
        i = i + 1;
    }
    proof {
        assert(s.subrange(0, first as int) =~= s.take(first as int));
        assert(s.subrange(first + 1, s.len() as int) =~= later);
    }
    Some((text.substring_char(0, first), text.substring_char(first + 1, chars.len())))
}

} // verus!
