//! Scanning a sequence from its front.
use vstd::prelude::*;

verus! {

/// How many items at the front of `s` satisfy `p` before the first one that does not.
pub open spec fn run<T>(s: Seq<T>, p: spec_fn(T) -> bool) -> nat
    decreases s.len(),
{
    if s.len() == 0 || !p(s[0]) {
        0
    } else {
        1 + run(s.skip(1), p)
    }
}

/// The run is the one length whose items all satisfy `p` and which nothing extends.
pub proof fn lemma_run<T>(s: Seq<T>, p: spec_fn(T) -> bool, n: nat)
    requires
        n <= s.len(),
        forall|i: int| 0 <= i < n ==> p(#[trigger] s[i]),
        n < s.len() ==> !p(s[n as int]),
    ensures
        run(s, p) == n,
    decreases n,
{
    if n > 0 {
        let rest = s.skip(1);
        assert forall|i: int| 0 <= i < n - 1 implies p(#[trigger] rest[i]) by {
            assert(rest[i] == s[i + 1]);
        }
        if n < s.len() {
            assert(rest[n - 1] == s[n as int]);
        }
        lemma_run(rest, p, (n - 1) as nat);
        assert(p(s[0]));
    }
}

/// What the length of a run says of the items under it and of the item behind it.
pub proof fn lemma_run_items<T>(s: Seq<T>, p: spec_fn(T) -> bool)
    ensures
        run(s, p) <= s.len(),
        forall|i: int| 0 <= i < run(s, p) ==> p(#[trigger] s[i]),
        run(s, p) < s.len() ==> !p(s[run(s, p) as int]),
    decreases s.len(),
{
    if s.len() > 0 && p(s[0]) {
        let rest = s.skip(1);
        lemma_run_items(rest, p);
        let n = run(s, p);
        assert(n == 1 + run(rest, p));
        assert forall|i: int| 0 <= i < n implies p(#[trigger] s[i]) by {
            if i > 0 {
                assert(rest[i - 1] == s[i]);
            }
        }
        if n < s.len() {
            assert(rest[n - 1] == s[n as int]);
        }
    }
}

/// The last `n` items of `s`, or all of it where there are fewer.
pub open spec fn tail<T>(s: Seq<T>, n: nat) -> Seq<T> {
    if s.len() <= n {
        s
    } else {
        s.skip(s.len() - n)
    }
}

/// Cutting to the last items before more is appended changes nothing.
pub proof fn lemma_tail_append<T>(a: Seq<T>, b: Seq<T>, n: nat)
    ensures
        tail(tail(a, n) + b, n) == tail(a + b, n),
{
    assert(tail(tail(a, n) + b, n) =~= tail(a + b, n));
}

/// Where `word` first occurs in `s`.
pub open spec fn first_occurrence<T>(s: Seq<T>, word: Seq<T>) -> Option<int>
    decreases s.len(),
{
    if s.len() < word.len() {
        None
    } else if s.take(word.len() as int) == word {
        Some(0)
    } else if s.len() == 0 {
        None
    } else {
        match first_occurrence(s.skip(1), word) {
            Some(i) => Some(i + 1),
            None => None,
        }
    }
}

/// Whether `word` stands in `s` at position `i`.
pub open spec fn word_at<T>(s: Seq<T>, i: int, word: Seq<T>) -> bool {
    0 <= i && i + word.len() <= s.len() && s.subrange(i, i + word.len()) == word
}

/// Skipping a front at which `word` does not start moves its first occurrence by that front.
pub proof fn lemma_occurrence_after<T>(s: Seq<T>, word: Seq<T>, n: nat)
    requires
        n <= s.len(),
        forall|i: int| 0 <= i < n ==> !#[trigger] word_at(s, i, word),
    ensures
        first_occurrence(s, word) == (match first_occurrence(s.skip(n as int), word) {
            Some(i) => Some(i + n as int),
            None => None,
        }),
    decreases n,
{
    if n == 0 {
        assert(s.skip(0) =~= s);
    } else {
        let rest = s.skip(1);
        assert(rest.skip(n - 1) =~= s.skip(n as int));
        assert(!word_at(s, 0, word));
        if s.len() >= word.len() {
            assert(s.take(word.len() as int) =~= s.subrange(0, 0 + word.len() as int));
        }
        assert forall|i: int| 0 <= i < n - 1 implies !#[trigger] word_at(rest, i, word) by {
            assert(!word_at(s, i + 1, word));
            if i + word.len() <= rest.len() {
                assert(rest.subrange(i, i + word.len()) =~= s.subrange(i + 1, i + 1 + word.len()));
            }
        }
        lemma_occurrence_after(rest, word, (n - 1) as nat);
    }
}

/// At its first occurrence the word stands in full, and it stands nowhere before.
pub proof fn lemma_occurrence<T>(s: Seq<T>, word: Seq<T>)
    ensures
        first_occurrence(s, word) matches Some(n) ==> word_at(s, n, word) && forall|i: int|
            0 <= i < n ==> !#[trigger] word_at(s, i, word),
        first_occurrence(s, word) is None ==> forall|i: int| !#[trigger] word_at(s, i, word),
    decreases s.len(),
{
    if s.len() < word.len() {
    } else if s.take(word.len() as int) == word {
        assert(s.subrange(0, 0 + word.len() as int) =~= s.take(word.len() as int));
    } else if s.len() > 0 {
        let rest = s.skip(1);
        lemma_occurrence(rest, word);
        assert forall|i: int| 0 < i implies (word_at(s, i, word) <==> #[trigger] word_at(
            rest,
            i - 1,
            word,
        )) by {
            if i + word.len() <= s.len() {
                assert(rest.subrange(i - 1, i - 1 + word.len()) =~= s.subrange(i, i + word.len()));
            }
        }
        assert(!word_at(s, 0, word)) by {
            assert(s.subrange(0, 0 + word.len() as int) =~= s.take(word.len() as int));
        }
        assert forall|i: int| 0 < i implies (#[trigger] word_at(s, i, word) <==> word_at(
            rest,
            i - 1,
            word,
        )) by {}
    } else {
        assert(s.take(0) =~= word);
    }
}

/// Whether `word` stands in `s` at `at`.
pub fn stands_at(s: &[u8], at: usize, word: &[u8]) -> (found: bool)
    ensures
        found == word_at(s@, at as int, word@),
{
    if at > s.len() || s.len() - at < word.len() {
        return false;
    }
    let mut i: usize = 0;
    while i < word.len()
        invariant
            at + word@.len() <= s.len(),
            i <= word@.len(),
            forall|j: int| 0 <= j < i ==> s@[at + j] == #[trigger] word@[j],
        decreases word@.len() - i,
    {
        if s[at + i] != word[i] {
            assert(s@.subrange(at as int, at + word@.len())[i as int] != word@[i as int]);
            return false;
        }
        i = i + 1;
    }
    assert(s@.subrange(at as int, at + word@.len()) =~= word@);
    true
}

/// Where `word` first occurs in `s`.
pub fn find_word(s: &[u8], word: &[u8]) -> (at: Option<usize>)
    requires
        word@.len() > 0,
    ensures
        at matches Some(i) ==> first_occurrence(s@, word@) == Some(i as int),
        at is None ==> first_occurrence(s@, word@) is None,
{
    let mut i: usize = 0;
    while i < s.len()
        invariant
            i <= s@.len(),
            word@.len() > 0,
            forall|j: int| 0 <= j < i ==> !#[trigger] word_at(s@, j, word@),
        decreases s@.len() - i,
    {
        if stands_at(s, i, word) {
            proof {
                lemma_occurrence_after(s@, word@, i as nat);
                assert(s@.skip(i as int).take(word@.len() as int) =~= s@.subrange(
                    i as int,
                    i + word@.len(),
                ));
            }
            return Some(i);
        }
        i = i + 1;
    }
    proof {
        lemma_occurrence_after(s@, word@, i as nat);
    }
    None
}

} // verus!
