//! File paths as byte strings, with `/` between their parts.
use vstd::prelude::*;

verus! {

/// The path `part` taken from `base`: an absolute part stands alone, any other is put behind
/// `base` with one separator between them.
pub open spec fn joined(base: Seq<u8>, part: Seq<u8>) -> Seq<u8> {
    if part.len() > 0 && part[0] == 47 {
        part
    } else if base.len() == 0 || base.last() == 47 {
        base + part
    } else {
        base.push(47) + part
    }
}

/// How long the last stretch of `path` without a separator is.
pub open spec fn last_piece_len(path: Seq<u8>) -> nat
    decreases path.len(),
{
    if path.len() == 0 || path.last() == 47 {
        0
    } else {
        1 + last_piece_len(path.drop_last())
    }
}

/// The last stretch is no longer than the path.
pub proof fn lemma_last_piece(path: Seq<u8>)
    ensures
        last_piece_len(path) <= path.len(),
    decreases path.len(),
{
    if path.len() > 0 && path.last() != 47 {
        lemma_last_piece(path.drop_last());
    }
}

/// The final component of a path, where it has one that names something: empty pieces and `.`
/// do not count, and a path that ends in `..` names nothing.
pub open spec fn final_component(path: Seq<u8>) -> Option<Seq<u8>>
    decreases path.len(),
{
    proof {
        lemma_last_piece(path);
    }
    let n = last_piece_len(path);
    let piece = path.skip(path.len() - n);
    if piece.len() == 0 || piece == seq![46u8] {
        if n >= path.len() {
            None
        } else {
            final_component(path.take(path.len() - n - 1))
        }
    } else if piece == seq![46u8, 46u8] {
        None
    } else {
        Some(piece)
    }
}

/// The path `part` taken from `base`.
pub fn join(base: &[u8], part: &[u8]) -> (path: Vec<u8>)
    ensures
        path@ == joined(base@, part@),
{
    let mut path: Vec<u8> = Vec::new();
    if part.len() > 0 && part[0] == 47 {
        path.extend_from_slice(part);
        assert(path@ =~= joined(base@, part@));
        return path;
    }
    path.extend_from_slice(base);
    if base.len() > 0 && base[base.len() - 1] != 47 {
        path.push(47);
    }
    path.extend_from_slice(part);
    assert(path@ =~= joined(base@, part@));
    path
}

/// The final component of a path, where it has one that names something.
pub fn file_name<'a>(path: &'a [u8]) -> (name: Option<&'a [u8]>)
    ensures
        name matches Some(n) ==> final_component(path@) == Some(n@),
        name is None ==> final_component(path@) is None,
{
    let mut end: usize = path.len();
    assert(path@.take(end as int) =~= path@);
    loop
        invariant
            end <= path@.len(),
            final_component(path@.take(end as int)) == final_component(path@),
        decreases end,
    {
        let ghost front = path@.take(end as int);
        let mut start: usize = end;
        assert(front.take(end as int) =~= front);
        while start > 0 && path[start - 1] != 47
            invariant
                start <= end <= path@.len(),
                front == path@.take(end as int),
                last_piece_len(front) == (end - start) + last_piece_len(front.take(start as int)),
            decreases start,
        {
            let ghost shorter = front.take(start as int);
            assert(shorter.drop_last() =~= front.take(start - 1));
            start = start - 1;
        }
        let piece = vstd::slice::slice_subrange(path, start, end);
        proof {
            if start > 0 {
                assert(front.take(start as int).last() == 47);
            }
            assert(last_piece_len(front) == end - start);
            assert(front.skip(start as int) =~= piece@);
        }
        if piece.len() == 0 || (piece.len() == 1 && piece[0] == 46) {
            assert(piece@.len() == 1 ==> piece@ =~= seq![46u8]);
            if start == 0 {
                return None;
            }
            assert(front.take(start - 1) =~= path@.take(start - 1));
            end = start - 1;
        } else {
            proof {
                assert(seq![46u8][0] == 46);
                if piece@ == seq![46u8] {
                    assert(piece@[0] == 46);
                }
            }
            if piece.len() == 2 && piece[0] == 46 && piece[1] == 46 {
                assert(piece@ =~= seq![46u8, 46u8]);
                return None;
            }
            proof {
                if piece@ == seq![46u8, 46u8] {
                    assert(piece@[0] == 46 && piece@[1] == 46);
                }
            }
            return Some(piece);
        }
    }
}

/// Under one directory, two names of which both or neither are absolute give two paths.
pub proof fn lemma_joined_injective(base: Seq<u8>, a: Seq<u8>, b: Seq<u8>)
    requires
        joined(base, a) == joined(base, b),
        (a.len() > 0 && a[0] == 47) <==> (b.len() > 0 && b[0] == 47),
    ensures
        a == b,
{
    if !(a.len() > 0 && a[0] == 47) {
        let front = if base.len() == 0 || base.last() == 47 {
            base
        } else {
            base.push(47)
        };
        assert((front + a).skip(front.len() as int) =~= a);
        assert((front + b).skip(front.len() as int) =~= b);
    }
}

} // verus!
