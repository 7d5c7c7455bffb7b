//! A filled rectangle of half blocks.
use vstd::prelude::*;
use vstd::utf8::encode_utf8;
use crate::text::numerals::{parse_unsigned, unsigned_value};
use crate::text::words::{texts, trim, trimmed};

verus! {

/// The number that the user typed, or nought where it is none that fits.
pub open spec fn dimension(line: Seq<char>) -> nat {
    match unsigned_value(encode_utf8(trimmed(line))) {
        Some(n) => if n <= usize::MAX {
            n
        } else {
            0
        },
        None => 0,
    }
}

/// The number that the user typed, or nought where it is none that fits.
pub fn read_dimension(line: &str) -> (n: usize)
    ensures
        n == dimension(line@),
{
    match parse_unsigned(trim(line).as_bytes(), usize::MAX as u64) {
        Some(n) => n as usize,
        None => 0,
    }
}

/// The two dimensions that the user typed, the width first.
pub fn get_dimensions(width: &str, height: &str) -> (size: (usize, usize))
    ensures
        size.0 == dimension(width@),
        size.1 == dimension(height@),
{
    (read_dimension(width), read_dimension(height))
}

/// A row of half blocks.
pub open spec fn block_row(width: nat) -> Seq<char> {
    Seq::new(width, |i: int| '\u{2584}')
}

/// The lines of a rectangle. Each block covers two rows.
pub open spec fn rectangle(width: nat, height: nat) -> Seq<Seq<char>> {
    if width == 0 || height == 0 {
        seq!["Invalid dimensions. Width and height must be greater than 0."@]
    } else {
        Seq::new((height + 1) / 2, |i: int| block_row(width))
    }
}

/// The lines of a rectangle.
pub fn draw_filled_rectangle(width: usize, height: usize) -> (lines: Vec<String>)
    requires
        width == 0 || height == 0 || (height < usize::MAX && 3 * width <= isize::MAX),
    ensures
        texts(lines@) == rectangle(width as nat, height as nat),
{
    let mut lines: Vec<String> = Vec::new();
    if width == 0 || height == 0 {
        lines.push(String::from_str("Invalid dimensions. Width and height must be greater than 0."));
        assert(texts(lines@) =~= rectangle(width as nat, height as nat));
        return lines;
    }
    let rows: usize = (height + 1) / 2;
    proof {
        reveal_strlit("\u{2584}");
    }
    let mut row = String::from_str("");
    let mut i: usize = 0;
    proof {
        reveal_strlit("");
        assert(row@ =~= block_row(0));
    }
    while i < width
        invariant
            i <= width,
            row@ == block_row(i as nat),
            "\u{2584}"@ == seq!['\u{2584}'],
        decreases width - i,
    {
        row.append("\u{2584}");
        assert(row@ =~= block_row(i as nat + 1));
        i = i + 1;
    }
    let mut j: usize = 0;
    while j < rows
        invariant
            j <= rows,
            row@ == block_row(width as nat),
            lines@.len() == j,
            forall|k: int| 0 <= k < j ==> (#[trigger] lines@[k])@ == block_row(width as nat),
        decreases rows - j,
    {
        lines.push(String::from_str(row.as_str()));
        j = j + 1;
    }
    assert(texts(lines@) =~= rectangle(width as nat, height as nat));
    lines
}

/// A rectangle of which neither side is nought has half as many lines as rows, rounded up, and each
/// of them is as wide as the rectangle.
pub proof fn law_rectangle_is_filled(width: nat, height: nat)
    requires
        width > 0,
        height > 0,
    ensures
        2 * rectangle(width, height).len() == height || 2 * rectangle(width, height).len() == height
            + 1,
        forall|i: int|
            0 <= i < rectangle(width, height).len() ==> (#[trigger] rectangle(
                width,
                height,
            )[i]).len() == width,
{
}

} // verus!
