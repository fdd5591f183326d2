//! Mathematical model of the block filter: how a text splits into lines,
//! how lines group into blocks around delimiter lines, and which lines the
//! filter keeps.
use vstd::prelude::*;

verus! {

/// `needle` occurs contiguously somewhere inside `hay`.
pub open spec fn contains_seq(hay: Seq<char>, needle: Seq<char>) -> bool {
    exists|i: int|
        0 <= i && i + needle.len() <= hay.len() && #[trigger] hay.subrange(i, i + needle.len())
            == needle
}

/// The fragments of `s` around every newline character: splitting on `'\n'`
/// always yields one more fragment than there are newlines, so the result is
/// never empty, and joining the fragments with `'\n'` gives back `s`.
pub open spec fn split_fragments(s: Seq<char>) -> Seq<Seq<char>>
    decreases s.len(),
{
    if s.len() == 0 {
        seq![Seq::<char>::empty()]
    } else {
        let fr = split_fragments(s.drop_last());
        if s.last() == '\n' {
            fr.push(Seq::<char>::empty())
        } else {
            fr.update(fr.len() - 1, fr.last().push(s.last()))
        }
    }
}

/// The lines of a text: the fragments around newlines, except that a trailing
/// newline does not open an empty final line, and an empty text has no lines.
pub open spec fn lines_of(s: Seq<char>) -> Seq<Seq<char>> {
    if s.len() == 0 {
        Seq::<Seq<char>>::empty()
    } else if s.last() == '\n' {
        split_fragments(s).drop_last()
    } else {
        split_fragments(s)
    }
}

/// The blocks that the delimiter predicate `d` cuts the line sequence into.
/// The first line always opens the first block, whether or not it satisfies
/// `d`; every later line satisfying `d` closes the open block and opens a new
/// one with itself as first member; any other line joins the open block.
pub open spec fn blocks_of(lines: Seq<Seq<char>>, d: spec_fn(Seq<char>) -> bool) -> Seq<
    Seq<Seq<char>>,
>
    decreases lines.len(),
{
    if lines.len() == 0 {
        Seq::<Seq<Seq<char>>>::empty()
    } else {
        let prev = blocks_of(lines.drop_last(), d);
        let l = lines.last();
        if prev.len() == 0 {
            seq![seq![l]]
        } else if d(l) {
            prev.push(seq![l])
        } else {
            prev.update(prev.len() - 1, prev.last().push(l))
        }
    }
}

/// At least one line of the block satisfies the pattern predicate `p`.
pub open spec fn block_matches(block: Seq<Seq<char>>, p: spec_fn(Seq<char>) -> bool) -> bool {
    exists|i: int| 0 <= i < block.len() && #[trigger] p(block[i])
}

/// Whether a block is kept: with `exclude` unset, a block is kept when some
/// line matches; with `exclude` set, when no line matches.
pub open spec fn block_retained(
    block: Seq<Seq<char>>,
    p: spec_fn(Seq<char>) -> bool,
    exclude: bool,
) -> bool {
    if exclude {
        !block_matches(block, p)
    } else {
        block_matches(block, p)
    }
}

/// The lines of every retained block, concatenated in original order.
pub open spec fn filtered_lines(
    blocks: Seq<Seq<Seq<char>>>,
    p: spec_fn(Seq<char>) -> bool,
    exclude: bool,
) -> Seq<Seq<char>>
    decreases blocks.len(),
{
    if blocks.len() == 0 {
        Seq::<Seq<char>>::empty()
    } else {
        let prev = filtered_lines(blocks.drop_last(), p, exclude);
        if block_retained(blocks.last(), p, exclude) {
            prev + blocks.last()
        } else {
            prev
        }
    }
}

/// The whole pipeline on a text: split into lines, cut into blocks by `d`,
/// keep the blocks that the retention rule selects under `p` and `exclude`.
pub open spec fn search_results(
    text: Seq<char>,
    d: spec_fn(Seq<char>) -> bool,
    p: spec_fn(Seq<char>) -> bool,
    exclude: bool,
) -> Seq<Seq<char>> {
    filtered_lines(blocks_of(lines_of(text), d), p, exclude)
}

} // verus!
