//! General properties of the model: segmentation is a partition, the two
//! retention modes keep complementary blocks, empty input gives an empty
//! result, and delimiter-free input forms a single block.
use crate::model::block_retained;
use crate::model::blocks_of;
use crate::model::filtered_lines;
use crate::model::lines_of;
use crate::model::search_results;
use vstd::prelude::*;

verus! {

/// Segmentation is a total partition of the line sequence: concatenating the
/// blocks' lines in order gives back exactly the original lines, so no line
/// is dropped or duplicated by cutting the text into blocks.
pub proof fn lemma_blocks_partition(lines: Seq<Seq<char>>, d: spec_fn(Seq<char>) -> bool)
    ensures
        blocks_of(lines, d).flatten() == lines,
    decreases lines.len(),
{
    broadcast use Seq::lemma_flatten_push;

    let bs = blocks_of(lines, d);
    if lines.len() == 0 {
        assert(bs.flatten() =~= lines);
    } else {
        let rest = lines.drop_last();
        let l = lines.last();
        let prev = blocks_of(rest, d);
        lemma_blocks_partition(rest, d);
        if prev.len() == 0 {
            assert(prev.flatten() =~= Seq::<Seq<char>>::empty());
            assert(rest.len() == 0);
            bs.lemma_flatten_one_element();
            assert(bs.flatten() =~= lines);
        } else if d(l) {
            assert(bs == prev.push(seq![l]));
            assert(bs.flatten() =~= prev.flatten() + seq![l]);
            assert(prev.flatten() + seq![l] =~= lines);
        } else {
            assert(bs == prev.update(prev.len() - 1, prev.last().push(l)));
            assert(bs =~= prev.drop_last().push(prev.last().push(l)));
            assert(prev =~= prev.drop_last().push(prev.last()));
            assert(prev.flatten() =~= prev.drop_last().flatten() + prev.last());
            assert(bs.flatten() =~= prev.drop_last().flatten() + prev.last().push(l));
            assert(prev.drop_last().flatten() + prev.last().push(l) =~= prev.flatten().push(l));
            assert(prev.flatten().push(l) =~= lines);
        }
    }
}

/// Block boundaries come from the delimiter predicate alone: every block is
/// nonempty, every block after the first opens with a delimiter line, and no
/// line after a block's opening line is a delimiter line. Only the first
/// block may open with a non-delimiter line.
pub proof fn lemma_blocks_structure(lines: Seq<Seq<char>>, d: spec_fn(Seq<char>) -> bool)
    ensures
        forall|i: int|
            0 <= i < blocks_of(lines, d).len() ==> (#[trigger] blocks_of(lines, d)[i]).len() > 0,
        forall|i: int| 1 <= i < blocks_of(lines, d).len() ==> d(blocks_of(lines, d)[i][0]),
        forall|i: int, j: int|
            0 <= i < blocks_of(lines, d).len() && 1 <= j < blocks_of(lines, d)[i].len() ==> !d(
                blocks_of(lines, d)[i][j],
            ),
    decreases lines.len(),
{
    if lines.len() > 0 {
        let bs = blocks_of(lines, d);
        let rest = lines.drop_last();
        let l = lines.last();
        let prev = blocks_of(rest, d);
        lemma_blocks_structure(rest, d);
        if prev.len() == 0 {
            assert(bs == seq![seq![l]]);
        } else if d(l) {
            assert(bs == prev.push(seq![l]));
            assert(forall|i: int| 0 <= i < prev.len() ==> #[trigger] bs[i] == prev[i]);
        } else {
            let k = prev.len() - 1;
            assert(bs == prev.update(k, prev.last().push(l)));
            assert(forall|i: int| 0 <= i < k ==> #[trigger] bs[i] == prev[i]);
            assert(bs[k] == prev.last().push(l));
            assert(forall|j: int|
                0 <= j < prev.last().len() ==> #[trigger] bs[k][j] == prev[k][j]);
            assert(bs[k][bs[k].len() - 1] == l);
        }
    }
}

/// The two retention modes are complementary: every block is kept in exactly
/// one of them, so across both modes each line of every block is retained
/// exactly once.
pub proof fn lemma_exclude_complement(blocks: Seq<Seq<Seq<char>>>, p: spec_fn(Seq<char>) -> bool)
    ensures
        forall|i: int|
            0 <= i < blocks.len() ==> (block_retained(#[trigger] blocks[i], p, true)
                <==> !block_retained(blocks[i], p, false)),
        filtered_lines(blocks, p, false).len() + filtered_lines(blocks, p, true).len()
            == blocks.flatten().len(),
    decreases blocks.len(),
{
    broadcast use Seq::lemma_flatten_push;

    if blocks.len() == 0 {
        assert(blocks.flatten() =~= Seq::<Seq<char>>::empty());
    } else {
        let rest = blocks.drop_last();
        lemma_exclude_complement(rest, p);
        assert(blocks =~= rest.push(blocks.last()));
        assert(blocks.flatten() =~= rest.flatten() + blocks.last());
        assert(forall|i: int|
            0 <= i < rest.len() ==> #[trigger] blocks[i] == rest[i]);
    }
}

/// Re-running a search changes nothing: any two result sequences obtained
/// from the same predicates, mode and text are identical, because the result
/// is a pure function of those alone.
pub proof fn lemma_rerun_identical(
    text: Seq<char>,
    d: spec_fn(Seq<char>) -> bool,
    p: spec_fn(Seq<char>) -> bool,
    exclude: bool,
    r1: Seq<Seq<char>>,
    r2: Seq<Seq<char>>,
)
    requires
        r1 == search_results(text, d, p, exclude),
        r2 == search_results(text, d, p, exclude),
    ensures
        r1 == r2,
{
}

/// Empty input yields an empty result, in both retention modes.
pub proof fn lemma_empty_input(
    d: spec_fn(Seq<char>) -> bool,
    p: spec_fn(Seq<char>) -> bool,
    exclude: bool,
)
    ensures
        search_results(Seq::<char>::empty(), d, p, exclude) == Seq::<Seq<char>>::empty(),
{
    assert(lines_of(Seq::<char>::empty()) =~= Seq::<Seq<char>>::empty());
}

/// A line sequence with no delimiter-matching line forms exactly one block:
/// the whole sequence, kept exactly when the whole-input retention rule
/// selects it.
pub proof fn lemma_no_delimiter_single_block(
    lines: Seq<Seq<char>>,
    d: spec_fn(Seq<char>) -> bool,
    p: spec_fn(Seq<char>) -> bool,
    exclude: bool,
)
    requires
        lines.len() > 0,
        forall|i: int| 0 <= i < lines.len() ==> !d(#[trigger] lines[i]),
    ensures
        blocks_of(lines, d) == seq![lines],
        filtered_lines(blocks_of(lines, d), p, exclude) == if block_retained(
            lines,
            p,
            exclude,
        ) {
            lines
        } else {
            Seq::<Seq<char>>::empty()
        },
    decreases lines.len(),
{
    let rest = lines.drop_last();
    let l = lines.last();
    if lines.len() == 1 {
        assert(blocks_of(rest, d).len() == 0);
        assert(lines =~= seq![l]);
        assert(blocks_of(lines, d) =~= seq![lines]);
    } else {
        lemma_no_delimiter_single_block(rest, d, p, exclude);
        assert(!d(l));
        let prev = blocks_of(rest, d);
        assert(prev == seq![rest]);
        assert(rest.push(l) =~= lines);
        assert(prev.update(0, rest.push(l)) =~= seq![lines]);
        assert(blocks_of(lines, d) =~= seq![lines]);
    }
    let bs = blocks_of(lines, d);
    assert(bs.drop_last() =~= Seq::<Seq<Seq<char>>>::empty());
    assert(bs.last() == lines);
    assert(filtered_lines(Seq::<Seq<Seq<char>>>::empty(), p, exclude)
        == Seq::<Seq<char>>::empty());
    if block_retained(lines, p, exclude) {
        assert(Seq::<Seq<char>>::empty() + lines =~= lines);
        assert(filtered_lines(bs, p, exclude) =~= lines);
    }
}

} // verus!
