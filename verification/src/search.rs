//! The block segmentation and filter engine, and the construction of a
//! searcher from a small configuration.
use crate::model::block_matches;
use crate::model::block_retained;
use crate::model::blocks_of;
use crate::model::contains_seq;
use crate::model::filtered_lines;
use crate::model::lines_of;
use crate::model::search_results;
use crate::model::split_fragments;
use crate::pred::LinePred;
use crate::pred::PatternCompileError;
use crate::pred::lower_of;
use crate::pred::regex_accepts;
use crate::pred::regex_compiles;
use vstd::prelude::*;
use vstd::string::StrSliceExecFns;
use vstd::string::StringExecFns;

verus! {

/// The characters of `hay` starting at `i` are exactly `needle`.
fn matches_at(hay: &str, needle: &str, i: usize, nlen: usize) -> (r: bool)
    requires
        nlen == needle@.len(),
        i + nlen <= hay@.len(),
        i + nlen <= usize::MAX,
    ensures
        r == (hay@.subrange(i as int, i + needle@.len()) == needle@),
{
    let mut j: usize = 0;
    while j < nlen
        invariant
            nlen == needle@.len(),
            i + nlen <= hay@.len(),
            i + nlen <= usize::MAX,
            0 <= j <= nlen,
            forall|k: int| 0 <= k < j ==> hay@[i + k] == needle@[k],
        decreases nlen - j,
    {
        if hay.get_char(i + j) != needle.get_char(j) {
            proof {
                assert(hay@.subrange(i as int, i + needle@.len())[j as int] == hay@[i + j]);
            }
            return false;
        }
        j = j + 1;
    }
    proof {
        assert(hay@.subrange(i as int, i + needle@.len()) =~= needle@);
    }
    true
}

/// Plain substring containment, decided character by character.
pub fn str_contains(hay: &str, needle: &str) -> (r: bool)
    ensures
        r == contains_seq(hay@, needle@),
{
    let hlen: usize = hay.unicode_len();
    let nlen: usize = needle.unicode_len();
    if nlen > hlen {
        return false;
    }
    if nlen == 0 {
        proof {
            assert(hay@.subrange(0, 0 + needle@.len() as int) =~= needle@);
            assert(contains_seq(hay@, needle@));
        }
        return true;
    }
    let mut i: usize = 0;
    while i <= hlen - nlen
        invariant
            hlen == hay@.len(),
            nlen == needle@.len(),
            0 < nlen <= hlen,
            0 <= i <= hlen - nlen + 1,
            forall|k: int|
                0 <= k < i ==> #[trigger] hay@.subrange(k, k + needle@.len()) != needle@,
        decreases hlen - i,
    {
        if matches_at(hay, needle, i, nlen) {
            return true;
        }
        i = i + 1;
    }
    false
}

/// Split a text into its lines, as borrowed slices of the original text.
pub fn split_lines<'a>(content: &'a str) -> (r: Vec<&'a str>)
    ensures
        r.deep_view() == lines_of(content@),
{
    let n: usize = content.unicode_len();
    let mut lines: Vec<&'a str> = Vec::new();
    let mut start: usize = 0;
    let mut i: usize = 0;
    proof {
        assert(content@.take(0) =~= Seq::<char>::empty());
        assert(split_fragments(content@.take(0)) =~= lines.deep_view().push(
            content@.subrange(0, 0),
        ));
    }
    while i < n
        invariant
            n == content@.len(),
            0 <= start <= i <= n,
            split_fragments(content@.take(i as int)) == lines.deep_view().push(
                content@.subrange(start as int, i as int),
            ),
            forall|k: int| start <= k < i ==> content@[k] != '\n',
            start > 0 ==> content@[start - 1] == '\n',
        decreases n - i,
    {
        let ghost pre = content@.take(i as int);
        let ghost post = content@.take(i + 1);
        let ghost old_lines = lines.deep_view();
        let c = content.get_char(i);
        proof {
            assert(post.drop_last() =~= pre);
            assert(post.last() == content@[i as int]);
        }
        if c == '\n' {
            let line = content.substring_char(start, i);
            lines.push(line);
            proof {
                assert(lines.deep_view() =~= old_lines.push(line@));
                assert(content@.subrange(i + 1, i + 1) =~= Seq::<char>::empty());
                assert(split_fragments(post) == split_fragments(pre).push(Seq::<char>::empty()));
                assert(split_fragments(pre).push(Seq::<char>::empty()) =~= lines.deep_view().push(
                    content@.subrange(i + 1, i + 1),
                ));
            }
            start = i + 1;
        } else {
            proof {
                let fr = split_fragments(pre);
                assert(fr.last() == content@.subrange(start as int, i as int));
                assert(fr.update(fr.len() - 1, fr.last().push(content@[i as int]))
                    =~= lines.deep_view().push(
                    content@.subrange(start as int, i as int).push(content@[i as int]),
                ));
                assert(content@.subrange(start as int, i as int).push(content@[i as int])
                    =~= content@.subrange(start as int, i + 1));
            }
        }
        i = i + 1;
    }
    proof {
        assert(content@.take(n as int) =~= content@);
    }
    if start < n {
        let line = content.substring_char(start, n);
        let ghost old_lines = lines.deep_view();
        lines.push(line);
        proof {
            assert(content@[n - 1] != '\n');
            assert(lines.deep_view() =~= old_lines.push(line@));
            assert(lines.deep_view() == lines_of(content@));
        }
    } else {
        proof {
            if n == 0 {
                assert(split_fragments(content@) =~= seq![Seq::<char>::empty()]);
                assert(lines.deep_view().len() == 0);
                assert(lines.deep_view() =~= lines_of(content@));
            } else {
                assert(content@[n - 1] == '\n');
                assert(content@.subrange(start as int, n as int) =~= Seq::<char>::empty());
                assert(split_fragments(content@).drop_last() =~= lines.deep_view());
            }
        }
    }
    lines
}

/// Anything that turns a text into the ordered sequence of retained lines.
pub trait Searcher {
    /// The retained lines, as a function of the searcher and the text.
    spec fn search_spec(&self, content: Seq<char>) -> Seq<Seq<char>>;

    /// Run the search on a whole text, returning the retained lines as
    /// borrowed slices of it, in original order.
    fn search_from_str<'a>(&self, content: &'a str) -> (r: Vec<&'a str>)
        ensures
            r.deep_view() == self.search_spec(content@),
    ;
}

/// A searcher that cuts the text into blocks at delimiter lines and keeps a
/// whole block exactly when the retention rule under `pattern` and `exclude`
/// selects it.
pub struct BlockSearcher {
    delimiter: LinePred,
    pattern: LinePred,
    exclude: bool,
}

impl BlockSearcher {
    /// The predicate that opens a new block.
    pub closed spec fn delimiter_pred(self) -> LinePred {
        self.delimiter
    }

    /// The predicate that decides whether a line matches.
    pub closed spec fn pattern_pred(self) -> LinePred {
        self.pattern
    }

    /// Whether blocks free of matches are kept instead of blocks with one.
    pub closed spec fn exclude_mode(self) -> bool {
        self.exclude
    }

    pub fn new(delimiter: LinePred, pattern: LinePred, exclude: bool) -> (s: BlockSearcher)
        ensures
            s.delimiter_pred() == delimiter,
            s.pattern_pred() == pattern,
            s.exclude_mode() == exclude,
    {
        BlockSearcher { delimiter, pattern, exclude }
    }

    /// Whether a block is kept under this searcher's retention rule.
    fn retains(&self, block: &Vec<&str>) -> (r: bool)
        ensures
            r == block_retained(block.deep_view(), self.pattern_pred().as_spec_fn(), self.exclude_mode()),
    {
        let ghost bd = block.deep_view();
        let ghost p = self.pattern_pred().as_spec_fn();
        let mut found = false;
        let mut k: usize = 0;
        while k < block.len()
            invariant
                bd == block.deep_view(),
                p == self.pattern_pred().as_spec_fn(),
                0 <= k <= block.len(),
                found == block_matches(bd.take(k as int), p),
            decreases block.len() - k,
        {
            let line_matches = self.pattern.eval(block[k]);
            proof {
                assert(bd.take(k + 1).drop_last() =~= bd.take(k as int));
                assert(bd.take(k + 1).last() == bd[k as int]);
                if line_matches {
                    assert(p(bd.take(k + 1)[k as int]));
                } else if found {
                    let w = choose|i: int| 0 <= i < k && #[trigger] p(bd.take(k as int)[i]);
                    assert(p(bd.take(k + 1)[w]));
                } else {
                    assert forall|i: int| 0 <= i < k + 1 implies !(#[trigger] p(bd.take(
                        k + 1,
                    )[i])) by {
                        if i < k {
                            assert(bd.take(k + 1)[i] == bd.take(k as int)[i]);
                            assert(!p(bd.take(k as int)[i]));
                        }
                    }
                }
            }
            if line_matches {
                found = true;
            }
            k = k + 1;
        }
        proof {
            assert(bd.take(block.len() as int) =~= bd);
        }
        if self.exclude {
            !found
        } else {
            found
        }
    }

    /// Segment the text into blocks and keep each block exactly when this
    /// searcher's retention rule selects it, returning the kept lines in
    /// original order as borrowed slices of the text.
    pub fn process_str<'a>(&self, content: &'a str) -> (r: Vec<&'a str>)
        ensures
            r.deep_view() == search_results(
                content@,
                self.delimiter_pred().as_spec_fn(),
                self.pattern_pred().as_spec_fn(),
                self.exclude_mode(),
            ),
    {
        let ghost d = self.delimiter_pred().as_spec_fn();
        let ghost p = self.pattern_pred().as_spec_fn();
        let ghost ex = self.exclude_mode();
        let lines = split_lines(content);
        let ghost lds = lines.deep_view();
        let mut block: Vec<&'a str> = Vec::new();
        let mut result: Vec<&'a str> = Vec::new();
        let mut j: usize = 0;
        while j < lines.len()
            invariant
                d == self.delimiter_pred().as_spec_fn(),
                p == self.pattern_pred().as_spec_fn(),
                ex == self.exclude_mode(),
                lds == lines.deep_view(),
                lds == lines_of(content@),
                0 <= j <= lines.len(),
                lds.len() == lines.len(),
                j == 0 ==> block@.len() == 0 && result@.len() == 0,
                j > 0 ==> blocks_of(lds.take(j as int), d).len() > 0 && block.deep_view()
                    == blocks_of(lds.take(j as int), d).last() && result.deep_view()
                    == filtered_lines(blocks_of(lds.take(j as int), d).drop_last(), p, ex),
            decreases lines.len() - j,
        {
            let line = lines[j];
            let ghost bs = blocks_of(lds.take(j as int), d);
            let ghost bs_next = blocks_of(lds.take(j + 1), d);
            proof {
                assert(lds.take(j + 1).drop_last() =~= lds.take(j as int));
                assert(lds.take(j + 1).last() == lds[j as int]);
            }
            if j > 0 && self.delimiter.eval(line) {
                let ghost old_result = result.deep_view();
                let ghost old_block = block.deep_view();
                if self.retains(&block) {
                    result.append(&mut block);
                    proof {
                        assert(result.deep_view() =~= old_result + old_block);
                    }
                } else {
                    block = Vec::new();
                }
                block.push(line);
                proof {
                    assert(bs_next == bs.push(seq![lds[j as int]]));
                    assert(bs_next.drop_last() =~= bs);
                    assert(block.deep_view() =~= seq![lds[j as int]]);
                    assert(result.deep_view() == filtered_lines(bs, p, ex));
                }
            } else {
                let ghost old_block = block.deep_view();
                block.push(line);
                proof {
                    assert(block.deep_view() =~= old_block.push(lds[j as int]));
                    if j == 0 {
                        assert(bs_next == seq![seq![lds[0]]]);
                        assert(block.deep_view() =~= seq![lds[0]]);
                        assert(bs_next.drop_last() =~= Seq::<Seq<Seq<char>>>::empty());
                        assert(result.deep_view() =~= Seq::<Seq<char>>::empty());
                    } else {
                        assert(!d(lds[j as int]));
                        assert(bs_next == bs.update(bs.len() - 1, bs.last().push(lds[j as int])));
                        assert(bs_next.drop_last() =~= bs.drop_last());
                        assert(block.deep_view() == bs_next.last());
                    }
                }
            }
            j = j + 1;
        }
        proof {
            assert(lds.take(lines.len() as int) =~= lds);
        }
        if lines.len() > 0 {
            let ghost bs = blocks_of(lds, d);
            let ghost old_result = result.deep_view();
            let ghost old_block = block.deep_view();
            if self.retains(&block) {
                result.append(&mut block);
                proof {
                    assert(result.deep_view() =~= old_result + old_block);
                }
            }
            proof {
                assert(result.deep_view() == filtered_lines(bs, p, ex));
            }
        } else {
            proof {
                assert(lds =~= Seq::<Seq<char>>::empty());
                assert(result.deep_view() =~= Seq::<Seq<char>>::empty());
            }
        }
        result
    }
}

/// The pattern text actually handed to the regular-expression compiler when
/// the pattern predicate is regex-based: a case-insensitivity flag is
/// prefixed rather than folding the input, so metacharacters keep their
/// meaning.
pub open spec fn effective_pattern(pattern: Seq<char>, case_insensitive: bool) -> Seq<char> {
    if case_insensitive {
        "(?i)"@ + pattern
    } else {
        pattern
    }
}

/// Build a block searcher from a configuration: the delimiter is always
/// compiled as a regular expression; the pattern is a regular expression when
/// `use_regex` is set and plain containment otherwise, case-folded or flagged
/// case-insensitive when `case_insensitive` is set. Fails exactly when a
/// regular expression among them does not compile, reporting the offending
/// pattern, before any line is read.
pub fn create_block_searcher(
    delimiter: &str,
    pattern: &str,
    use_regex: bool,
    case_insensitive: bool,
    exclude: bool,
) -> (r: Result<BlockSearcher, PatternCompileError>)
    ensures
        r is Ok <==> regex_compiles(delimiter@) && (use_regex ==> regex_compiles(
            effective_pattern(pattern@, case_insensitive),
        )),
        r matches Ok(s) ==> {
            &&& s.exclude_mode() == exclude
            &&& forall|l: Seq<char>| #[trigger]
                s.delimiter_pred().holds(l) == regex_accepts(delimiter@, l)
            &&& use_regex ==> forall|l: Seq<char>| #[trigger]
                s.pattern_pred().holds(l) == regex_accepts(
                    effective_pattern(pattern@, case_insensitive),
                    l,
                )
            &&& !use_regex && case_insensitive ==> forall|l: Seq<char>| #[trigger]
                s.pattern_pred().holds(l) == contains_seq(lower_of(l), lower_of(pattern@))
            &&& !use_regex && !case_insensitive ==> forall|l: Seq<char>| #[trigger]
                s.pattern_pred().holds(l) == contains_seq(l, pattern@)
        },
        r matches Err(e) ==> if !regex_compiles(delimiter@) {
            e.pattern@ == delimiter@
        } else {
            e.pattern@ == effective_pattern(pattern@, case_insensitive)
        },
{
    let delimiter_pred = match LinePred::regex(delimiter) {
        Ok(p) => p,
        Err(e) => {
            return Err(e);
        },
    };
    if use_regex {
        let full: String = if case_insensitive {
            let mut s = String::from_str("(?i)");
            s.append(pattern);
            s
        } else {
            String::from_str(pattern)
        };
        let pattern_pred = match LinePred::regex(full.as_str()) {
            Ok(p) => p,
            Err(e) => {
                return Err(e);
            },
        };
        Ok(BlockSearcher::new(delimiter_pred, pattern_pred, exclude))
    } else if case_insensitive {
        Ok(BlockSearcher::new(delimiter_pred, LinePred::folded_substring(pattern), exclude))
    } else {
        Ok(BlockSearcher::new(delimiter_pred, LinePred::substring(pattern), exclude))
    }
}

impl Searcher for BlockSearcher {
    open spec fn search_spec(&self, content: Seq<char>) -> Seq<Seq<char>> {
        search_results(
            content,
            self.delimiter_pred().as_spec_fn(),
            self.pattern_pred().as_spec_fn(),
            self.exclude_mode(),
        )
    }

    fn search_from_str<'a>(&self, content: &'a str) -> (r: Vec<&'a str>) {
        self.process_str(content)
    }
}

} // verus!
