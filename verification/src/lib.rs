//! logrep: a block-oriented text filter. A text is split into lines, the
//! lines are grouped into blocks around lines matching a delimiter predicate,
//! and whole blocks are kept or dropped depending on whether any of their
//! lines matches a pattern predicate.
pub mod laws;
pub mod model;
pub mod pred;
pub mod search;

pub use search::BlockSearcher;
pub use search::Searcher;
pub use search::create_block_searcher;
pub use search::effective_pattern;
pub use search::split_lines;
pub use search::str_contains;

pub use pred::CompiledRegex;
pub use pred::LinePred;
pub use pred::PatternCompileError;
pub use pred::lower_of;
pub use pred::regex_accepts;
pub use pred::regex_compiles;

pub use laws::lemma_blocks_partition;
pub use laws::lemma_blocks_structure;
pub use laws::lemma_empty_input;
pub use laws::lemma_exclude_complement;
pub use laws::lemma_no_delimiter_single_block;
pub use laws::lemma_rerun_identical;

pub use model::block_matches;
pub use model::block_retained;
pub use model::blocks_of;
pub use model::contains_seq;
pub use model::filtered_lines;
pub use model::lines_of;
pub use model::search_results;
pub use model::split_fragments;
