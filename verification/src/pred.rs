//! Line predicates: substring containment, case-folded substring containment,
//! and regular-expression search. The regular-expression engine and case
//! folding come from outside code behind trusted declarations.
use vstd::prelude::*;
use vstd::string::StringExecFns;

verus! {

#[verifier::external_type_specification]
#[verifier::external_body]
pub struct ExRegex(regex::Regex);

#[verifier::external_type_specification]
#[verifier::external_body]
pub struct ExRegexError(regex::Error);

/// Whether `regex::Regex::new` accepts `pattern`: compilation succeeds or
/// fails on the pattern text alone.
pub uninterp spec fn regex_compiles(pattern: Seq<char>) -> bool;

/// Whether the compiled expression for `pattern` matches somewhere inside
/// `line` (a partial match, not anchored): a function of the two texts alone.
pub uninterp spec fn regex_accepts(pattern: Seq<char>, line: Seq<char>) -> bool;

/// What `str::to_lowercase` returns for a text: a function of the characters
/// alone.
pub uninterp spec fn lower_of(s: Seq<char>) -> Seq<char>;

/// A compiled regular expression together with the pattern text it was
/// compiled from.
pub struct CompiledRegex {
    re: regex::Regex,
    pat: String,
}

impl CompiledRegex {
    /// The pattern text this expression was compiled from.
    pub closed spec fn pattern(self) -> Seq<char> {
        self.pat@
    }
}

/// Relies on regex::Regex::new: success depends on the pattern text alone,
/// and the returned value is the expression compiled from exactly that text.
#[verifier::external_body]
pub(crate) fn compile_regex(pattern: &str) -> (r: Result<CompiledRegex, regex::Error>)
    ensures
        r is Ok <==> regex_compiles(pattern@),
        r matches Ok(c) ==> c.pattern() == pattern@,
{
    match regex::Regex::new(pattern) {
        Ok(re) => Ok(CompiledRegex { re, pat: pattern.to_owned() }),
        Err(e) => Err(e),
    }
}

/// Relies on regex::Regex::is_match: true iff the expression matches anywhere
/// in the line, determined by the pattern and the line alone.
#[verifier::external_body]
pub(crate) fn regex_is_match(c: &CompiledRegex, line: &str) -> (r: bool)
    ensures
        r == regex_accepts(c.pattern(), line@),
{
    c.re.is_match(line)
}

/// Relies on the Display impl of regex::Error for the compiler's diagnostic
/// text.
#[verifier::external_body]
pub(crate) fn regex_error_message(e: &regex::Error) -> (r: String) {
    e.to_string()
}

/// Relies on str::to_lowercase: the result depends on the characters alone.
#[verifier::external_body]
pub(crate) fn to_lowercase(s: &str) -> (r: String)
    ensures
        r@ == lower_of(s@),
{
    s.to_lowercase()
}

/// A delimiter or pattern string failed to compile as a regular expression.
/// Carries the offending pattern and the compiler's diagnostic.
#[derive(Debug)]
pub struct PatternCompileError {
    pub pattern: String,
    pub message: String,
}

/// A pure boolean predicate on a single line of text.
pub enum LinePred {
    /// The line contains the stored text as-is.
    Substring { pattern: String },
    /// The case-folded line contains the stored (already case-folded) text.
    FoldedSubstring { pattern: String },
    /// The compiled regular expression matches somewhere in the line.
    Regex { regex: CompiledRegex },
}

impl LinePred {
    /// What the predicate says of a line.
    pub open spec fn holds(self, line: Seq<char>) -> bool {
        match self {
            LinePred::Substring { pattern } => crate::model::contains_seq(line, pattern@),
            LinePred::FoldedSubstring { pattern } => crate::model::contains_seq(
                lower_of(line),
                pattern@,
            ),
            LinePred::Regex { regex } => regex_accepts(regex.pattern(), line),
        }
    }

    /// The predicate as a spec-level function on line contents.
    pub open spec fn as_spec_fn(self) -> spec_fn(Seq<char>) -> bool {
        |l: Seq<char>| self.holds(l)
    }

    /// Decide the predicate on one line.
    pub fn eval(&self, line: &str) -> (r: bool)
        ensures
            r == self.holds(line@),
    {
        match self {
            LinePred::Substring { pattern } => crate::search::str_contains(line, pattern.as_str()),
            LinePred::FoldedSubstring { pattern } => {
                let folded = to_lowercase(line);
                crate::search::str_contains(folded.as_str(), pattern.as_str())
            },
            LinePred::Regex { regex } => regex_is_match(regex, line),
        }
    }

    /// Case-sensitive plain-text containment.
    pub fn substring(pattern: &str) -> (p: LinePred)
        ensures
            forall|l: Seq<char>| #[trigger]
                p.holds(l) == crate::model::contains_seq(l, pattern@),
    {
        LinePred::Substring { pattern: String::from_str(pattern) }
    }

    /// Case-insensitive plain-text containment: the stored pattern is folded
    /// now, each candidate line is folded when tested.
    pub fn folded_substring(pattern: &str) -> (p: LinePred)
        ensures
            forall|l: Seq<char>| #[trigger]
                p.holds(l) == crate::model::contains_seq(lower_of(l), lower_of(pattern@)),
    {
        LinePred::FoldedSubstring { pattern: to_lowercase(pattern) }
    }

    /// Regular-expression search. Fails exactly when the pattern does not
    /// compile, and then reports the offending pattern with the compiler's
    /// diagnostic.
    pub fn regex(pattern: &str) -> (r: Result<LinePred, PatternCompileError>)
        ensures
            r is Ok <==> regex_compiles(pattern@),
            r matches Ok(p) ==> forall|l: Seq<char>| #[trigger]
                p.holds(l) == regex_accepts(pattern@, l),
            r matches Err(e) ==> e.pattern@ == pattern@,
    {
        match compile_regex(pattern) {
            Ok(regex) => Ok(LinePred::Regex { regex }),
            Err(e) => {
                let message = regex_error_message(&e);
                Err(PatternCompileError { pattern: String::from_str(pattern), message })
            },
        }
    }
}

} // verus!
