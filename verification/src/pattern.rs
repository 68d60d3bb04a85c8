//! Detection patterns: regular expressions of the `regex` crate, kept with
//! their source text so that contracts can speak of what they match.
use vstd::prelude::*;
use crate::error::IntegrityError;
use crate::text::{contains, owned};

verus! {

#[verifier::external_type_specification]
#[verifier::external_body]
pub struct ExRegex(regex::Regex);

#[verifier::external_type_specification]
#[verifier::external_body]
pub struct ExRegexError(regex::Error);

/// Whether `regex::Regex::new` accepts `pattern` (valid syntax, within the
/// default size limit).
pub uninterp spec fn regex_compiles(pattern: Seq<char>) -> bool;

/// The texts of the successive non-overlapping matches of `pattern` in
/// `text`, as `Regex::find_iter` yields them.
pub uninterp spec fn regex_find_all(pattern: Seq<char>, text: Seq<char>) -> Seq<Seq<char>>;

/// The pieces of `text` between the matches of `pattern`, as `Regex::split`
/// yields them.
pub uninterp spec fn regex_split(pattern: Seq<char>, text: Seq<char>) -> Seq<Seq<char>>;

/// A compiled regular expression together with its source.
pub struct Pattern {
    source: String,
    compiled: regex::Regex,
}

impl View for Pattern {
    type V = Seq<char>;

    /// The pattern's source text.
    closed spec fn view(&self) -> Seq<char> {
        self.source@
    }
}

/// The texts of a vector of strings.
pub open spec fn texts(v: Seq<String>) -> Seq<Seq<char>> {
    v.map_values(|s: String| s@)
}

/// `regex::Regex::new`.
///
/// Claims that it succeeds exactly on the patterns named `regex_compiles`,
/// and that the pattern it returns is compiled from `source`.
#[verifier::external_body]
fn regex_new(source: &str) -> (r: Result<Pattern, regex::Error>)
    ensures
        r is Ok <==> regex_compiles(source@),
        r matches Ok(p) ==> p@ == source@,
{
    match regex::Regex::new(source) {
        Ok(compiled) => Ok(Pattern { source: source.to_string(), compiled }),
        Err(e) => Err(e),
    }
}

/// `Regex::find_iter`, each match taken as its text (`Match::as_str`).
///
/// Claims that the texts are `regex_find_all` of the pattern and the text,
/// and that each is a substring of the text (a match is a part of the
/// haystack).
#[verifier::external_body]
fn regex_find_iter(p: &Pattern, text: &str) -> (r: Vec<String>)
    ensures
        texts(r@) == regex_find_all(p@, text@),
        forall|i: int| 0 <= i < r@.len() ==> contains(text@, #[trigger] r@[i]@),
{
    let mut r = Vec::new();
    for m in p.compiled.find_iter(text) {
        r.push(m.as_str().to_string());
    }
    r
}

/// `Regex::is_match`.
///
/// Claims that it tells whether the pattern matches somewhere in the text,
/// that is, whether `find_iter` yields a match.
#[verifier::external_body]
fn regex_is_match(p: &Pattern, text: &str) -> (r: bool)
    ensures
        r == (regex_find_all(p@, text@).len() > 0),
{
    p.compiled.is_match(text)
}

/// `Regex::split`, each piece taken as a `String`.
///
/// Claims that the pieces are `regex_split` of the pattern and the text.
#[verifier::external_body]
fn regex_split_text(p: &Pattern, text: &str) -> (r: Vec<String>)
    ensures
        texts(r@) == regex_split(p@, text@),
{
    let mut r = Vec::new();
    for piece in p.compiled.split(text) {
        r.push(piece.to_string());
    }
    r
}

impl Pattern {
    /// Compiles `source`; fails exactly when the engine refuses it.
    pub fn new(source: &str) -> (r: Result<Pattern, IntegrityError>)
        ensures
            r is Ok <==> regex_compiles(source@),
            r matches Ok(p) ==> p@ == source@,
            r matches Err(e) ==> e == IntegrityError::InvalidPattern(e->InvalidPattern_0) && e->InvalidPattern_0@ == source@,
    {
        match regex_new(source) {
            Ok(p) => Ok(p),
            Err(_) => Err(IntegrityError::InvalidPattern(owned(source))),
        }
    }

    /// The texts of the successive matches in `text`.
    pub fn find_all(&self, text: &str) -> (r: Vec<String>)
        ensures
            texts(r@) == regex_find_all(self@, text@),
            forall|i: int| 0 <= i < r@.len() ==> contains(text@, #[trigger] r@[i]@),
    {
        regex_find_iter(self, text)
    }

    /// Whether the pattern matches somewhere in `text`.
    pub fn is_match(&self, text: &str) -> (r: bool)
        ensures
            r == (regex_find_all(self@, text@).len() > 0),
    {
        regex_is_match(self, text)
    }

    /// The pieces of `text` between matches.
    pub fn split(&self, text: &str) -> (r: Vec<String>)
        ensures
            texts(r@) == regex_split(self@, text@),
    {
        regex_split_text(self, text)
    }
}

/// The sources of a list of patterns.
pub open spec fn sources(ps: Seq<Pattern>) -> Seq<Seq<char>> {
    ps.map_values(|p: Pattern| p@)
}

/// Every source compiles.
pub open spec fn all_compile(srcs: Seq<Seq<char>>) -> bool {
    forall|i: int| 0 <= i < srcs.len() ==> regex_compiles(#[trigger] srcs[i])
}

/// Compiles each source, in order; fails at the first that the engine refuses.
pub fn compile_all(srcs: &[&str]) -> (r: Result<Vec<Pattern>, IntegrityError>)
    ensures
        r is Ok <==> all_compile(crate::text::lit_views(srcs@)),
        r matches Ok(ps) ==> sources(ps@) == crate::text::lit_views(srcs@),
{
    let mut ps: Vec<Pattern> = Vec::new();
    let mut i: usize = 0;
    while i < srcs.len()
        invariant
            i <= srcs@.len(),
            sources(ps@) == crate::text::lit_views(srcs@.take(i as int)),
            all_compile(crate::text::lit_views(srcs@.take(i as int))),
        decreases srcs@.len() - i,
    {
        let ghost before = sources(ps@);
        assert(crate::text::lit_views(srcs@.take(i + 1)) =~= crate::text::lit_views(srcs@.take(i as int)).push(srcs@[i as int]@));
        match Pattern::new(srcs[i]) {
            Ok(p) => {
                ps.push(p);
                assert(sources(ps@) =~= before.push(srcs@[i as int]@));
            },
            Err(e) => {
                assert(!regex_compiles(crate::text::lit_views(srcs@)[i as int]));
                return Err(e);
            },
        }
        i = i + 1;
    }
    assert(srcs@.take(srcs@.len() as int) =~= srcs@);
    Ok(ps)
}

} // verus!
