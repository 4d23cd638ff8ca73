//! Regular-expression matching of criteria patterns, delegated to the
//! `regex` crate.
use vstd::prelude::*;

verus! {

#[verifier::external_type_specification]
#[verifier::external_body]
pub struct ExRegex(regex::Regex);

/// Whether `regex::Regex::new` accepts `pattern` (syntax and default size
/// limit).
pub uninterp spec fn regex_compiles(pattern: Seq<char>) -> bool;

/// Whether `regex::Regex::is_match` finds a match of the compiled `pattern`
/// anywhere in `text`.
pub uninterp spec fn regex_is_match(pattern: Seq<char>, text: Seq<char>) -> bool;

/// A compiled pattern together with the source it was compiled from. Values
/// are only made by `compile`, so the source always is the pattern.
pub struct CompiledPattern {
    source: String,
    regex: regex::Regex,
}

impl View for CompiledPattern {
    type V = Seq<char>;

    closed spec fn view(&self) -> Seq<char> {
        self.source@
    }
}

/// Calls `regex::Regex::new`. The contract claims that the call succeeds
/// exactly when `regex_compiles` holds of the pattern, and keeps the source.
#[verifier::external_body]
pub(crate) fn compile(pattern: &str) -> (r: Option<CompiledPattern>)
    ensures
        r is Some <==> regex_compiles(pattern@),
        r matches Some(c) ==> c@ == pattern@,
{
    match regex::Regex::new(pattern) {
        Ok(regex) => Some(CompiledPattern { source: pattern.to_string(), regex }),
        Err(_) => None,
    }
}

/// Calls `regex::Regex::is_match`. The contract claims its answer is
/// `regex_is_match` of the pattern's source and the text.
#[verifier::external_body]
pub(crate) fn is_match(compiled: &CompiledPattern, text: &str) -> (b: bool)
    ensures
        b == regex_is_match(compiled@, text@),
{
    compiled.regex.is_match(text)
}

} // verus!
