//! Regular-expression replacement through the `regex` crate.
use vstd::prelude::*;

verus! {

#[verifier::external_type_specification]
#[verifier::external_body]
pub struct ExRegex(regex::Regex);

#[verifier::external_type_specification]
#[verifier::external_body]
pub struct ExRegexError(regex::Error);

/// Whether `regex::Regex::new` accepts `pattern`.
pub uninterp spec fn regex_compiles(pattern: Seq<char>) -> bool;

/// What `regex::Regex::replace` returns for the regex compiled from `pattern`, the text
/// `haystack` and the replacement `rep`: the leftmost-first match replaced by `rep`
/// with its `$` group references expanded, or `haystack` when nothing matches.
pub uninterp spec fn regex_replace_first(pattern: Seq<char>, haystack: Seq<char>, rep: Seq<char>) -> Seq<char>;

/// A compiled regular expression together with the pattern it was compiled from.
/// Only [`compile`] builds one, so the two always agree.
pub struct Pattern {
    source: String,
    compiled: regex::Regex,
}

impl View for Pattern {
    type V = Seq<char>;

    closed spec fn view(&self) -> Seq<char> {
        self.source@
    }
}

/// `regex::Regex::new`: succeeds exactly when the pattern compiles ([`regex_compiles`]);
/// the compiled pattern remembers its source.
#[verifier::external_body]
pub(crate) fn compile(pattern: &str) -> (r: Result<Pattern, regex::Error>)
    ensures
        r is Ok <==> regex_compiles(pattern@),
        r matches Ok(p) ==> p@ == pattern@,
{
    regex::Regex::new(pattern).map(|re| Pattern { source: pattern.to_string(), compiled: re })
}

/// `regex::Regex::replace`: the result is [`regex_replace_first`] of the pattern, the
/// haystack and the replacement.
#[verifier::external_body]
pub(crate) fn replace_first(p: &Pattern, haystack: &str, rep: &str) -> (r: String)
    ensures
        r@ == regex_replace_first(p@, haystack@, rep@),
{
    p.compiled.replace(haystack, rep).into_owned()
}

} // verus!
