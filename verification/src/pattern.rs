//! Regular-expression replacement, done by the `regex` crate.

use vstd::prelude::*;

verus! {

/// `regex::Regex`, held unread.
#[verifier::external_type_specification]
#[verifier::external_body]
pub struct ExRegex(regex::Regex);

/// What `regex::Regex::new` says of a pattern: `None` when it compiles
/// it, otherwise the text of the error it returns (as `Display` shows it).
pub uninterp spec fn regex_refusal(pattern: Seq<char>) -> Option<Seq<char>>;

/// Whether `regex::Regex::new` accepts the pattern.
pub open spec fn regex_accepts(pattern: Seq<char>) -> bool {
    regex_refusal(pattern) is None
}

/// What `Regex::replace_all` returns for the regex compiled from `pattern`,
/// applied to `text` with the replacement template `replacement`
/// (`$1`, `$name` and so on refer to capture groups).
pub uninterp spec fn regex_replaced(pattern: Seq<char>, text: Seq<char>, replacement: Seq<char>) -> Seq<char>;

/// A compiled regular expression together with the pattern it was
/// compiled from. Only `compile_pattern` makes one.
pub struct CompiledPattern {
    source: String,
    re: regex::Regex,
}

impl CompiledPattern {
    /// The pattern this regex was compiled from.
    pub closed spec fn pattern(self) -> Seq<char> {
        self.source@
    }
}

/// Trusted: calls `regex::Regex::new`. Claimed: whether it succeeds, and
/// the text of its error, depend on the pattern alone (named
/// `regex_refusal`); on success the regex is kept together with a copy of
/// the pattern it came from.
#[verifier::external_body]
pub(crate) fn compile_pattern(pattern: &str) -> (r: Result<CompiledPattern, String>)
    ensures
        match (r, regex_refusal(pattern@)) {
            (Ok(c), None) => c.pattern() == pattern@,
            (Err(m), Some(t)) => m@ == t,
            _ => false,
        },
{
    match regex::Regex::new(pattern) {
        Ok(re) => Ok(CompiledPattern { source: pattern.to_string(), re }),
        Err(e) => Err(e.to_string()),
    }
}

/// Trusted: calls `regex::Regex::replace_all`. Claimed: the result depends
/// only on the pattern the regex was compiled from, the text and the
/// replacement template; that function is named `regex_replaced`.
#[verifier::external_body]
pub(crate) fn replace_matches(c: &CompiledPattern, text: &str, replacement: &str) -> (r: String)
    ensures
        r@ == regex_replaced(c.pattern(), text@, replacement@),
{
    c.re.replace_all(text, replacement).into_owned()
}

} // verus!
