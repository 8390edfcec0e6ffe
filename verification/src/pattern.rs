//! Case-insensitive substitution by regular expression.

use vstd::prelude::*;

verus! {

/// `regex::Error`: why a pattern could not be compiled. Nothing inside it is
/// looked at here.
#[verifier::external_type_specification]
#[verifier::external_body]
pub struct ExPatternError(regex::Error);

/// Whether `pattern` compiles as a case-insensitive regular expression: whether
/// `RegexBuilder::build` succeeds on it.
pub uninterp spec fn compiles(pattern: Seq<char>) -> bool;

/// `text` with every match of `pattern`, taken case-insensitively, replaced by
/// `replacement`: the value of `Regex::replace_all`.
pub uninterp spec fn substituted(
    pattern: Seq<char>,
    text: Seq<char>,
    replacement: Seq<char>,
) -> Seq<char>;

/// What substituting gives: the new text, or nothing where `pattern` does not
/// compile.
pub open spec fn substitution(
    pattern: Seq<char>,
    text: Seq<char>,
    replacement: Seq<char>,
) -> Option<Seq<char>> {
    if compiles(pattern) {
        Some(substituted(pattern, text, replacement))
    } else {
        None
    }
}

/// Compiles `pattern` with `RegexBuilder::new`, `case_insensitive(true)` and
/// `build`, then calls `Regex::replace_all` on `text` with `replacement` as a
/// replacement string, in which `$` refers to capture groups. The build fails
/// or succeeds by the pattern alone; the new text depends on the three
/// strings alone. Nothing more is claimed of either.
#[verifier::external_body]
pub(crate) fn substitute(pattern: &str, text: &str, replacement: &str) -> (r: Result<
    String,
    regex::Error,
>)
    ensures
        r is Ok <==> compiles(pattern@),
        r matches Ok(s) ==> s@ == substituted(pattern@, text@, replacement@),
{
    let re = regex::RegexBuilder::new(pattern).case_insensitive(true).build()?;
    Ok(re.replace_all(text, replacement).into_owned())
}

} // verus!
