//! Getting the question bank ready: rewriting image markup in the source
//! text, and loading what was parsed from it.

use crate::models::{load_test, RawTest, Test, TestPartView};
use vstd::prelude::*;

verus! {

/// Image markup in the source text: a path to a PNG file between image tags.
pub const IMG_PATTERN: &'static str = "\\[img\\](\\S+\\.png)\\[/img\\]";

/// What image markup is rewritten to: an image element for the same path
/// under the static images.
pub const IMG_REPLACEMENT: &'static str = "<img src='/static/img/$1'>";

/// Whether `regex::Regex::new` accepts `pattern`.
pub uninterp spec fn pattern_is_valid(pattern: Seq<char>) -> bool;

/// What `regex::Regex::replace_all` returns for `haystack` and
/// `replacement` on the regular expression compiled from `pattern`.
pub uninterp spec fn all_replaced(
    pattern: Seq<char>,
    haystack: Seq<char>,
    replacement: Seq<char>,
) -> Seq<char>;

/// Compiles `pattern` with `regex::Regex::new` and, where that succeeds,
/// replaces all matches in `haystack` with `regex::Regex::replace_all`.
/// Nothing is proved of this: the contract only gives names to whether the
/// pattern compiles and to the text that comes out, both of which depend on
/// the three arguments alone.
#[verifier::external_body]
fn replace_all_matches(pattern: &str, haystack: &str, replacement: &str) -> (replaced: Option<
    String,
>)
    ensures
        replaced is Some <==> pattern_is_valid(pattern@),
        replaced matches Some(text) ==> text@ == all_replaced(pattern@, haystack@, replacement@),
{
    match regex::Regex::new(pattern) {
        Ok(re) => Some(re.replace_all(haystack, replacement).into_owned()),
        Err(_) => None,
    }
}

/// Settles what the preprocessing hands on: the rewritten text, or the
/// input itself where rewriting was not possible.
pub fn preprocessed(input: &str, replaced: Option<String>) -> (text: String)
    ensures
        text@ == match replaced {
            Some(rewritten) => rewritten@,
            None => input@,
        },
{
    match replaced {
        Some(rewritten) => rewritten,
        None => String::from_str(input),
    }
}

/// Rewrites the image markup of the source text into image elements. Where
/// the pattern cannot be used the text is handed on unchanged.
pub fn html_preprocessor(input: &str) -> (text: String)
    ensures
        text@ == if pattern_is_valid(IMG_PATTERN@) {
            all_replaced(IMG_PATTERN@, input@, IMG_REPLACEMENT@)
        } else {
            input@
        },
{
    preprocessed(input, replace_all_matches(IMG_PATTERN, input, IMG_REPLACEMENT))
}

/// Loads the test from what was parsed from the source text. A source that
/// could not be parsed gives the empty test.
pub fn get_giga_test(parsed: Option<RawTest>) -> (test: Test)
    ensures
        test@ == match parsed {
            Some(raw) => load_test(raw@),
            None => Seq::<(Seq<char>, TestPartView)>::empty(),
        },
{
    match parsed {
        Some(raw) => Test::from(raw),
        None => Test::default(),
    }
}

} // verus!
