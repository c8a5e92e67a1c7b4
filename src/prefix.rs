use vstd::prelude::*;

use crate::text::{chars_of, file_name, file_name_of, string_of};

verus! {

/// The compile error of `regex::Regex::new`, carried through opaque.
#[verifier::external_type_specification]
#[verifier::external_body]
pub struct ExRegexError(regex::Error);

/// Whether `regex` accepts `pattern` as a regular expression.
pub uninterp spec fn pattern_valid(pattern: Seq<char>) -> bool;

/// The text of the leftmost-first match of `pattern` in `text`, if any.
pub uninterp spec fn pattern_match(pattern: Seq<char>, text: Seq<char>) -> Option<Seq<char>>;

/// Relies on `regex::Regex::new` (which fails exactly on patterns it does not
/// accept) and `regex::Regex::find` (the leftmost-first match, as text).
#[verifier::external_body]
fn find_first(pattern: &str, text: &str) -> (r: Result<Option<String>, regex::Error>)
    ensures
        r is Ok <==> pattern_valid(pattern@),
        r is Ok ==> match pattern_match(pattern@, text@) {
            Some(m) => r->Ok_0 is Some && r->Ok_0->0@ == m,
            None => r->Ok_0 is None,
        },
{
    regex::Regex::new(pattern).map(|re| re.find(text).map(|m| m.as_str().to_string()))
}

/// Why no header tag could be derived from a file's name.
#[derive(Debug, Clone, Copy, PartialEq, Eq, Structural)]
pub enum PrefixError {
    /// The path has no file name.
    InvalidPath,
    /// The pattern is not a valid regular expression.
    InvalidPattern,
    /// The file name holds no match of the pattern.
    NoMatch,
}

/// The marker that ends every filename-derived tag.
pub open spec fn tag_suffix() -> Seq<char> {
    seq!['#', '0', '#']
}

/// The tag for a file whose name gave the match `matched`.
pub open spec fn tag_of(matched: Seq<char>) -> Seq<char> {
    matched + tag_suffix()
}

/// The tag derived from the file name of `path` with `pattern`, or why there is none.
pub open spec fn prefix_result(path: Seq<char>, pattern: Seq<char>) -> Result<
    Seq<char>,
    PrefixError,
> {
    match file_name_of(path) {
        None => Err(PrefixError::InvalidPath),
        Some(name) => if !pattern_valid(pattern) {
            Err(PrefixError::InvalidPattern)
        } else {
            match pattern_match(pattern, name) {
                Some(m) => Ok(tag_of(m)),
                None => Err(PrefixError::NoMatch),
            }
        },
    }
}

/// A string result seen through the string's characters.
pub open spec fn result_view(r: Result<String, PrefixError>) -> Result<Seq<char>, PrefixError> {
    match r {
        Ok(s) => Ok(s@),
        Err(e) => Err(e),
    }
}

/// Turns the result of matching the pattern against a file name into a header
/// tag: the matched text followed by `#0#`, or `NoMatch` when there was no match.
pub fn prefix_from_match(matched: Option<String>) -> (r: Result<String, PrefixError>)
    ensures
        match matched {
            Some(m) => r is Ok && r->Ok_0@ == tag_of(m@),
            None => r == Err::<String, PrefixError>(PrefixError::NoMatch),
        },
{
    match matched {
        Some(m) => {
            let mut out = chars_of(m.as_str());
            out.push('#');
            out.push('0');
            out.push('#');
            assert(out@ =~= tag_of(m@));
            Ok(string_of(out.as_slice()))
        },
        None => Err(PrefixError::NoMatch),
    }
}

/// Derives the header tag of the file at `path` from its file name (its last
/// path component): the span that `pattern` matches first, followed by `#0#`.
pub fn extract_prefix_from_path(path: &str, pattern: &str) -> (r: Result<String, PrefixError>)
    ensures
        result_view(r) == prefix_result(path@, pattern@),
{
    let cs = chars_of(path);
    match file_name(cs.as_slice()) {
        None => Err(PrefixError::InvalidPath),
        Some(n) => {
            let name = string_of(n.as_slice());
            match find_first(pattern, name.as_str()) {
                Err(_) => Err(PrefixError::InvalidPattern),
                Ok(found) => prefix_from_match(found),
            }
        },
    }
}

} // verus!
