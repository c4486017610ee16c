//! Matching names against a pattern, by way of the `regex` crate.

use vstd::prelude::*;

verus! {

/// The error of the `regex` crate.
#[verifier::external_type_specification]
#[verifier::external_body]
pub struct ExRegexError(regex::Error);

/// Whether `c` has a meaning of its own in a pattern.
pub open spec fn is_meta(c: char) -> bool {
    ||| c == '\\'
    ||| c == '.'
    ||| c == '+'
    ||| c == '*'
    ||| c == '?'
    ||| c == '('
    ||| c == ')'
    ||| c == '|'
    ||| c == '['
    ||| c == ']'
    ||| c == '{'
    ||| c == '}'
    ||| c == '^'
    ||| c == '$'
    ||| c == '#'
    ||| c == '&'
    ||| c == '-'
    ||| c == '~'
}

/// `text` as a pattern that stands for `text` itself: a backslash is put
/// before each character that has a meaning of its own.
pub open spec fn escaped(text: Seq<char>) -> Seq<char>
    decreases text.len(),
{
    if text.len() == 0 {
        Seq::empty()
    } else if is_meta(text.last()) {
        escaped(text.drop_last()).push('\\').push(text.last())
    } else {
        escaped(text.drop_last()).push(text.last())
    }
}

/// Whether the pattern finds a match somewhere in `haystack`: what
/// `regex::Regex::is_match` returns for the pattern that
/// `regex::Regex::new` makes of `pattern`.
pub uninterp spec fn regex_is_match(pattern: Seq<char>, haystack: Seq<char>) -> bool;

/// Calls `regex::escape`, which goes through the characters of `text` and
/// puts a backslash before each that `regex_syntax::is_meta_character`
/// accepts; `is_meta` lists those characters.
#[verifier::external_body]
pub(crate) fn escape(text: &str) -> (r: String)
    ensures
        r@ == escaped(text@),
{
    regex::escape(text)
}

/// Compiles `pattern` with `regex::Regex::new` and asks
/// `regex::Regex::is_match` whether it matches in `haystack`. Whether a
/// pattern compiles is left open: the crate refuses a pattern that grows
/// beyond a size that it measures on the machine. Of an answer the
/// contract claims that it depends on the pattern and the haystack alone.
#[verifier::external_body]
pub(crate) fn search(pattern: &str, haystack: &str) -> (r: Result<bool, regex::Error>)
    ensures
        r matches Ok(found) ==> found == regex_is_match(pattern@, haystack@),
{
    match regex::Regex::new(pattern) {
        Ok(re) => Ok(re.is_match(haystack)),
        Err(e) => Err(e),
    }
}

/// The text of an error of the `regex` crate, as its `Display` gives it.
/// Nothing is claimed of it.
#[verifier::external_body]
pub(crate) fn error_text(e: &regex::Error) -> (r: String)
{
    e.to_string()
}

/// The pattern that a query stands for: the query itself, taken
/// literally, which must be the whole name where `exact` is set, and may
/// stand anywhere in the name, in upper or lower case, where it is not.
pub open spec fn name_pattern(query: Seq<char>, exact: bool) -> Seq<char> {
    if exact {
        "^"@ + escaped(query) + "$"@
    } else {
        "(?i)"@ + escaped(query)
    }
}

pub fn pattern_for(query: &str, exact: bool) -> (p: String)
    ensures
        p@ == name_pattern(query@, exact),
{
    let quoted = escape(query);
    if exact {
        let mut p = String::from_str("^");
        p.append(quoted.as_str());
        p.append("$");
        p
    } else {
        let mut p = String::from_str("(?i)");
        p.append(quoted.as_str());
        p
    }
}

} // verus!
