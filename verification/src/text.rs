//! Text handled by the command parser: what the regular expressions of the
//! `regex` crate and the Unicode functions of `str` give, and comparisons of
//! texts character by character.

use vstd::prelude::*;
use vstd::string::StrSliceExecFns;
use regex::Regex;

verus! {

/// The view of a text that may be missing.
pub open spec fn text_of(text: Option<String>) -> Option<Seq<char>> {
    match text {
        Some(t) => Some(t@),
        None => None,
    }
}

/// What the group named `group` of the regular expression `pattern` matched in
/// the leftmost match of the expression in `haystack`, as the `regex` crate
/// finds it; `None` where `pattern` is no regular expression that the crate
/// takes, where it matches nowhere in `haystack`, where it has no group of that
/// name, and where the group took no part in the match.
pub uninterp spec fn regex_capture(pattern: Seq<char>, haystack: Seq<char>, group: Seq<char>) -> Option<Seq<char>>;

/// Calls `regex::Regex::new` on `pattern`, `Regex::captures` on `haystack` and
/// `Captures::name` on `group`, and hands out the text of the match. The
/// contract gives the result the name `regex_capture` and claims no more than
/// that it depends on the three texts alone.
#[verifier::external_body]
pub(crate) fn capture(pattern: &str, haystack: &str, group: &str) -> (r: Option<String>)
    ensures
        text_of(r) == regex_capture(pattern@, haystack@, group@),
{
    let expression = match Regex::new(pattern) {
        Ok(expression) => expression,
        Err(_) => return None,
    };
    let captures = match expression.captures(haystack) {
        Some(captures) => captures,
        None => return None,
    };
    match captures.name(group) {
        Some(found) => Some(found.as_str().to_string()),
        None => None,
    }
}

/// The whitespace characters: those with the Unicode property `White_Space`.
pub open spec fn is_whitespace(c: char) -> bool {
    ||| '\u{9}' <= c <= '\u{d}'
    ||| c == ' '
    ||| c == '\u{85}'
    ||| c == '\u{a0}'
    ||| c == '\u{1680}'
    ||| '\u{2000}' <= c <= '\u{200a}'
    ||| c == '\u{2028}'
    ||| c == '\u{2029}'
    ||| c == '\u{202f}'
    ||| c == '\u{205f}'
    ||| c == '\u{3000}'
}

/// `text` without the whitespace at its start.
pub open spec fn trimmed_start(text: Seq<char>) -> Seq<char>
    decreases text.len(),
{
    if text.len() > 0 && is_whitespace(text[0]) {
        trimmed_start(text.skip(1))
    } else {
        text
    }
}

/// `text` without the whitespace at its end.
pub open spec fn trimmed_end(text: Seq<char>) -> Seq<char>
    decreases text.len(),
{
    if text.len() > 0 && is_whitespace(text.last()) {
        trimmed_end(text.drop_last())
    } else {
        text
    }
}

/// `text` without the whitespace at its start and at its end.
pub open spec fn trimmed(text: Seq<char>) -> Seq<char> {
    trimmed_end(trimmed_start(text))
}

/// Calls `str::trim`, which takes the leading and trailing whitespace off a
/// text, whitespace being the characters with the Unicode property
/// `White_Space`. The contract says so: the result is `text` from its first
/// character that is no whitespace to its last.
#[verifier::external_body]
pub(crate) fn trim(text: &str) -> (r: &str)
    ensures
        r@ == trimmed(text@),
{
    text.trim()
}

/// `text` in lower case, as `str::to_lowercase` gives it.
pub uninterp spec fn lowercased(text: Seq<char>) -> Seq<char>;

/// Calls `str::to_lowercase`, which gives the lowercase equivalent of a text by
/// the Unicode property `Lowercase`. The contract gives the result the name
/// `lowercased`.
#[verifier::external_body]
pub(crate) fn to_lowercase(text: &str) -> (r: String)
    ensures
        r@ == lowercased(text@),
{
    text.to_lowercase()
}

/// `prefix` stands at the start of `text`.
pub open spec fn is_prefix(prefix: Seq<char>, text: Seq<char>) -> bool {
    prefix.len() <= text.len() && text.take(prefix.len() as int) == prefix
}

/// Says whether `text` starts with `prefix`.
pub fn starts_with(text: &str, prefix: &str) -> (r: bool)
    ensures
        r == is_prefix(prefix@, text@),
{
    let length = prefix.unicode_len();
    if text.unicode_len() < length {
        return false;
    }
    let mut i: usize = 0;
    while i < length
        invariant
            0 <= i <= length,
            length == prefix@.len(),
            length <= text@.len(),
            text@.take(i as int) == prefix@.take(i as int),
        decreases length - i,
    {
        if text.get_char(i) != prefix.get_char(i) {
            assert(text@.take(length as int)[i as int] != prefix@[i as int]);
            return false;
        }
        assert(text@.take(i + 1) =~= text@.take(i as int).push(text@[i as int]));
        assert(prefix@.take(i + 1) =~= prefix@.take(i as int).push(prefix@[i as int]));
        i += 1;
    }
    assert(prefix@.take(length as int) =~= prefix@);
    true
}

/// Says whether `text` and `other` are the same text.
pub fn same_text(text: &str, other: &str) -> (r: bool)
    ensures
        r == (text@ == other@),
{
    if text.unicode_len() != other.unicode_len() {
        return false;
    }
    let r = starts_with(text, other);
    assert(text@.take(text@.len() as int) =~= text@);
    r
}

} // verus!
