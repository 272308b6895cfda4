//! Input validation: length bounds and the shapes of names, passwords, urls.

use vstd::prelude::*;
use vstd::utf8::encode_utf8;
use crate::outside::{trimmed, pattern_compiles, pattern_matches, trim_str, regex_is_match};

verus! {

/// Pattern of a user name: three to forty-two word characters or dashes.
pub const NAME_PATTERN: &'static str = "^[\\w-]{3,42}$";
/// Pattern of a password.
pub const PSW_PATTERN: &'static str = "^[\\w#@~%^$&*-]{8,18}$";
/// Pattern of an http or https url.
pub const URL_PATTERN: &'static str = "^(https?)://([^/:]+)(:[0-9]+)?(/.*)?$";

/// Longest title, in bytes.
pub const TITLE_LEN: usize = 256;
/// Longest url, in bytes.
pub const URL_LEN: usize = 256;
/// Longest external id, in bytes.
pub const UIID_LEN: usize = 32;
/// Longest short field (a category), in bytes.
pub const ST_LEN: usize = 16;

/// Number of UTF-8 bytes of a text once trimmed.
pub open spec fn trimmed_len(text: Seq<char>) -> int {
    encode_utf8(trimmed(text)).len() as usize as int
}

/// Whether a text matches a pattern that compiles.
pub open spec fn matches_pattern(pattern: Seq<char>, text: Seq<char>) -> bool {
    pattern_compiles(pattern) && pattern_matches(pattern, text)
}

/// Whether the trimmed text is between `min` and `max` bytes long, inclusive.
pub fn test_len_limit(text: &str, min: usize, max: usize) -> (r: bool)
    ensures
        r == (min <= trimmed_len(text@) && trimmed_len(text@) <= max),
{
    let l = trim_str(text).len();
    l >= min && l <= max
}

fn test_pattern(pattern: &str, text: &str) -> (r: bool)
    ensures
        r == matches_pattern(pattern@, text@),
{
    match regex_is_match(pattern, text) {
        Some(b) => b,
        None => false,
    }
}

/// Whether `text` is a well-formed user name.
pub fn re_test_name(text: &str) -> (r: bool)
    ensures
        r == matches_pattern(NAME_PATTERN@, text@),
{
    test_pattern(NAME_PATTERN, text)
}

/// Whether `text` is a well-formed password.
pub fn re_test_psw(text: &str) -> (r: bool)
    ensures
        r == matches_pattern(PSW_PATTERN@, text@),
{
    test_pattern(PSW_PATTERN, text)
}

/// Whether `text` is an http or https url.
pub fn re_test_url(text: &str) -> (r: bool)
    ensures
        r == matches_pattern(URL_PATTERN@, text@),
{
    test_pattern(URL_PATTERN, text)
}

} // verus!
