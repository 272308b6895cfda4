//! The read-only query surface: selectors built from request paths, and
//! paging windows.

use vstd::prelude::*;
use vstd::utf8::{valid_utf8, decode_utf8};
use crate::model::CollectIDs;
use crate::outside::{trimmed, base64_decoded, trim_str, decode_base64, string_from_utf8};

verus! {

/// Number of rows on a page.
pub const PER_PAGE: u64 = 20;

/// Most rows of an unpaged fuzzy query.
pub const ANS_LIMIT: u64 = 10;

/// Selects items by id, external id, title, url, rut, tag, user mark or
/// keyword.
#[derive(Debug, Clone, PartialEq, Eq)]
pub enum ItemsPerID {
    ItemID(String),
    Uiid(String),
    Title(String),
    ItemUrl(String),
    RutID(String),
    TagID(String),
    /// A user name, a mark flag code and a page.
    UserID(String, i16, i32),
    /// A keyword, a source filter, a source id and a page.
    KeyID(String, String, String, i32),
}

/// Whether a selector asks for a fuzzy match on a pattern.
pub open spec fn fuzzy_pattern(sel: ItemsPerID) -> Option<Seq<char>> {
    match sel {
        ItemsPerID::Uiid(p) => Some(p@),
        ItemsPerID::Title(p) => Some(p@),
        ItemsPerID::ItemUrl(p) => Some(p@),
        ItemsPerID::KeyID(k, _, _, _) => Some(k@),
        _ => None,
    }
}

impl ItemsPerID {
    /// Whether the selector can be run: a fuzzy match needs a pattern.
    pub fn validate(&self) -> (r: bool)
        ensures
            r == match fuzzy_pattern(*self) {
                Some(p) => p.len() > 0,
                None => true,
            },
    {
        match self {
            ItemsPerID::Uiid(p) => p.as_str().unicode_len() > 0,
            ItemsPerID::Title(p) => p.as_str().unicode_len() > 0,
            ItemsPerID::ItemUrl(p) => p.as_str().unicode_len() > 0,
            ItemsPerID::KeyID(k, _, _, _) => k.as_str().unicode_len() > 0,
            _ => true,
        }
    }
}

/// Whether `s` is the word `w`.
pub fn is_word(s: &str, w: &str) -> (r: bool)
    ensures
        r == (s@ == w@),
{
    let n = s.unicode_len();
    if n != w.unicode_len() {
        return false;
    }
    let mut i: usize = 0;
    while i < n
        invariant
            n == s@.len(),
            n == w@.len(),
            i <= n,
            forall|k: int| 0 <= k < i ==> s@[k] == w@[k],
        decreases n - i,
    {
        if s.get_char(i) != w.get_char(i) {
            return false;
        }
        i += 1;
    }
    proof {
        assert(s@ =~= w@);
    }
    true
}

/// The text that a base64 url selector stands for: what it decodes to when
/// that is UTF-8, `not_url` when it is not, and empty when the selector is
/// not base64.
pub open spec fn url_of(encoded: Seq<char>) -> Seq<char> {
    match base64_decoded(encoded) {
        Some(b) => if valid_utf8(b) { decode_utf8(b) } else { "not_url"@ },
        None => Seq::empty(),
    }
}

/// Decodes a base64 url selector, as `url_of` says.
pub fn decode_url(encoded: &str) -> (r: String)
    ensures
        r@ == url_of(encoded@),
{
    let bytes = match decode_base64(encoded) {
        Some(b) => b,
        None => Vec::new(),
    };
    proof {
        if base64_decoded(encoded@) is None {
            assert(bytes@ =~= Seq::<u8>::empty());
            assert(valid_utf8(bytes@)) by {
                vstd::utf8::encode_utf8_valid_utf8(Seq::<char>::empty());
                assert(vstd::utf8::encode_utf8(Seq::<char>::empty()) =~= Seq::<u8>::empty());
            }
            vstd::utf8::encode_utf8_decode_utf8(Seq::<char>::empty());
            assert(vstd::utf8::encode_utf8(Seq::<char>::empty()) =~= Seq::<u8>::empty());
        }
    }
    match string_from_utf8(bytes) {
        Some(s) => s,
        None => String::from_str("not_url"),
    }
}

/// The selector that a request for items `per` / `perid` stands for, with
/// the mark flag code, the page, the keyword and the source filter that the
/// query string carries. `per` is read trimmed; an unknown kind selects by id.
pub open spec fn built_selector(per: Seq<char>, perid: String, flag: i16, page: i32, kw: String, fr: String, r: ItemsPerID) -> bool {
    let p = trimmed(per);
    if p == "uiid"@ {
        r == ItemsPerID::Uiid(perid)
    } else if p == "title"@ {
        r == ItemsPerID::Title(perid)
    } else if p == "url"@ {
        r matches ItemsPerID::ItemUrl(u) && u@ == url_of(perid@)
    } else if p == "rut"@ {
        r == ItemsPerID::RutID(perid)
    } else if p == "tag"@ {
        r == ItemsPerID::TagID(perid)
    } else if p == "user"@ {
        r == ItemsPerID::UserID(perid, flag, page)
    } else if p == "key"@ {
        r == ItemsPerID::KeyID(kw, fr, perid, page)
    } else {
        r == ItemsPerID::ItemID(perid)
    }
}

/// The pattern that the selector built from a request matches fuzzily, if any.
pub open spec fn selector_pattern(per: Seq<char>, perid: Seq<char>, kw: Seq<char>) -> Option<Seq<char>> {
    let p = trimmed(per);
    if p == "uiid"@ || p == "title"@ {
        Some(perid)
    } else if p == "url"@ {
        Some(url_of(perid))
    } else if p == "rut"@ || p == "tag"@ || p == "user"@ {
        None
    } else if p == "key"@ {
        Some(kw)
    } else {
        None
    }
}

/// Builds the selector that `built_selector` describes.
pub fn items_selector(per: &str, perid: String, flag: i16, page: i32, kw: String, fr: String) -> (r: ItemsPerID)
    ensures
        built_selector(per@, perid, flag, page, kw, fr, r),
{
    let p = trim_str(per);
    if is_word(p, "uiid") {
        ItemsPerID::Uiid(perid)
    } else if is_word(p, "title") {
        ItemsPerID::Title(perid)
    } else if is_word(p, "url") {
        ItemsPerID::ItemUrl(decode_url(perid.as_str()))
    } else if is_word(p, "rut") {
        ItemsPerID::RutID(perid)
    } else if is_word(p, "tag") {
        ItemsPerID::TagID(perid)
    } else if is_word(p, "user") {
        ItemsPerID::UserID(perid, flag, page)
    } else if is_word(p, "key") {
        ItemsPerID::KeyID(kw, fr, perid, page)
    } else {
        ItemsPerID::ItemID(perid)
    }
}

/// The collect selector that a request for collects `per` / `perid` stands
/// for: by item or by user with the page, else by rut. `per` is read trimmed.
pub open spec fn built_collects_selector(per: Seq<char>, perid: String, page: i32, r: CollectIDs) -> bool {
    let p = trimmed(per);
    if p == "item"@ {
        r == CollectIDs::ItemID(perid, page)
    } else if p == "user"@ {
        r == CollectIDs::UserID(perid, page)
    } else {
        r == CollectIDs::RutID(perid)
    }
}

/// Builds the selector that `built_collects_selector` describes.
pub fn collects_selector(per: &str, perid: String, page: i32) -> (r: CollectIDs)
    ensures
        built_collects_selector(per@, perid, page, r),
{
    let p = trim_str(per);
    if is_word(p, "item") {
        CollectIDs::ItemID(perid, page)
    } else if is_word(p, "user") {
        CollectIDs::UserID(perid, page)
    } else {
        CollectIDs::RutID(perid)
    }
}

/// The rows a page asks for, as a count and an offset: a page below 1 is
/// unpaged and capped at `ANS_LIMIT` rows; page `p` is the `p`-th run of
/// `PER_PAGE` rows.
pub fn page_window(page: i32) -> (r: (u64, u64))
    ensures
        page < 1 ==> r == (ANS_LIMIT, 0u64),
        page >= 1 ==> r.0 == PER_PAGE && r.1 == PER_PAGE * (page - 1),
{
    if page < 1 {
        (ANS_LIMIT, 0)
    } else {
        (PER_PAGE, PER_PAGE * ((page - 1) as u64))
    }
}

} // verus!
