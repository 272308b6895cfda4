//! The item query: running an item selector over the store, with
//! case-insensitive substring matching for the fuzzy selectors.

use vstd::prelude::*;
use crate::lists::{holds_item, newest_first, window};
use crate::model::{Item, StarItem, StarFlag, TagItem};
use crate::outside::{lower_of, lowercase, trimmed, trim_str};
use crate::query::{ItemsPerID, ANS_LIMIT, PER_PAGE, page_window, is_word};
use crate::store::Store;

verus! {

/// `needle` occurs in `hay` as a run of consecutive characters.
pub open spec fn contains_seq(hay: Seq<char>, needle: Seq<char>) -> bool {
    exists|i: int| 0 <= i && i + needle.len() <= hay.len() && #[trigger] hay.subrange(i, i + needle.len()) == needle
}

/// `pat` occurs in `field`, case aside.
pub open spec fn fuzzy(field: Seq<char>, pat: Seq<char>) -> bool {
    contains_seq(lower_of(field), lower_of(pat))
}

/// Whether `needle` occurs in `hay` as a run of consecutive characters.
pub fn contains_str(hay: &str, needle: &str) -> (r: bool)
    ensures
        r == contains_seq(hay@, needle@),
{
    let n = hay.unicode_len();
    let m = needle.unicode_len();
    if m > n {
        return false;
    }
    if m == 0 {
        proof {
            assert(hay@.subrange(0, 0 + needle@.len() as int) =~= needle@);
        }
        return true;
    }
    let mut i: usize = 0;
    while i <= n - m
        invariant
            n == hay@.len(),
            m == needle@.len(),
            1 <= m <= n,
            i <= n - m + 1,
            forall|j: int| 0 <= j < i ==> #[trigger] hay@.subrange(j, j + m) != needle@,
        decreases n - m + 1 - i,
    {
        let mut k: usize = 0;
        let mut same = true;
        while k < m
            invariant
                n == hay@.len(),
                m == needle@.len(),
                i + m <= n,
                k <= m,
                same ==> forall|q: int| 0 <= q < k ==> hay@[i + q] == needle@[q],
                !same ==> hay@.subrange(i as int, i + m) != needle@,
            ensures
                same ==> forall|q: int| 0 <= q < m ==> hay@[i + q] == needle@[q],
                !same ==> hay@.subrange(i as int, i + m) != needle@,
            decreases m - k,
        {
            if hay.get_char(i + k) != needle.get_char(k) {
                proof {
                    assert(hay@.subrange(i as int, i + m)[k as int] == hay@[i + k]);
                }
                same = false;
                break;
            }
            k += 1;
        }
        if same {
            proof {
                assert(hay@.subrange(i as int, i + m) =~= needle@);
            }
            return true;
        }
        i += 1;
    }
    false
}

/// The flag that a request code stands for.
pub open spec fn flag_of(code: i16) -> Option<StarFlag> {
    if code == 1 {
        Some(StarFlag::Todo)
    } else if code == 2 {
        Some(StarFlag::Doing)
    } else if code == 3 {
        Some(StarFlag::Done)
    } else {
        None
    }
}

/// Item `iid` carries tag `tname`.
pub open spec fn tagged(tis: Seq<TagItem>, tname: Seq<char>, iid: Seq<char>) -> bool {
    exists|k: int| 0 <= k < tis.len() && (#[trigger] tis[k]).tname@ == tname && tis[k].item_id@ == iid
}

/// User `uname` marked item `iid` done.
pub open spec fn done_by(ms: Seq<StarItem>, uname: Seq<char>, iid: Seq<char>) -> bool {
    exists|k: int| 0 <= k < ms.len() && (#[trigger] ms[k]).uname@ == uname && ms[k].item_id@ == iid
        && ms[k].flag == StarFlag::Done
}

/// A keyword query's source filter lets item `iid` through: `user` keeps
/// what user `src` marked done, `tag` what carries tag `src`, anything else
/// keeps every item. The filter is read trimmed.
pub open spec fn source_ok(s: Store, fr: Seq<char>, src: Seq<char>, iid: Seq<char>) -> bool {
    let f = trimmed(fr);
    if f == "user"@ {
        done_by(s.staritems@, src, iid)
    } else if f == "tag"@ {
        tagged(s.tagitems@, src, iid)
    } else {
        true
    }
}

/// The marks of user `u` with the flag of code `f`, in the order made.
pub open spec fn marks_of(s: Store, u: Seq<char>, f: i16) -> Seq<StarItem> {
    s.staritems@.filter(|m: StarItem| m.uname@ == u && flag_of(f) == Some(m.flag))
}

/// Rows a page holds: `ANS_LIMIT` unpaged, else `PER_PAGE`.
pub open spec fn page_len(p: i32) -> int {
    if p < 1 { ANS_LIMIT as int } else { PER_PAGE as int }
}

/// Rows before a page.
pub open spec fn page_off(p: i32) -> int {
    if p < 1 { 0 } else { PER_PAGE * (p - 1) }
}

/// The items that page `p` of user `u`'s marks with flag code `f` names,
/// the most recent mark first.
pub open spec fn page_ids(s: Store, u: Seq<char>, f: i16, p: i32) -> Seq<Seq<char>> {
    window(newest_first(marks_of(s, u, f)), page_off(p), page_len(p)).map_values(|m: StarItem| m.item_id@)
}

/// Whether item `it` answers selector `sel`.
pub open spec fn item_pred(s: Store, sel: ItemsPerID, it: Item) -> bool {
    match sel {
        ItemsPerID::ItemID(i) => it.id@ == i@,
        ItemsPerID::Uiid(t) => fuzzy(it.title@, t@) || fuzzy(it.uiid@, t@),
        ItemsPerID::Title(t) => fuzzy(it.title@, t@) || fuzzy(it.uiid@, t@),
        ItemsPerID::ItemUrl(u) => fuzzy(it.url@, u@),
        ItemsPerID::RutID(r) => holds_item(s.collects@, r@, it.id@),
        ItemsPerID::TagID(t) => tagged(s.tagitems@, t@, it.id@),
        ItemsPerID::UserID(u, f, p) => page_ids(s, u@, f, p).contains(it.id@),
        ItemsPerID::KeyID(k, fr, src, _) => fuzzy(it.title@, k@) && source_ok(s, fr@, src@, it.id@),
    }
}

/// Most rows a selector gives: fuzzy matches `ANS_LIMIT`, tag and keyword
/// queries `PER_PAGE`, the others all that match.
pub open spec fn cap_of(s: Store, sel: ItemsPerID) -> int {
    match sel {
        ItemsPerID::Uiid(_) => ANS_LIMIT as int,
        ItemsPerID::Title(_) => ANS_LIMIT as int,
        ItemsPerID::ItemUrl(_) => ANS_LIMIT as int,
        ItemsPerID::TagID(_) => PER_PAGE as int,
        ItemsPerID::KeyID(_, _, _, _) => PER_PAGE as int,
        _ => s.items@.len() as int,
    }
}

/// The first `n` rows of `rows`, or all of them when there are fewer.
pub open spec fn first_rows<A>(rows: Seq<A>, n: int) -> Seq<A> {
    if n < rows.len() { rows.subrange(0, n) } else { rows }
}

/// The items that a selector gives, in the order they were stored.
pub open spec fn items_selected(s: Store, sel: ItemsPerID) -> Seq<Item> {
    first_rows(s.items@.filter(|it: Item| item_pred(s, sel, it)), cap_of(s, sel))
}

/// The count that a selector reports: all of a user's matching marks for a
/// mark query, else the number of items given.
pub open spec fn count_selected(s: Store, sel: ItemsPerID) -> int {
    match sel {
        ItemsPerID::UserID(u, f, _) => marks_of(s, u@, f).len() as int,
        _ => items_selected(s, sel).len() as int,
    }
}

impl Store {
    /// Whether item `iid` carries tag `tname`.
    fn is_tagged(&self, tname: &String, iid: &String) -> (r: bool)
        ensures
            r == tagged(self.tagitems@, tname@, iid@),
    {
        let mut i: usize = 0;
        while i < self.tagitems.len()
            invariant
                i <= self.tagitems@.len(),
                forall|k: int| 0 <= k < i ==> !(self.tagitems@[k].tname@ == tname@ && self.tagitems@[k].item_id@ == iid@),
            decreases self.tagitems@.len() - i,
        {
            if self.tagitems[i].tname == *tname && self.tagitems[i].item_id == *iid {
                return true;
            }
            i += 1;
        }
        false
    }

    /// Whether user `uname` marked item `iid` done.
    fn is_done_by(&self, uname: &String, iid: &String) -> (r: bool)
        ensures
            r == done_by(self.staritems@, uname@, iid@),
    {
        let mut i: usize = 0;
        while i < self.staritems.len()
            invariant
                i <= self.staritems@.len(),
                forall|k: int| 0 <= k < i ==> !(self.staritems@[k].uname@ == uname@ && self.staritems@[k].item_id@ == iid@
                    && self.staritems@[k].flag == StarFlag::Done),
            decreases self.staritems@.len() - i,
        {
            if self.staritems[i].uname == *uname && self.staritems[i].item_id == *iid && self.staritems[i].flag == StarFlag::Done {
                return true;
            }
            i += 1;
        }
        false
    }

    /// Whether a keyword query's source filter lets item `iid` through.
    fn source_passes(&self, fr: &String, src: &String, iid: &String) -> (r: bool)
        ensures
            r == source_ok(*self, fr@, src@, iid@),
    {
        let f = trim_str(fr.as_str());
        if is_word(f, "user") {
            self.is_done_by(src, iid)
        } else if is_word(f, "tag") {
            self.is_tagged(src, iid)
        } else {
            true
        }
    }

    /// The marks of user `u` with the flag of code `f`, in the order made.
    fn marks_matching(&self, u: &String, f: i16) -> (r: Vec<StarItem>)
        ensures
            r@ == marks_of(*self, u@, f),
    {
        let fl = StarFlag::from_code(f);
        let ghost pred = |m: StarItem| m.uname@ == u@ && flag_of(f) == Some(m.flag);
        let mut out: Vec<StarItem> = Vec::new();
        let mut i: usize = 0;
        while i < self.staritems.len()
            invariant
                i <= self.staritems@.len(),
                fl == flag_of(f),
                pred == (|m: StarItem| m.uname@ == u@ && flag_of(f) == Some(m.flag)),
                out@ == self.staritems@.take(i as int).filter(pred),
            decreases self.staritems@.len() - i,
        {
            proof {
                assert(self.staritems@.take(i as int + 1) =~= self.staritems@.take(i as int).push(self.staritems@[i as int]));
                self.staritems@.take(i as int).lemma_filter_push(self.staritems@[i as int], pred);
            }
            let m = &self.staritems[i];
            let hit = m.uname == *u && match fl {
                Some(x) => m.flag == x,
                None => false,
            };
            proof {
                assert(hit == pred(self.staritems@[i as int]));
            }
            if hit {
                out.push(m.duplicate());
            }
            i += 1;
        }
        proof {
            assert(self.staritems@.take(self.staritems@.len() as int) =~= self.staritems@);
        }
        out
    }

    /// The items that page `p` of user `u`'s marks with flag code `f` names,
    /// and how many such marks there are in all.
    fn page_item_ids(&self, u: &String, f: i16, p: i32) -> (r: (Vec<String>, usize))
        ensures
            r.0@.map_values(|x: String| x@) == page_ids(*self, u@, f, p),
            r.1 == marks_of(*self, u@, f).len(),
    {
        let m = self.marks_matching(u, f);
        let (n, off) = page_window(p);
        let len = m.len() as u64;
        let lo: u64 = if off < len { off } else { len };
        let hi: u64 = if off + n < len { off + n } else { len };
        let ghost nf = newest_first(m@);
        let mut out: Vec<String> = Vec::new();
        let mut k: u64 = lo;
        while k < hi
            invariant
                lo <= k <= hi,
                hi <= len,
                len == m@.len(),
                nf == newest_first(m@),
                out@.len() == k - lo,
                forall|t: int| 0 <= t < out@.len() ==> #[trigger] out@[t]@ == nf[lo + t].item_id@,
            decreases hi - k,
        {
            let idx = (len - 1 - k) as usize;
            out.push(m[idx].item_id.clone());
            k += 1;
        }
        proof {
            let w = window(nf, page_off(p), page_len(p));
            assert(w =~= nf.subrange(lo as int, hi as int));
            assert(out@.map_values(|x: String| x@) =~= w.map_values(|x: StarItem| x.item_id@));
        }
        (out, m.len())
    }

    /// Whether `ids` holds `iid`.
    fn listed_id(ids: &Vec<String>, iid: &String) -> (r: bool)
        ensures
            r == ids@.map_values(|x: String| x@).contains(iid@),
    {
        let mut i: usize = 0;
        while i < ids.len()
            invariant
                i <= ids@.len(),
                forall|k: int| 0 <= k < i ==> ids@[k]@ != iid@,
            decreases ids@.len() - i,
        {
            if ids[i] == *iid {
                proof {
                    assert(ids@.map_values(|x: String| x@)[i as int] == iid@);
                }
                return true;
            }
            i += 1;
        }
        proof {
            let v = ids@.map_values(|x: String| x@);
            assert forall|k: int| 0 <= k < v.len() implies #[trigger] v[k] != iid@ by {
                assert(ids@[k]@ != iid@);
            }
        }
        false
    }

    /// Whether `field` holds the lowered pattern, case aside.
    fn fuzzy_hit(field: &String, lowered: &String) -> (r: bool)
        ensures
            r == contains_seq(lower_of(field@), lowered@),
    {
        let lf = lowercase(field.as_str());
        contains_str(lf.as_str(), lowered.as_str())
    }

    /// Whether item `it` answers `sel`, given the lowered pattern of a fuzzy
    /// selector and the item ids of a mark page.
    fn item_hit(&self, sel: &ItemsPerID, it: &Item, lowered: &String, ids: &Vec<String>) -> (r: bool)
        requires
            match *sel {
                ItemsPerID::Uiid(t) => lowered@ == lower_of(t@),
                ItemsPerID::Title(t) => lowered@ == lower_of(t@),
                ItemsPerID::ItemUrl(t) => lowered@ == lower_of(t@),
                ItemsPerID::KeyID(t, _, _, _) => lowered@ == lower_of(t@),
                ItemsPerID::UserID(u, f, p) => ids@.map_values(|x: String| x@) == page_ids(*self, u@, f, p),
                _ => true,
            },
        ensures
            r == item_pred(*self, *sel, *it),
    {
        match sel {
            ItemsPerID::ItemID(i) => it.id == *i,
            ItemsPerID::Uiid(_) => Self::fuzzy_hit(&it.title, lowered) || Self::fuzzy_hit(&it.uiid, lowered),
            ItemsPerID::Title(_) => Self::fuzzy_hit(&it.title, lowered) || Self::fuzzy_hit(&it.uiid, lowered),
            ItemsPerID::ItemUrl(_) => Self::fuzzy_hit(&it.url, lowered),
            ItemsPerID::RutID(r) => self.rut_holds(r, &it.id),
            ItemsPerID::TagID(t) => self.is_tagged(t, &it.id),
            ItemsPerID::UserID(_, _, _) => Self::listed_id(ids, &it.id),
            ItemsPerID::KeyID(_, fr, src, _) => Self::fuzzy_hit(&it.title, lowered) && self.source_passes(fr, src, &it.id),
        }
    }

    /// Runs an item selector over the store: the items it gives, in the
    /// order they were stored and at most `cap_of` of them, and the count it
    /// reports.
    pub fn get_item_list(&self, sel: &ItemsPerID) -> (r: (Vec<Item>, usize))
        ensures
            r.0@ == items_selected(*self, *sel),
            r.1 == count_selected(*self, *sel),
    {
        let lowered = match sel {
            ItemsPerID::Uiid(t) => lowercase(t.as_str()),
            ItemsPerID::Title(t) => lowercase(t.as_str()),
            ItemsPerID::ItemUrl(t) => lowercase(t.as_str()),
            ItemsPerID::KeyID(t, _, _, _) => lowercase(t.as_str()),
            _ => String::new(),
        };
        let (ids, marks) = match sel {
            ItemsPerID::UserID(u, f, p) => self.page_item_ids(u, *f, *p),
            _ => (Vec::new(), 0),
        };
        let ghost pred = |it: Item| item_pred(*self, *sel, it);
        let mut out: Vec<Item> = Vec::new();
        let mut i: usize = 0;
        while i < self.items.len()
            invariant
                i <= self.items@.len(),
                pred == (|it: Item| item_pred(*self, *sel, it)),
                out@ == self.items@.take(i as int).filter(pred),
                match *sel {
                    ItemsPerID::Uiid(t) => lowered@ == lower_of(t@),
                    ItemsPerID::Title(t) => lowered@ == lower_of(t@),
                    ItemsPerID::ItemUrl(t) => lowered@ == lower_of(t@),
                    ItemsPerID::KeyID(t, _, _, _) => lowered@ == lower_of(t@),
                    ItemsPerID::UserID(u, f, p) => ids@.map_values(|x: String| x@) == page_ids(*self, u@, f, p),
                    _ => true,
                },
            decreases self.items@.len() - i,
        {
            proof {
                assert(self.items@.take(i as int + 1) =~= self.items@.take(i as int).push(self.items@[i as int]));
                self.items@.take(i as int).lemma_filter_push(self.items@[i as int], pred);
            }
            let hit = self.item_hit(sel, &self.items[i], &lowered, &ids);
            if hit {
                out.push(self.items[i].duplicate());
            }
            i += 1;
        }
        proof {
            assert(self.items@.take(self.items@.len() as int) =~= self.items@);
        }
        let cap: usize = match sel {
            ItemsPerID::Uiid(_) => ANS_LIMIT as usize,
            ItemsPerID::Title(_) => ANS_LIMIT as usize,
            ItemsPerID::ItemUrl(_) => ANS_LIMIT as usize,
            ItemsPerID::TagID(_) => PER_PAGE as usize,
            ItemsPerID::KeyID(_, _, _, _) => PER_PAGE as usize,
            _ => self.items.len(),
        };
        let ghost rows = out@;
        out.truncate(cap);
        proof {
            if cap as int >= rows.len() {
                assert(out@ =~= first_rows(rows, cap as int));
            }
        }
        let count = match sel {
            ItemsPerID::UserID(_, _, _) => marks,
            _ => out.len(),
        };
        (out, count)
    }
}

} // verus!
