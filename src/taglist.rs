//! Tag lists: the names of the tags on a rut or an item, the children of a
//! tag, a user's starred tags and the index, ranked by a counter.

use vstd::prelude::*;
use crate::itemquery::first_rows;
use crate::model::{Tag, TagRut, TagItem, StarTag, TagsPerID};
use crate::store::Store;

verus! {

/// A ranked row: its key and a tag name.
pub type Row = (int, Seq<char>);

/// The rows a tag selector ranks, in the order they were stored: the
/// associations of a rut or of an item by count, the children of a tag and
/// the index by vote, a user's stars by time.
pub open spec fn tag_rows(s: Store, sel: TagsPerID) -> Seq<Row> {
    match sel {
        TagsPerID::RutID(r) => s.tagruts@.filter(|t: TagRut| t.rut_id@ == r@).map_values(|t: TagRut| (t.count as int, t.tname@)),
        TagsPerID::ItemID(i) => s.tagitems@.filter(|t: TagItem| t.item_id@ == i@).map_values(|t: TagItem| (t.count as int, t.tname@)),
        TagsPerID::TagID(p) => s.tags@.filter(|t: Tag| t.pname@ == p@).map_values(|t: Tag| (t.vote as int, t.tname@)),
        TagsPerID::UserID(u) => s.startags@.filter(|t: StarTag| t.uname@ == u@).map_values(|t: StarTag| (t.star_at as int, t.tname@)),
        TagsPerID::Index(_) => s.tags@.filter(|t: Tag| true).map_values(|t: Tag| (t.vote as int, t.tname@)),
    }
}

/// Most names a tag selector gives.
pub open spec fn tag_limit(sel: TagsPerID) -> int {
    match sel {
        TagsPerID::UserID(_) => 42,
        TagsPerID::Index(_) => 16,
        _ => 10,
    }
}

/// Keys never rise along the rows.
pub open spec fn ranked(s: Seq<Row>) -> bool {
    forall|a: int, b: int| 0 <= a < b < s.len() ==> #[trigger] s[a].0 >= #[trigger] s[b].0
}

/// Where a row with key `k` goes in ranked rows: after every row whose key
/// is at least `k`.
pub open spec fn insert_pos(s: Seq<Row>, k: int) -> int {
    choose|p: int| 0 <= p <= s.len() && (forall|q: int| 0 <= q < p ==> #[trigger] s[q].0 >= k) && (p < s.len() ==> s[p].0 < k)
}

/// The rows ranked by key, highest first; rows with equal keys keep the
/// order they were stored in.
pub open spec fn by_key_desc(rows: Seq<Row>) -> Seq<Row>
    decreases rows.len(),
{
    if rows.len() == 0 {
        rows
    } else {
        let s = by_key_desc(rows.drop_last());
        s.insert(insert_pos(s, rows.last().0), rows.last())
    }
}

/// The names a tag selector gives, ranked, at most `tag_limit` of them.
pub open spec fn tags_listed(s: Store, sel: TagsPerID) -> Seq<Seq<char>> {
    first_rows(by_key_desc(tag_rows(s, sel)), tag_limit(sel)).map_values(|r: Row| r.1)
}

/// In ranked rows, position `p` is `insert_pos` when the rows before it have
/// keys of at least `k` and the row at it, if any, a smaller one.
proof fn lemma_insert_pos(s: Seq<Row>, k: int, p: int)
    requires
        0 <= p <= s.len(),
        forall|q: int| 0 <= q < p ==> #[trigger] s[q].0 >= k,
        p < s.len() ==> s[p].0 < k,
    ensures
        insert_pos(s, k) == p,
{
    let c = insert_pos(s, k);
    if c < p {
        assert(s[c].0 >= k);
    } else if c > p {
        assert(s[p].0 >= k);
    }
}

/// Ranked rows have a place for any key.
proof fn lemma_pos_exists(s: Seq<Row>, k: int) -> (p: int)
    requires
        ranked(s),
    ensures
        0 <= p <= s.len(),
        forall|q: int| 0 <= q < p ==> #[trigger] s[q].0 >= k,
        p < s.len() ==> s[p].0 < k,
    decreases s.len(),
{
    if s.len() == 0 {
        0
    } else if s.last().0 >= k {
        let n = s.len() as int;
        assert forall|q: int| 0 <= q < n implies #[trigger] s[q].0 >= k by {
            if q < n - 1 {
                assert(s[q].0 >= s[n - 1].0);
            }
        }
        n
    } else {
        let t = s.drop_last();
        let p = lemma_pos_exists(t, k);
        assert forall|q: int| 0 <= q < p implies #[trigger] s[q].0 >= k by {
            assert(s[q] == t[q]);
        }
        if p < t.len() {
            assert(s[p] == t[p]);
        }
        p
    }
}

/// Ranked rows stay ranked with a row put at its place.
proof fn lemma_ranked_insert(s: Seq<Row>, x: Row)
    requires
        ranked(s),
    ensures
        0 <= insert_pos(s, x.0) <= s.len(),
        ranked(s.insert(insert_pos(s, x.0), x)),
{
    let p0 = lemma_pos_exists(s, x.0);
    lemma_insert_pos(s, x.0, p0);
    let p = insert_pos(s, x.0);
    let t = s.insert(p, x);
    assert forall|a: int, b: int| 0 <= a < b < t.len() implies #[trigger] t[a].0 >= #[trigger] t[b].0 by {
        if a < p && b < p {
            assert(t[a] == s[a] && t[b] == s[b]);
        } else if a < p && b == p {
            assert(t[a] == s[a]);
        } else if a < p {
            assert(t[a] == s[a] && t[b] == s[b - 1]);
        } else if a == p {
            assert(t[b] == s[b - 1]);
            if p < s.len() {
                assert(s[p].0 >= s[b - 1].0 || b - 1 == p);
            }
        } else {
            assert(t[a] == s[a - 1] && t[b] == s[b - 1]);
        }
    }
}

/// Rows ranked by `by_key_desc` are ranked.
proof fn lemma_by_key_desc(rows: Seq<Row>)
    ensures
        ranked(by_key_desc(rows)),
        by_key_desc(rows).len() == rows.len(),
    decreases rows.len(),
{
    if rows.len() > 0 {
        lemma_by_key_desc(rows.drop_last());
        lemma_ranked_insert(by_key_desc(rows.drop_last()), rows.last());
    }
}

/// The rows of a vector, as ranked rows.
pub open spec fn rows_view(v: Seq<(i64, String)>) -> Seq<Row> {
    v.map_values(|p: (i64, String)| (p.0 as int, p.1@))
}

impl Store {
    /// The rows a tag selector ranks, in the order they were stored.
    fn tag_rows_of(&self, sel: &TagsPerID) -> (r: Vec<(i64, String)>)
        ensures
            rows_view(r@) == tag_rows(*self, *sel),
    {
        let mut out: Vec<(i64, String)> = Vec::new();
        match sel {
            TagsPerID::RutID(r) => {
            let ghost pred = (|t: TagRut| t.rut_id@ == r@);
            let ghost f = |t: TagRut| (t.count as int, t.tname@);
            let mut i: usize = 0;
            while i < self.tagruts.len()
                invariant
                    i <= self.tagruts@.len(),
                    pred == (|t: TagRut| t.rut_id@ == r@),
                    f == (|t: TagRut| (t.count as int, t.tname@)),
                    rows_view(out@) == self.tagruts@.take(i as int).filter(pred).map_values(f),
                decreases self.tagruts@.len() - i,
            {
                let ghost before = out@;
                proof {
                    assert(self.tagruts@.take(i as int + 1) =~= self.tagruts@.take(i as int).push(self.tagruts@[i as int]));
                    self.tagruts@.take(i as int).lemma_filter_push(self.tagruts@[i as int], pred);
                }
                let t = &self.tagruts[i];
                if t.rut_id == *r {
                    out.push((t.count as i64, t.tname.clone()));
                    proof {
                        assert(rows_view(out@) =~= rows_view(before).push(f(self.tagruts@[i as int])));
                        assert(self.tagruts@.take(i as int).filter(pred).push(self.tagruts@[i as int]).map_values(f)
                            =~= self.tagruts@.take(i as int).filter(pred).map_values(f).push(f(self.tagruts@[i as int])));
                    }
                }
                i += 1;
            }
            proof {
                assert(self.tagruts@.take(self.tagruts@.len() as int) =~= self.tagruts@);
            }
            },
            TagsPerID::ItemID(it) => {
            let ghost pred = (|t: TagItem| t.item_id@ == it@);
            let ghost f = |t: TagItem| (t.count as int, t.tname@);
            let mut i: usize = 0;
            while i < self.tagitems.len()
                invariant
                    i <= self.tagitems@.len(),
                    pred == (|t: TagItem| t.item_id@ == it@),
                    f == (|t: TagItem| (t.count as int, t.tname@)),
                    rows_view(out@) == self.tagitems@.take(i as int).filter(pred).map_values(f),
                decreases self.tagitems@.len() - i,
            {
                let ghost before = out@;
                proof {
                    assert(self.tagitems@.take(i as int + 1) =~= self.tagitems@.take(i as int).push(self.tagitems@[i as int]));
                    self.tagitems@.take(i as int).lemma_filter_push(self.tagitems@[i as int], pred);
                }
                let t = &self.tagitems[i];
                if t.item_id == *it {
                    out.push((t.count as i64, t.tname.clone()));
                    proof {
                        assert(rows_view(out@) =~= rows_view(before).push(f(self.tagitems@[i as int])));
                        assert(self.tagitems@.take(i as int).filter(pred).push(self.tagitems@[i as int]).map_values(f)
                            =~= self.tagitems@.take(i as int).filter(pred).map_values(f).push(f(self.tagitems@[i as int])));
                    }
                }
                i += 1;
            }
            proof {
                assert(self.tagitems@.take(self.tagitems@.len() as int) =~= self.tagitems@);
            }
            },
            TagsPerID::TagID(pn) => {
            let ghost pred = (|t: Tag| t.pname@ == pn@);
            let ghost f = |t: Tag| (t.vote as int, t.tname@);
            let mut i: usize = 0;
            while i < self.tags.len()
                invariant
                    i <= self.tags@.len(),
                    pred == (|t: Tag| t.pname@ == pn@),
                    f == (|t: Tag| (t.vote as int, t.tname@)),
                    rows_view(out@) == self.tags@.take(i as int).filter(pred).map_values(f),
                decreases self.tags@.len() - i,
            {
                let ghost before = out@;
                proof {
                    assert(self.tags@.take(i as int + 1) =~= self.tags@.take(i as int).push(self.tags@[i as int]));
                    self.tags@.take(i as int).lemma_filter_push(self.tags@[i as int], pred);
                }
                let t = &self.tags[i];
                if t.pname == *pn {
                    out.push((t.vote as i64, t.tname.clone()));
                    proof {
                        assert(rows_view(out@) =~= rows_view(before).push(f(self.tags@[i as int])));
                        assert(self.tags@.take(i as int).filter(pred).push(self.tags@[i as int]).map_values(f)
                            =~= self.tags@.take(i as int).filter(pred).map_values(f).push(f(self.tags@[i as int])));
                    }
                }
                i += 1;
            }
            proof {
                assert(self.tags@.take(self.tags@.len() as int) =~= self.tags@);
            }
            },
            TagsPerID::UserID(u) => {
            let ghost pred = (|t: StarTag| t.uname@ == u@);
            let ghost f = |t: StarTag| (t.star_at as int, t.tname@);
            let mut i: usize = 0;
            while i < self.startags.len()
                invariant
                    i <= self.startags@.len(),
                    pred == (|t: StarTag| t.uname@ == u@),
                    f == (|t: StarTag| (t.star_at as int, t.tname@)),
                    rows_view(out@) == self.startags@.take(i as int).filter(pred).map_values(f),
                decreases self.startags@.len() - i,
            {
                let ghost before = out@;
                proof {
                    assert(self.startags@.take(i as int + 1) =~= self.startags@.take(i as int).push(self.startags@[i as int]));
                    self.startags@.take(i as int).lemma_filter_push(self.startags@[i as int], pred);
                }
                let t = &self.startags[i];
                if t.uname == *u {
                    out.push((t.star_at, t.tname.clone()));
                    proof {
                        assert(rows_view(out@) =~= rows_view(before).push(f(self.startags@[i as int])));
                        assert(self.startags@.take(i as int).filter(pred).push(self.startags@[i as int]).map_values(f)
                            =~= self.startags@.take(i as int).filter(pred).map_values(f).push(f(self.startags@[i as int])));
                    }
                }
                i += 1;
            }
            proof {
                assert(self.startags@.take(self.startags@.len() as int) =~= self.startags@);
            }
            },
            TagsPerID::Index(_) => {
            let ghost pred = (|t: Tag| true);
            let ghost f = |t: Tag| (t.vote as int, t.tname@);
            let mut i: usize = 0;
            while i < self.tags.len()
                invariant
                    i <= self.tags@.len(),
                    pred == (|t: Tag| true),
                    f == (|t: Tag| (t.vote as int, t.tname@)),
                    rows_view(out@) == self.tags@.take(i as int).filter(pred).map_values(f),
                decreases self.tags@.len() - i,
            {
                let ghost before = out@;
                proof {
                    assert(self.tags@.take(i as int + 1) =~= self.tags@.take(i as int).push(self.tags@[i as int]));
                    self.tags@.take(i as int).lemma_filter_push(self.tags@[i as int], pred);
                }
                let t = &self.tags[i];
                if true {
                    out.push((t.vote as i64, t.tname.clone()));
                    proof {
                        assert(rows_view(out@) =~= rows_view(before).push(f(self.tags@[i as int])));
                        assert(self.tags@.take(i as int).filter(pred).push(self.tags@[i as int]).map_values(f)
                            =~= self.tags@.take(i as int).filter(pred).map_values(f).push(f(self.tags@[i as int])));
                    }
                }
                i += 1;
            }
            proof {
                assert(self.tags@.take(self.tags@.len() as int) =~= self.tags@);
            }
            },
        }
        out
    }
}

impl Store {
    /// The names that a tag selector gives, ranked by its counter, highest
    /// first (rows with equal keys in the order stored), at most
    /// `tag_limit` of them, and how many there are.
    pub fn get_tag_list(&self, sel: &TagsPerID) -> (r: (Vec<String>, usize))
        ensures
            r.0@.map_values(|x: String| x@) == tags_listed(*self, *sel),
            r.1 == r.0@.len(),
    {
        let rows = self.tag_rows_of(sel);
        let ghost rv = rows_view(rows@);
        let mut sorted: Vec<(i64, String)> = Vec::new();
        let mut i: usize = 0;
        while i < rows.len()
            invariant
                i <= rows@.len(),
                rv == rows_view(rows@),
                rows_view(sorted@) == by_key_desc(rv.take(i as int)),
            decreases rows@.len() - i,
        {
            proof {
                lemma_by_key_desc(rv.take(i as int));
            }
            let k = rows[i].0;
            let mut p: usize = 0;
            while p < sorted.len() && sorted[p].0 >= k
                invariant
                    p <= sorted@.len(),
                    forall|q: int| 0 <= q < p ==> #[trigger] rows_view(sorted@)[q].0 >= k as int,
                decreases sorted@.len() - p,
            {
                p += 1;
            }
            let ghost old_sorted = sorted@;
            proof {
                lemma_insert_pos(rows_view(sorted@), k as int, p as int);
                assert(rv.take(i as int + 1).drop_last() =~= rv.take(i as int));
                assert(rv.take(i as int + 1).last() == rv[i as int]);
            }
            sorted.insert(p, (k, rows[i].1.clone()));
            proof {
                assert(rows_view(sorted@) =~= rows_view(old_sorted).insert(p as int, rv[i as int]));
            }
            i += 1;
        }
        proof {
            assert(rv.take(rows@.len() as int) =~= rv);
        }
        let limit: usize = match sel {
            TagsPerID::UserID(_) => 42,
            TagsPerID::Index(_) => 16,
            _ => 10,
        };
        let ghost full = sorted@;
        sorted.truncate(limit);
        proof {
            assert(rows_view(sorted@) =~= first_rows(rows_view(full), limit as int));
        }
        let mut names: Vec<String> = Vec::new();
        let mut j: usize = 0;
        while j < sorted.len()
            invariant
                j <= sorted@.len(),
                names@.len() == j,
                forall|t: int| 0 <= t < j ==> #[trigger] names@[t]@ == sorted@[t].1@,
            decreases sorted@.len() - j,
        {
            names.push(sorted[j].1.clone());
            j += 1;
        }
        proof {
            assert(names@.map_values(|x: String| x@) =~= rows_view(sorted@).map_values(|r: Row| r.1));
        }
        let n = names.len();
        (names, n)
    }
}

} // verus!
