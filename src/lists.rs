//! Read paths over the store: single rows by id, and the lists of collects
//! and ruts that the selectors ask for.

use vstd::prelude::*;
use crate::error::ServiceError;
use crate::model::{Item, Rut, Collect, CollectIDs, RutListType};
use crate::query::{page_window, PER_PAGE};
use crate::store::{Store, item_ids, rut_ids};

verus! {

/// Whether a collect belongs to the list that a selector asks for.
pub open spec fn selects(sel: CollectIDs, c: Collect) -> bool {
    match sel {
        CollectIDs::RutID(r) => c.rut_id@ == r@,
        CollectIDs::ItemID(i, _) => c.item_id@ == i@,
        CollectIDs::UserID(u, _) => c.uname@ == u@,
    }
}

/// The page a collect selector asks for; the collects of a rut are never paged.
pub open spec fn page_of(sel: CollectIDs) -> i32 {
    match sel {
        CollectIDs::RutID(_) => 0,
        CollectIDs::ItemID(_, p) => p,
        CollectIDs::UserID(_, p) => p,
    }
}

/// A sequence, last first.
pub open spec fn newest_first<A>(s: Seq<A>) -> Seq<A> {
    Seq::new(s.len(), |i: int| s[s.len() - 1 - i])
}

/// The rows of `s` from `off`, at most `n` of them.
pub open spec fn window<A>(s: Seq<A>, off: int, n: int) -> Seq<A> {
    let lo = if off < s.len() { off } else { s.len() as int };
    let hi = if off + n < s.len() { off + n } else { s.len() as int };
    s.subrange(lo, hi)
}

/// Whether rut `rid` holds item `iid`.
pub open spec fn holds_item(cs: Seq<Collect>, rid: Seq<char>, iid: Seq<char>) -> bool {
    exists|k: int| 0 <= k < cs.len() && (#[trigger] cs[k]).rut_id@ == rid && cs[k].item_id@ == iid
}

impl Store {
    /// The item with id `id`.
    pub fn get_item(&self, id: &String) -> (r: Result<Item, ServiceError>)
        requires
            self.wf(),
        ensures
            r is Err ==> r == Err::<Item, ServiceError>(ServiceError::NotFound),
            !self.has_item(id@) <==> r == Err::<Item, ServiceError>(ServiceError::NotFound),
            r matches Ok(it) ==> it == self.items@[self.item_at(id@)],
    {
        match self.find_item(id) {
            Some(i) => {
                proof {
                    assert(item_ids(self.items@)[i as int] == id@);
                    let j = self.item_at(id@);
                    if j != i as int {
                        assert(item_ids(self.items@)[j] == id@);
                    }
                }
                Ok(self.items[i].duplicate())
            },
            None => Err(ServiceError::NotFound),
        }
    }

    /// The rut with id `id`.
    pub fn get_rut(&self, id: &String) -> (r: Result<Rut, ServiceError>)
        requires
            self.wf(),
        ensures
            r is Err ==> r == Err::<Rut, ServiceError>(ServiceError::NotFound),
            !self.has_rut(id@) <==> r == Err::<Rut, ServiceError>(ServiceError::NotFound),
            r matches Ok(rut) ==> rut == self.ruts@[self.rut_at(id@)],
    {
        match self.find_rut(id) {
            Some(i) => {
                proof {
                    assert(rut_ids(self.ruts@)[i as int] == id@);
                    let j = self.rut_at(id@);
                    if j != i as int {
                        assert(rut_ids(self.ruts@)[j] == id@);
                    }
                }
                Ok(self.ruts[i].duplicate())
            },
            None => Err(ServiceError::NotFound),
        }
    }

    /// The collects that a selector asks for, in the order they were made.
    fn matching_collects(&self, sel: &CollectIDs) -> (r: Vec<Collect>)
        ensures
            r@ == self.collects@.filter(|c: Collect| selects(*sel, c)),
    {
        let ghost pred = |c: Collect| selects(*sel, c);
        let mut out: Vec<Collect> = Vec::new();
        let mut i: usize = 0;
        while i < self.collects.len()
            invariant
                i <= self.collects@.len(),
                pred == (|c: Collect| selects(*sel, c)),
                out@ == self.collects@.take(i as int).filter(pred),
            decreases self.collects@.len() - i,
        {
            proof {
                assert(self.collects@.take(i as int + 1) =~= self.collects@.take(i as int).push(self.collects@[i as int]));
                self.collects@.take(i as int).lemma_filter_push(self.collects@[i as int], pred);
            }
            let c = &self.collects[i];
            let hit = match sel {
                CollectIDs::RutID(r) => c.rut_id == *r,
                CollectIDs::ItemID(it, _) => c.item_id == *it,
                CollectIDs::UserID(u, _) => c.uname == *u,
            };
            proof {
                assert(hit == pred(self.collects@[i as int]));
            }
            if hit {
                out.push(c.duplicate());
            }
            i += 1;
        }
        proof {
            assert(self.collects@.take(self.collects@.len() as int) =~= self.collects@);
        }
        out
    }

    /// The collects that a selector asks for. A page below 1 gives all of
    /// them, in the order they were made; page `p` gives the `p`-th run of
    /// `PER_PAGE` of them, the most recent first.
    pub fn get_collect_list(&self, sel: &CollectIDs) -> (r: Vec<Collect>)
        ensures
            ({
                let m = self.collects@.filter(|c: Collect| selects(*sel, c));
                let p = page_of(*sel);
                r@ == if p < 1 { m } else { window(newest_first(m), PER_PAGE * (p - 1), PER_PAGE as int) }
            }),
    {
        let m = self.matching_collects(sel);
        let p = match sel {
            CollectIDs::RutID(_) => 0,
            CollectIDs::ItemID(_, p) => *p,
            CollectIDs::UserID(_, p) => *p,
        };
        if p < 1 {
            return m;
        }
        let (n, off) = page_window(p);
        let len = m.len() as u64;
        let lo: u64 = if off < len { off } else { len };
        let hi: u64 = if off + n < len { off + n } else { len };
        let ghost nf = newest_first(m@);
        let mut out: Vec<Collect> = Vec::new();
        let mut k: u64 = lo;
        while k < hi
            invariant
                lo <= k <= hi,
                hi <= len,
                len == m@.len(),
                nf == newest_first(m@),
                out@ == nf.subrange(lo as int, k as int),
            decreases hi - k,
        {
            let idx = (len - 1 - k) as usize;
            out.push(m[idx].duplicate());
            proof {
                assert(nf.subrange(lo as int, k as int + 1) =~= nf.subrange(lo as int, k as int).push(nf[k as int]));
            }
            k += 1;
        }
        proof {
            assert(out@ =~= window(nf, PER_PAGE * (p - 1), PER_PAGE as int));
        }
        out
    }

    /// Whether rut `rid` holds item `iid`.
    pub(crate) fn rut_holds(&self, rid: &String, iid: &String) -> (r: bool)
        ensures
            r == holds_item(self.collects@, rid@, iid@),
    {
        let mut i: usize = 0;
        while i < self.collects.len()
            invariant
                i <= self.collects@.len(),
                forall|k: int| 0 <= k < i ==> !(self.collects@[k].rut_id@ == rid@ && self.collects@[k].item_id@ == iid@),
            decreases self.collects@.len() - i,
        {
            if self.collects[i].rut_id == *rid && self.collects[i].item_id == *iid {
                return true;
            }
            i += 1;
        }
        false
    }
}

/// Whether a rut belongs to the list that a selector asks for, given the
/// collects: every rut for the index, a user's ruts, the ruts holding an item.
pub open spec fn lists_rut(sel: RutListType, cs: Seq<Collect>, r: Rut) -> bool {
    match sel {
        RutListType::Index(_) => true,
        RutListType::UserID(u) => r.user_id@ == u@,
        RutListType::ItemID(i) => holds_item(cs, r.id@, i@),
    }
}

impl Store {
    /// The ruts that a selector asks for, in the order they were made.
    pub fn get_rut_list(&self, sel: &RutListType) -> (r: Vec<Rut>)
        ensures
            r@ == self.ruts@.filter(|x: Rut| lists_rut(*sel, self.collects@, x)),
    {
        let ghost pred = |x: Rut| lists_rut(*sel, self.collects@, x);
        let mut out: Vec<Rut> = Vec::new();
        let mut i: usize = 0;
        while i < self.ruts.len()
            invariant
                i <= self.ruts@.len(),
                pred == (|x: Rut| lists_rut(*sel, self.collects@, x)),
                out@ == self.ruts@.take(i as int).filter(pred),
            decreases self.ruts@.len() - i,
        {
            proof {
                assert(self.ruts@.take(i as int + 1) =~= self.ruts@.take(i as int).push(self.ruts@[i as int]));
                self.ruts@.take(i as int).lemma_filter_push(self.ruts@[i as int], pred);
            }
            let x = &self.ruts[i];
            let hit = match sel {
                RutListType::Index(_) => true,
                RutListType::UserID(u) => x.user_id == *u,
                RutListType::ItemID(it) => self.rut_holds(&x.id, it),
            };
            proof {
                assert(hit == pred(self.ruts@[i as int]));
            }
            if hit {
                out.push(x.duplicate());
            }
            i += 1;
        }
        proof {
            assert(self.ruts@.take(self.ruts@.len() as int) =~= self.ruts@);
        }
        out
    }
}

} // verus!
