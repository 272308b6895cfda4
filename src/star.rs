//! The engagement state machine of users with items: to do, doing, done,
//! with an item's done count raised once per user.

use vstd::prelude::*;
use crate::auth::CheckUser;
use crate::error::ServiceError;
use crate::model::{Item, StarItem, StarFlag, NewStarItem};
use crate::store::{Store, item_ids, clash, marks_distinct};

verus! {

/// Whether user `uname` has a mark on item `iid`.
pub open spec fn has_mark(ms: Seq<StarItem>, uname: Seq<char>, iid: Seq<char>) -> bool {
    exists|k: int| 0 <= k < ms.len() && (#[trigger] ms[k]).uname@ == uname && ms[k].item_id@ == iid
}

/// An item once more marked done.
pub open spec fn done_once_more(it: Item) -> Item {
    Item { done_count: (it.done_count + 1) as i32, ..it }
}

/// What `Store::star_item` promises: each failure and exactly when it comes, no other failure, and
/// the store `post` after the call in terms of the store `pre` before it.
pub open spec fn star_item_post(pre: Store, post: Store, who: CheckUser, act: NewStarItem, id: String, now: i64, r: Result<StarItem, ServiceError>) -> bool {
    &&& (r is Err ==> post == pre)
    &&& (!pre.has_item(act.item_slug@) <==> r == Err::<StarItem, ServiceError>(ServiceError::NotFound))
    &&& ((pre.has_item(act.item_slug@) && has_mark(pre.staritems@, who.uname@, act.item_slug@)
            && !pre.staritems@[pre.mark_at(who.uname@, act.item_slug@)].reached_done
            && act.flag == StarFlag::Done
            && pre.items@[pre.item_at(act.item_slug@)].done_count == i32::MAX)
            <==> r == Err::<StarItem, ServiceError>(ServiceError::StoreError))
    &&& (has_mark(pre.staritems@, who.uname@, act.item_slug@)
            && pre.staritems@[pre.mark_at(who.uname@, act.item_slug@)].flag == StarFlag::Done
            ==> post.items == pre.items)
    &&& (r matches Ok(m) ==> {
            &&& !has_mark(pre.staritems@, who.uname@, act.item_slug@) ==> {
                &&& m == (StarItem {
                    id,
                    uname: who.uname,
                    item_id: act.item_slug,
                    star_at: now,
                    note: act.note,
                    flag: act.flag,
                    rate: act.rate,
                    reached_done: act.flag == StarFlag::Done,
                })
                &&& post.staritems@ == pre.staritems@.push(m)
                &&& post.items == pre.items
            }
            &&& has_mark(pre.staritems@, who.uname@, act.item_slug@) ==> {
                let k = pre.mark_at(who.uname@, act.item_slug@);
                let ii = pre.item_at(act.item_slug@);
                &&& m == (StarItem {
                    flag: act.flag,
                    reached_done: pre.staritems@[k].reached_done || act.flag == StarFlag::Done,
                    ..pre.staritems@[k]
                })
                &&& post.staritems@ == pre.staritems@.update(k, m)
                &&& post.items@ == if !pre.staritems@[k].reached_done && act.flag == StarFlag::Done {
                    pre.items@.update(ii, done_once_more(pre.items@[ii]))
                } else {
                    pre.items@
                }
            }
        })
    &&& (post.ruts == pre.ruts)
    &&& (post.collects == pre.collects)
    &&& (post.tags == pre.tags)
    &&& (post.tagruts == pre.tagruts)
    &&& (post.startags == pre.startags)
    &&& (post.starruts == pre.starruts)
    &&& (post.tagitems == pre.tagitems)
    &&& (r is Err ==> r == Err::<StarItem, ServiceError>(ServiceError::NotFound) || r == Err::<StarItem, ServiceError>(ServiceError::StoreError))
}

impl Store {
    /// The position of the mark of user `uname` on item `iid`.
    pub open spec fn mark_at(&self, uname: Seq<char>, iid: Seq<char>) -> int {
        choose|k: int| 0 <= k < self.staritems@.len() && self.staritems@[k].uname@ == uname && self.staritems@[k].item_id@ == iid
    }

    /// The position of the mark of user `uname` on item `iid`, if any.
    fn find_mark(&self, uname: &String, iid: &String) -> (r: Option<usize>)
        requires
            marks_distinct(self.staritems@),
        ensures
            r is Some <==> has_mark(self.staritems@, uname@, iid@),
            r matches Some(k) ==> k < self.staritems@.len() && self.mark_at(uname@, iid@) == k,
    {
        let mut i: usize = 0;
        while i < self.staritems.len()
            invariant
                marks_distinct(self.staritems@),
                i <= self.staritems@.len(),
                forall|k: int| 0 <= k < i ==> !(self.staritems@[k].uname@ == uname@ && self.staritems@[k].item_id@ == iid@),
            decreases self.staritems@.len() - i,
        {
            if self.staritems[i].uname == *uname && self.staritems[i].item_id == *iid {
                proof {
                    assert(0 <= i < self.staritems@.len() && self.staritems@[i as int].uname@ == uname@
                        && self.staritems@[i as int].item_id@ == iid@);
                    let j = self.mark_at(uname@, iid@);
                    assert(0 <= j < self.staritems@.len() && self.staritems@[j].uname@ == uname@
                        && self.staritems@[j].item_id@ == iid@);
                }
                return Some(i);
            }
            i += 1;
        }
        None
    }

    /// The caller's mark on item `item_slug`.
    pub fn star_status(&self, who: &CheckUser, item_slug: &String) -> (r: Result<StarItem, ServiceError>)
        requires
            self.wf(),
        ensures
            r is Err ==> r == Err::<StarItem, ServiceError>(ServiceError::NotFound),
            !has_mark(self.staritems@, who.uname@, item_slug@) <==> r == Err::<StarItem, ServiceError>(ServiceError::NotFound),
            r matches Ok(m) ==> m == self.staritems@[self.mark_at(who.uname@, item_slug@)],
    {
        match self.find_mark(&who.uname, item_slug) {
            Some(k) => Ok(self.staritems[k].duplicate()),
            None => Err(ServiceError::NotFound),
        }
    }

    /// Marks item `act.item_slug` for the caller with `act.flag`.
    ///
    /// Without an earlier mark, the mark `id` is stored as requested, at
    /// `now`. With one, its flag becomes `act.flag`, the rest stays; when that
    /// makes it done for the first time, the item counts one done more. A
    /// mark that was done at some point, or stored done, raises nothing. Fails with `NotFound`
    /// when the item is missing and with `StoreError` when the done count is
    /// at its limit; nothing changes then. Returns the mark as it stands.
    pub fn star_item(&mut self, who: &CheckUser, act: NewStarItem, id: String, now: i64) -> (r: Result<StarItem, ServiceError>)
        requires
            old(self).wf(),
        ensures
            final(self).wf(),
            star_item_post(*old(self), *final(self), *who, act, id, now, r),
    {
        let ii = match self.find_item(&act.item_slug) {
            Some(i) => i,
            None => {
                return Err(ServiceError::NotFound);
            },
        };
        proof {
            let j = self.item_at(act.item_slug@);
            assert(0 <= ii < self.items@.len() && self.items@[ii as int].id@ == act.item_slug@);
            assert(item_ids(self.items@)[ii as int] == act.item_slug@);
            if j != ii as int {
                assert(item_ids(self.items@)[j] == act.item_slug@);
            }
        }
        let ghost o = *self;
        match self.find_mark(&who.uname, &act.item_slug) {
            Some(k) => {
                let was_done = self.staritems[k].reached_done;
                let now_done = act.flag == StarFlag::Done;
                if !was_done && now_done {
                    let dc = self.items[ii].done_count;
                    if dc == i32::MAX {
                        return Err(ServiceError::StoreError);
                    }
                    self.items[ii].done_count = dc + 1;
                }
                self.staritems[k].flag = act.flag;
                self.staritems[k].reached_done = was_done || now_done;
                proof {
                    assert(item_ids(self.items@) =~= item_ids(o.items@));
                    assert forall|a: int, b: int| 0 <= a < self.items@.len() && 0 <= b < self.items@.len() && a != b implies
                        !clash(#[trigger] self.items@[a], #[trigger] self.items@[b]) by {
                        assert(!clash(o.items@[a], o.items@[b]));
                    }
                    assert forall|i: int| 0 <= i < self.items@.len() implies #[trigger] self.items@[i].rut_count
                        == crate::store::item_refs(self.collects@, self.items@[i].id@) by {
                        assert(o.items@[i].rut_count == crate::store::item_refs(o.collects@, o.items@[i].id@));
                    }
                    assert forall|i: int| 0 <= i < self.collects@.len() implies item_ids(self.items@).contains(
                        (#[trigger] self.collects@[i]).item_id@) by {
                        assert(item_ids(o.items@).contains(o.collects@[i].item_id@));
                    }
                    let ms = self.staritems@;
                    assert forall|i: int| 0 <= i < ms.len() && (#[trigger] ms[i]).flag == StarFlag::Done implies ms[i].reached_done by {
                        if i != k as int {
                            assert(ms[i] == o.staritems@[i]);
                        }
                    }
                    assert forall|a: int, b: int| 0 <= a < ms.len() && 0 <= b < ms.len() && a != b implies
                        !((#[trigger] ms[a]).uname@ == (#[trigger] ms[b]).uname@ && ms[a].item_id@ == ms[b].item_id@) by {
                        assert(!(o.staritems@[a].uname@ == o.staritems@[b].uname@ && o.staritems@[a].item_id@ == o.staritems@[b].item_id@));
                    }
                }
                proof {
                    let m = StarItem {
                        flag: act.flag,
                        reached_done: o.staritems@[k as int].reached_done || act.flag == StarFlag::Done,
                        ..o.staritems@[k as int]
                    };
                    assert(self.staritems@ == o.staritems@.update(k as int, m));
                    if !o.staritems@[k as int].reached_done && act.flag == StarFlag::Done {
                        assert(self.items@ == o.items@.update(ii as int, done_once_more(o.items@[ii as int])));
                    } else {
                        assert(self.items@ =~= o.items@);
                    }
                }
                Ok(self.staritems[k].duplicate())
            },
            None => {
                let m = StarItem {
                    id,
                    uname: who.uname.clone(),
                    item_id: act.item_slug,
                    star_at: now,
                    note: act.note,
                    flag: act.flag,
                    rate: act.rate,
                    reached_done: act.flag == StarFlag::Done,
                };
                let out = m.duplicate();
                self.staritems.push(m);
                proof {
                    let ms = self.staritems@;
                    let os = o.staritems@;
                    assert forall|i: int| 0 <= i < ms.len() && (#[trigger] ms[i]).flag == StarFlag::Done implies ms[i].reached_done by {
                        if i < os.len() {
                            assert(ms[i] == os[i]);
                        }
                    }
                    assert forall|a: int, b: int| 0 <= a < ms.len() && 0 <= b < ms.len() && a != b implies
                        !((#[trigger] ms[a]).uname@ == (#[trigger] ms[b]).uname@ && ms[a].item_id@ == ms[b].item_id@) by {
                        if a == os.len() {
                            assert(ms[b] == os[b]);
                        } else if b == os.len() {
                            assert(ms[a] == os[a]);
                        } else {
                            assert(!(os[a].uname@ == os[b].uname@ && os[a].item_id@ == os[b].item_id@));
                        }
                    }
                }
                Ok(out)
            },
        }
    }
}

} // verus!
