//! The ordered collection manager: placing items in ruts, removing them and
//! renumbering what follows, with the counters that track both.

use vstd::prelude::*;
use crate::auth::CheckUser;
use crate::error::ServiceError;
use crate::model::{Item, Rut, Collect, CollectItem, UpdateCollect};
use crate::store::{
    Store, RUT_CAPACITY, orders_of, first_orders, collect_ids, item_ids, rut_ids, unique, item_refs, has_order, dense, collects_wf, clash,
};

verus! {

/// Whether some collect has id `id`.
pub open spec fn has_collect_id(cs: Seq<Collect>, id: Seq<char>) -> bool {
    exists|i: int| 0 <= i < cs.len() && #[trigger] cs[i].id@ == id
}

/// Appending a collect adds one reference to its item and none to others.
proof fn lemma_refs_push(cs: Seq<Collect>, col: Collect, iid: Seq<char>)
    ensures
        item_refs(cs.push(col), iid) == item_refs(cs, iid) + if col.item_id@ == iid { 1nat } else { 0nat },
{
    assert(cs.push(col).drop_last() =~= cs);
}

/// Appending a collect at the position after the last keeps its rut dense,
/// and leaves every other rut as it was.
proof fn lemma_dense_push(cs: Seq<Collect>, col: Collect, rid: Seq<char>, n: int)
    requires
        0 <= n,
        dense(cs, rid, n),
        col.rut_id@ == rid ==> col.item_order == n + 1,
    ensures
        dense(cs.push(col), rid, if col.rut_id@ == rid { n + 1 } else { n }),
{
    let cs2 = cs.push(col);
    let m = if col.rut_id@ == rid { n + 1 } else { n };
    assert forall|k: int| 1 <= k <= m implies #[trigger] has_order(cs2, rid, k) by {
        if k <= n {
            assert(has_order(cs, rid, k));
            let i = choose|i: int| 0 <= i < cs.len() && #[trigger] cs[i].rut_id@ == rid && cs[i].item_order == k;
            assert(cs2[i] == cs[i]);
            assert(cs2[i].rut_id@ == rid);
        } else {
            assert(cs2[cs.len() as int] == col);
            assert(cs2[cs.len() as int].rut_id@ == rid);
        }
    }
    assert forall|i: int| 0 <= i < cs2.len() && cs2[i].rut_id@ == rid implies (1 <= #[trigger] cs2[i].item_order && cs2[i].item_order <= m) by {
        if i < cs.len() {
            assert(cs2[i] == cs[i]);
            assert(cs[i].rut_id@ == rid);
        } else {
            assert(cs2[i] == col);
        }
    }
    assert forall|i: int, j: int|
        0 <= i < cs2.len() && 0 <= j < cs2.len() && i != j && #[trigger] cs2[i].rut_id@ == rid
            && #[trigger] cs2[j].rut_id@ == rid implies cs2[i].item_order != cs2[j].item_order by {
        if i < cs.len() {
            assert(cs2[i] == cs[i]);
            assert(cs[i].rut_id@ == rid);
        }
        if j < cs.len() {
            assert(cs2[j] == cs[j]);
            assert(cs[j].rut_id@ == rid);
        }
    }
}

/// A collect as it stands after the collect of rut `rid` at position `d`
/// left: those of the same rut that stood behind it move up by one.
pub open spec fn renumbered(c: Collect, rid: Seq<char>, d: i32) -> Collect {
    if c.rut_id@ == rid && c.item_order > d {
        Collect { item_order: (c.item_order - 1) as i32, ..c }
    } else {
        c
    }
}

/// The collects after the one at position `j` of the sequence left.
pub open spec fn after_removal(cs: Seq<Collect>, j: int) -> Seq<Collect> {
    cs.remove(j).map_values(|c: Collect| renumbered(c, cs[j].rut_id@, cs[j].item_order))
}

/// Removing a collect takes one reference from its item and none from others.
proof fn lemma_refs_remove(cs: Seq<Collect>, j: int, iid: Seq<char>)
    requires
        0 <= j < cs.len(),
    ensures
        item_refs(cs, iid) == item_refs(cs.remove(j), iid) + if cs[j].item_id@ == iid { 1nat } else { 0nat },
    decreases cs.len(),
{
    if j == cs.len() - 1 {
        assert(cs.remove(j) =~= cs.drop_last());
    } else {
        lemma_refs_remove(cs.drop_last(), j, iid);
        assert(cs.remove(j).drop_last() =~= cs.drop_last().remove(j));
        assert(cs.remove(j).last() == cs.last());
    }
}

/// The references to an item depend on the collects' items alone.
proof fn lemma_refs_same_items(a: Seq<Collect>, b: Seq<Collect>, iid: Seq<char>)
    requires
        a.len() == b.len(),
        forall|i: int| 0 <= i < a.len() ==> #[trigger] a[i].item_id@ == b[i].item_id@,
    ensures
        item_refs(a, iid) == item_refs(b, iid),
    decreases a.len(),
{
    if a.len() > 0 {
        assert(a[a.len() - 1].item_id@ == b[b.len() - 1].item_id@);
        lemma_refs_same_items(a.drop_last(), b.drop_last(), iid);
    }
}

/// Removing a collect and moving up those behind it in its rut keeps that
/// rut dense with one position less, and leaves every other rut as it was.
proof fn lemma_dense_removal(cs: Seq<Collect>, j: int, rid: Seq<char>, n: int)
    requires
        0 <= j < cs.len(),
        dense(cs, rid, n),
    ensures
        dense(after_removal(cs, j), rid, if cs[j].rut_id@ == rid { n - 1 } else { n }),
{
    let del = cs[j];
    let d = del.item_order;
    let same = del.rut_id@ == rid;
    let m = if same { n - 1 } else { n };
    let rs = cs.remove(j);
    let ns = after_removal(cs, j);
    assert forall|t: int| 0 <= t < ns.len() implies #[trigger] ns[t] == renumbered(cs[if t < j { t } else { t + 1 }], del.rut_id@, d)
        && cs[if t < j { t } else { t + 1 }].rut_id@ == ns[t].rut_id@ by {
        assert(rs[t] == cs[if t < j { t } else { t + 1 }]);
    }
    assert forall|t: int| 0 <= t < ns.len() && #[trigger] ns[t].rut_id@ == rid implies 1 <= ns[t].item_order <= m by {
        let i = if t < j { t } else { t + 1 };
        assert(cs[i].rut_id@ == rid);
        if same {
            assert(cs[j].rut_id@ == rid);
            assert(cs[i].item_order != d);
        }
    }
    assert forall|k: int| 1 <= k <= m implies #[trigger] has_order(ns, rid, k) by {
        let kk = if same && k >= d { k + 1 } else { k };
        assert(has_order(cs, rid, kk));
        let i = choose|i: int| 0 <= i < cs.len() && #[trigger] cs[i].rut_id@ == rid && cs[i].item_order == kk;
        if same {
            assert(cs[j].rut_id@ == rid);
        }
        assert(i != j);
        let t = if i < j { i } else { i - 1 };
        assert(ns[t] == renumbered(cs[i], del.rut_id@, d));
        assert(ns[t].rut_id@ == rid);
    }
    assert forall|t1: int, t2: int|
        0 <= t1 < ns.len() && 0 <= t2 < ns.len() && t1 != t2 && #[trigger] ns[t1].rut_id@ == rid
            && #[trigger] ns[t2].rut_id@ == rid implies ns[t1].item_order != ns[t2].item_order by {
        let i1 = if t1 < j { t1 } else { t1 + 1 };
        let i2 = if t2 < j { t2 } else { t2 + 1 };
        assert(cs[i1].rut_id@ == rid);
        assert(cs[i2].rut_id@ == rid);
        if same {
            assert(cs[j].rut_id@ == rid);
            assert(cs[i1].item_order != d);
            assert(cs[i2].item_order != d);
        }
    }
}

/// Two sequences of collects with the same ids, ruts, items and positions.
pub open spec fn same_placement(a: Seq<Collect>, b: Seq<Collect>) -> bool {
    &&& a.len() == b.len()
    &&& forall|i: int| 0 <= i < a.len() ==> (#[trigger] a[i]).id@ == b[i].id@ && a[i].rut_id@ == b[i].rut_id@
        && a[i].item_id@ == b[i].item_id@ && a[i].item_order == b[i].item_order
}

/// Collects that keep their ids, ruts, items and positions keep the store's
/// invariant.
proof fn lemma_same_placement(items: Seq<Item>, ruts: Seq<Rut>, a: Seq<Collect>, b: Seq<Collect>)
    requires
        collects_wf(items, ruts, a),
        same_placement(a, b),
    ensures
        collects_wf(items, ruts, b),
{
    assert(collect_ids(a) =~= collect_ids(b));
    assert forall|r: int| 0 <= r < ruts.len() implies dense(b, #[trigger] ruts[r].id@, ruts[r].item_count as int) by {
        let rid = ruts[r].id@;
        let n = ruts[r].item_count as int;
        assert(dense(a, rid, n));
        assert forall|k: int| 1 <= k <= n implies #[trigger] has_order(b, rid, k) by {
            assert(has_order(a, rid, k));
            let i = choose|i: int| 0 <= i < a.len() && #[trigger] a[i].rut_id@ == rid && a[i].item_order == k;
            assert(b[i].rut_id@ == rid);
        }
        assert forall|i: int| 0 <= i < b.len() && #[trigger] b[i].rut_id@ == rid implies 1 <= b[i].item_order <= n by {
            assert(a[i].rut_id@ == rid);
        }
        assert forall|i: int, j: int|
            0 <= i < b.len() && 0 <= j < b.len() && i != j && #[trigger] b[i].rut_id@ == rid
                && #[trigger] b[j].rut_id@ == rid implies b[i].item_order != b[j].item_order by {
            assert(a[i].rut_id@ == rid);
            assert(a[j].rut_id@ == rid);
        }
    }
    assert forall|i: int| 0 <= i < b.len() implies rut_ids(ruts).contains(#[trigger] b[i].rut_id@)
        && item_ids(items).contains(b[i].item_id@) by {
        assert(a[i].rut_id@ == b[i].rut_id@);
    }
    assert forall|k: int| 0 <= k < items.len() implies #[trigger] items[k].rut_count == item_refs(b, items[k].id@) by {
        assert forall|i: int| 0 <= i < a.len() implies #[trigger] a[i].item_id@ == b[i].item_id@ by {
            assert(a[i].id@ == b[i].id@);
        }
        lemma_refs_same_items(a, b, items[k].id@);
    }
}

/// Item `i` holds id `id` in a sequence without repeated ids: it is the one
/// that `item_at` picks.
proof fn lemma_item_at(s: &Store, i: int, id: Seq<char>)
    requires
        unique(item_ids(s.items@)),
        0 <= i < s.items@.len(),
        s.items@[i].id@ == id,
    ensures
        s.item_at(id) == i,
{
    let j = s.item_at(id);
    assert(item_ids(s.items@)[i] == id);
    if j != i {
        assert(item_ids(s.items@)[j] == id);
    }
}

/// Collect `i` holds id `id` in a sequence without repeated ids: it is the
/// one that `collect_at` picks.
proof fn lemma_collect_at(s: &Store, i: int, id: Seq<char>)
    requires
        unique(collect_ids(s.collects@)),
        0 <= i < s.collects@.len(),
        s.collects@[i].id@ == id,
    ensures
        s.collect_at(id) == i,
{
    let j = s.collect_at(id);
    assert(collect_ids(s.collects@)[i] == id);
    if j != i {
        assert(collect_ids(s.collects@)[j] == id);
    }
}

/// Rut `i` holds id `id` in a sequence without repeated ids: it is the one
/// that `rut_at` picks.
proof fn lemma_rut_at(s: &Store, i: int, id: Seq<char>)
    requires
        unique(rut_ids(s.ruts@)),
        0 <= i < s.ruts@.len(),
        s.ruts@[i].id@ == id,
    ensures
        s.rut_at(id) == i,
{
    let j = s.rut_at(id);
    assert(rut_ids(s.ruts@)[i] == id);
    if j != i {
        assert(rut_ids(s.ruts@)[j] == id);
    }
}

/// In a well-formed store, and so after any sequence of collects and
/// uncollects from an empty one, the positions of a rut's collects are
/// exactly `1..=item_count`.
pub proof fn lemma_orders_dense(s: &Store, r: int)
    requires
        s.wf(),
        0 <= r < s.ruts@.len(),
    ensures
        orders_of(s.collects@, s.ruts@[r].id@) == first_orders(s.ruts@[r].item_count as int),
{
    let rid = s.ruts@[r].id@;
    let n = s.ruts@[r].item_count as int;
    assert(dense(s.collects@, rid, n));
    assert forall|k: int| #[trigger] orders_of(s.collects@, rid).contains(k) <==> first_orders(n).contains(k) by {
        if has_order(s.collects@, rid, k) {
            let i = choose|i: int| 0 <= i < s.collects@.len() && #[trigger] s.collects@[i].rut_id@ == rid
                && s.collects@[i].item_order == k;
        }
    }
    assert(orders_of(s.collects@, rid) =~= first_orders(n));
}

/// In a well-formed store, an item's rut count is the number of collects
/// that reference it, across all ruts.
pub proof fn lemma_rut_count_is_refs(s: &Store, i: int)
    requires
        s.wf(),
        0 <= i < s.items@.len(),
    ensures
        s.items@[i].rut_count == item_refs(s.collects@, s.items@[i].id@),
{
}

/// What `Store::collect` promises: each failure and exactly when it comes, no other failure, and
/// the store `post` after the call in terms of the store `pre` before it.
pub open spec fn collect_post(pre: Store, post: Store, who: CheckUser, c: CollectItem, id: String, now: i64, r: Result<Collect, ServiceError>) -> bool {
    &&& (r is Err ==> post == pre)
    &&& ((!pre.has_item(c.item_id@) || !pre.has_rut(c.rut_id@))
            <==> r == Err::<Collect, ServiceError>(ServiceError::NotFound))
    &&& ((pre.has_item(c.item_id@) && pre.has_rut(c.rut_id@)
            && pre.ruts@[pre.rut_at(c.rut_id@)].item_count >= RUT_CAPACITY)
            <==> r == Err::<Collect, ServiceError>(ServiceError::CapacityExceeded))
    &&& ((pre.has_item(c.item_id@) && pre.has_rut(c.rut_id@)
            && pre.ruts@[pre.rut_at(c.rut_id@)].item_count < RUT_CAPACITY
            && (pre.items@[pre.item_at(c.item_id@)].rut_count == i32::MAX
                || has_collect_id(pre.collects@, id@)))
            <==> r == Err::<Collect, ServiceError>(ServiceError::StoreError))
    &&& (r matches Ok(col) ==> {
            let ii = pre.item_at(c.item_id@);
            let ri = pre.rut_at(c.rut_id@);
            let n = pre.ruts@[ri].item_count;
            &&& col == (Collect {
                id,
                rut_id: c.rut_id,
                item_id: c.item_id,
                item_order: (n + 1) as i32,
                content: c.content,
                uname: who.uname,
                collect_at: now,
            })
            &&& post.collects@ == pre.collects@.push(col)
            &&& post.ruts@ == pre.ruts@.update(ri, Rut {
                item_count: (n + 1) as i32,
                logo: pre.items@[ii].cover,
                renew_at: now,
                ..pre.ruts@[ri]
            })
            &&& post.items@ == pre.items@.update(ii, Item {
                rut_count: (pre.items@[ii].rut_count + 1) as i32,
                ..pre.items@[ii]
            })
            &&& post.tags == pre.tags
            &&& post.tagruts == pre.tagruts
            &&& post.staritems == pre.staritems
            &&& post.starruts == pre.starruts
            &&& post.tagitems == pre.tagitems
            &&& post.startags == pre.startags
        })
    &&& (r is Err ==> r == Err::<Collect, ServiceError>(ServiceError::NotFound) || r == Err::<Collect, ServiceError>(ServiceError::CapacityExceeded) || r == Err::<Collect, ServiceError>(ServiceError::StoreError))
}

/// What `Store::uncollect` promises: each failure and exactly when it comes, no other failure, and
/// the store `post` after the call in terms of the store `pre` before it.
pub open spec fn uncollect_post(pre: Store, post: Store, who: CheckUser, collect_id: String, now: i64, r: Result<(), ServiceError>) -> bool {
    &&& (r is Err ==> post == pre)
    &&& (!has_collect_id(pre.collects@, collect_id@)
            <==> r == Err::<(), ServiceError>(ServiceError::NotFound))
    &&& ((has_collect_id(pre.collects@, collect_id@)
            && pre.collects@[pre.collect_at(collect_id@)].uname@ != who.uname@)
            <==> r == Err::<(), ServiceError>(ServiceError::Unauthorized))
    &&& (r is Ok ==> {
            let j = pre.collect_at(collect_id@);
            let del = pre.collects@[j];
            let ri = pre.rut_at(del.rut_id@);
            let ii = pre.item_at(del.item_id@);
            &&& post.collects@ == after_removal(pre.collects@, j)
            &&& post.ruts@ == pre.ruts@.update(ri, Rut {
                item_count: (pre.ruts@[ri].item_count - 1) as i32,
                renew_at: now,
                ..pre.ruts@[ri]
            })
            &&& post.items@ == pre.items@.update(ii, Item {
                rut_count: (pre.items@[ii].rut_count - 1) as i32,
                ..pre.items@[ii]
            })
            &&& post.tags == pre.tags
            &&& post.tagruts == pre.tagruts
            &&& post.staritems == pre.staritems
            &&& post.starruts == pre.starruts
            &&& post.tagitems == pre.tagitems
            &&& post.startags == pre.startags
        })
    &&& (r is Err ==> r == Err::<(), ServiceError>(ServiceError::NotFound) || r == Err::<(), ServiceError>(ServiceError::Unauthorized))
}

/// What `Store::update_collect` promises: each failure and exactly when it comes, no other failure, and
/// the store `post` after the call in terms of the store `pre` before it.
pub open spec fn update_collect_post(pre: Store, post: Store, who: CheckUser, up: UpdateCollect, r: Result<Collect, ServiceError>) -> bool {
    &&& (r is Err ==> post == pre)
    &&& (!has_collect_id(pre.collects@, up.id@)
            <==> r == Err::<Collect, ServiceError>(ServiceError::NotFound))
    &&& ((has_collect_id(pre.collects@, up.id@)
            && pre.collects@[pre.collect_at(up.id@)].uname@ != who.uname@)
            <==> r == Err::<Collect, ServiceError>(ServiceError::Unauthorized))
    &&& (r matches Ok(col) ==> {
            let j = pre.collect_at(up.id@);
            &&& col == (Collect { content: up.content, ..pre.collects@[j] })
            &&& post.collects@ == pre.collects@.update(j, col)
            &&& post.items == pre.items
            &&& post.ruts == pre.ruts
            &&& post.tags == pre.tags
            &&& post.tagruts == pre.tagruts
            &&& post.staritems == pre.staritems
            &&& post.starruts == pre.starruts
            &&& post.tagitems == pre.tagitems
            &&& post.startags == pre.startags
        })
    &&& (r is Err ==> r == Err::<Collect, ServiceError>(ServiceError::NotFound) || r == Err::<Collect, ServiceError>(ServiceError::Unauthorized))
}

impl Store {
    /// The position of the collect with id `id`, if there is one.
    pub fn find_collect(&self, id: &String) -> (r: Option<usize>)
        ensures
            r is Some <==> has_collect_id(self.collects@, id@),
            r matches Some(i) ==> i < self.collects@.len() && self.collects@[i as int].id@ == id@,
    {
        let mut i: usize = 0;
        while i < self.collects.len()
            invariant
                i <= self.collects@.len(),
                forall|k: int| 0 <= k < i ==> self.collects@[k].id@ != id@,
            decreases self.collects@.len() - i,
        {
            if self.collects[i].id == *id {
                return Some(i);
            }
            i += 1;
        }
        None
    }

    /// Places an item at the end of a rut, as the caller's collect `id`.
    ///
    /// Fails with `NotFound` when the item or the rut is missing, with
    /// `CapacityExceeded` when the rut is full, and with `StoreError` when the
    /// item's rut count is at its limit or the id is taken. On failure nothing
    /// changes; on success the collect takes the position after the last, the
    /// rut counts it and shows the item's cover, and the item counts the rut.
    pub fn collect(&mut self, who: &CheckUser, c: CollectItem, id: String, now: i64) -> (r: Result<Collect, ServiceError>)
        requires
            old(self).wf(),
        ensures
            final(self).wf(),
            collect_post(*old(self), *final(self), *who, c, id, now, r),
    {
        let ii = match self.find_item(&c.item_id) {
            Some(i) => i,
            None => {
                return Err(ServiceError::NotFound);
            },
        };
        let ri = match self.find_rut(&c.rut_id) {
            Some(i) => i,
            None => {
                return Err(ServiceError::NotFound);
            },
        };
        proof {
            lemma_item_at(self, ii as int, c.item_id@);
            lemma_rut_at(self, ri as int, c.rut_id@);
        }
        let n = self.ruts[ri].item_count;
        if n >= RUT_CAPACITY {
            return Err(ServiceError::CapacityExceeded);
        }
        if self.items[ii].rut_count == i32::MAX {
            return Err(ServiceError::StoreError);
        }
        if self.find_collect(&id).is_some() {
            return Err(ServiceError::StoreError);
        }
        let ghost o = *self;
        let col = Collect::new(id, c, n + 1, who.uname.clone(), now);
        let out = col.duplicate();
        let cover = self.items[ii].cover.clone();
        let count = self.items[ii].rut_count;
        self.collects.push(col);
        self.ruts[ri].item_count = n + 1;
        self.ruts[ri].logo = cover;
        self.ruts[ri].renew_at = now;
        self.items[ii].rut_count = count + 1;
        proof {
            let cs = o.collects@;
            let cs2 = self.collects@;
            assert(item_ids(self.items@) =~= item_ids(o.items@));
            assert forall|a: int, b: int| 0 <= a < self.items@.len() && 0 <= b < self.items@.len() && a != b implies
                !clash(#[trigger] self.items@[a], #[trigger] self.items@[b]) by {
                assert(!clash(o.items@[a], o.items@[b]));
            }
            assert(collect_ids(cs2) =~= collect_ids(cs).push(out.id@));
            assert forall|i: int, j: int| 0 <= i < j < collect_ids(cs2).len() implies
                #[trigger] collect_ids(cs2)[i] != #[trigger] collect_ids(cs2)[j] by {
                if j == cs.len() {
                    assert(cs[i].id@ == collect_ids(cs)[i]);
                } else {
                    assert(collect_ids(cs)[i] != collect_ids(cs)[j]);
                }
            }
            assert(rut_ids(self.ruts@) =~= rut_ids(o.ruts@));
            assert forall|r: int| 0 <= r < self.ruts@.len() implies 0 <= #[trigger] self.ruts@[r].item_count <= RUT_CAPACITY
                && dense(cs2, self.ruts@[r].id@, self.ruts@[r].item_count as int) by {
                assert(0 <= o.ruts@[r].item_count <= RUT_CAPACITY);
                if r != ri as int {
                    assert(rut_ids(o.ruts@)[r] != rut_ids(o.ruts@)[ri as int]);
                }
                lemma_dense_push(cs, out, o.ruts@[r].id@, o.ruts@[r].item_count as int);
            }
            assert forall|i: int| 0 <= i < cs2.len() implies rut_ids(self.ruts@).contains(#[trigger] cs2[i].rut_id@)
                && item_ids(self.items@).contains(cs2[i].item_id@) by {
                if i < cs.len() {
                    assert(cs2[i] == cs[i]);
                } else {
                    assert(rut_ids(self.ruts@)[ri as int] == cs2[i].rut_id@);
                    assert(item_ids(self.items@)[ii as int] == cs2[i].item_id@);
                }
            }
            assert forall|i: int| 0 <= i < self.items@.len() implies #[trigger] self.items@[i].rut_count
                == item_refs(cs2, self.items@[i].id@) by {
                lemma_refs_push(cs, out, o.items@[i].id@);
                assert(o.items@[i].rut_count == item_refs(cs, o.items@[i].id@));
                if i != ii as int {
                    assert(item_ids(o.items@)[i] != item_ids(o.items@)[ii as int]);
                }
            }
            assert(self.ruts@ == o.ruts@.update(ri as int, Rut {
                item_count: (n + 1) as i32,
                logo: o.items@[ii as int].cover,
                renew_at: now,
                ..o.ruts@[ri as int]
            }));
            assert(self.items@ == o.items@.update(ii as int, Item {
                rut_count: (o.items@[ii as int].rut_count + 1) as i32,
                ..o.items@[ii as int]
            }));
        }
        Ok(out)
    }

    /// Removes the caller's collect `collect_id` from its rut.
    ///
    /// Fails with `NotFound` when no collect has that id and with
    /// `Unauthorized` when the caller does not own it; nothing changes then.
    /// On success the collects of the same rut behind it move up one
    /// position, the rut counts one item less and the item one rut less.
    pub fn uncollect(&mut self, who: &CheckUser, collect_id: &String, now: i64) -> (r: Result<(), ServiceError>)
        requires
            old(self).wf(),
        ensures
            final(self).wf(),
            uncollect_post(*old(self), *final(self), *who, *collect_id, now, r),
    {
        let j = match self.find_collect(collect_id) {
            Some(j) => j,
            None => {
                return Err(ServiceError::NotFound);
            },
        };
        proof {
            lemma_collect_at(self, j as int, collect_id@);
        }
        if self.collects[j].uname != who.uname {
            return Err(ServiceError::Unauthorized);
        }
        let ghost o = *self;
        let ghost cs = self.collects@;
        proof {
            assert(rut_ids(o.ruts@).contains(cs[j as int].rut_id@));
            assert(item_ids(o.items@).contains(cs[j as int].item_id@));
        }
        let ri = match self.find_rut(&self.collects[j].rut_id) {
            Some(i) => i,
            None => {
                proof {
                    assert(self.has_rut(cs[j as int].rut_id@));
                }
                return Err(ServiceError::StoreError);
            },
        };
        let ii = match self.find_item(&self.collects[j].item_id) {
            Some(i) => i,
            None => {
                proof {
                    assert(self.has_item(cs[j as int].item_id@));
                }
                return Err(ServiceError::StoreError);
            },
        };
        proof {
            lemma_rut_at(self, ri as int, cs[j as int].rut_id@);
            lemma_item_at(self, ii as int, cs[j as int].item_id@);
            assert(dense(cs, o.ruts@[ri as int].id@, o.ruts@[ri as int].item_count as int));
            assert(cs[j as int].rut_id@ == o.ruts@[ri as int].id@);
            lemma_refs_remove(cs, j as int, o.items@[ii as int].id@);
            assert(o.items@[ii as int].rut_count == item_refs(cs, o.items@[ii as int].id@));
        }
        let del = self.collects.remove(j);
        let ghost mid = self.collects@;
        let n = self.ruts[ri].item_count;
        self.ruts[ri].item_count = n - 1;
        self.ruts[ri].renew_at = now;
        let count = self.items[ii].rut_count;
        self.items[ii].rut_count = count - 1;
        let ghost items1 = self.items@;
        let ghost ruts1 = self.ruts@;
        let mut i: usize = 0;
        while i < self.collects.len()
            invariant
                self.collects@.len() == mid.len(),
                i <= mid.len(),
                forall|t: int| 0 <= t < i ==> self.collects@[t] == renumbered(mid[t], del.rut_id@, del.item_order),
                forall|t: int| i <= t < mid.len() ==> self.collects@[t] == mid[t],
                self.items@ == items1,
                self.ruts@ == ruts1,
                self.tags == o.tags,
                self.tagruts == o.tagruts,
                self.staritems == o.staritems,
                self.starruts == o.starruts,
                self.tagitems == o.tagitems,
                self.startags == o.startags,
            decreases mid.len() - i,
        {
            if self.collects[i].rut_id == del.rut_id && self.collects[i].item_order > del.item_order {
                let k = self.collects[i].item_order;
                self.collects[i].item_order = k - 1;
            }
            i += 1;
        }
        proof {
            let ns = self.collects@;
            assert(ns =~= after_removal(cs, j as int));
            assert(item_ids(self.items@) =~= item_ids(o.items@));
            assert forall|a: int, b: int| 0 <= a < self.items@.len() && 0 <= b < self.items@.len() && a != b implies
                !clash(#[trigger] self.items@[a], #[trigger] self.items@[b]) by {
                assert(!clash(o.items@[a], o.items@[b]));
            }
            assert(rut_ids(self.ruts@) =~= rut_ids(o.ruts@));
            assert forall|t: int| 0 <= t < ns.len() implies #[trigger] ns[t].id@ == mid[t].id@
                && ns[t].item_id@ == mid[t].item_id@ && ns[t].rut_id@ == mid[t].rut_id@ by {
            }
            assert forall|t: int| 0 <= t < mid.len() implies #[trigger] mid[t] == cs[if t < j { t } else { t + 1 }] by {
            }
            assert forall|a: int, b: int| 0 <= a < b < collect_ids(ns).len() implies
                #[trigger] collect_ids(ns)[a] != #[trigger] collect_ids(ns)[b] by {
                let ia = if a < j { a } else { a + 1 };
                let ib = if b < j { b } else { b + 1 };
                assert(collect_ids(cs)[ia] != collect_ids(cs)[ib]);
            }
            assert forall|r: int| 0 <= r < self.ruts@.len() implies 0 <= #[trigger] self.ruts@[r].item_count <= RUT_CAPACITY
                && dense(ns, self.ruts@[r].id@, self.ruts@[r].item_count as int) by {
                assert(0 <= o.ruts@[r].item_count <= RUT_CAPACITY);
                if r != ri as int {
                    assert(rut_ids(o.ruts@)[r] != rut_ids(o.ruts@)[ri as int]);
                }
                lemma_dense_removal(cs, j as int, o.ruts@[r].id@, o.ruts@[r].item_count as int);
            }
            assert forall|t: int| 0 <= t < ns.len() implies rut_ids(self.ruts@).contains(#[trigger] ns[t].rut_id@)
                && item_ids(self.items@).contains(ns[t].item_id@) by {
                let it = if t < j { t } else { t + 1 };
                assert(cs[it].rut_id@ == ns[t].rut_id@);
            }
            assert forall|k: int| 0 <= k < self.items@.len() implies #[trigger] self.items@[k].rut_count
                == item_refs(ns, self.items@[k].id@) by {
                lemma_refs_remove(cs, j as int, o.items@[k].id@);
                lemma_refs_same_items(ns, mid, o.items@[k].id@);
                assert(o.items@[k].rut_count == item_refs(cs, o.items@[k].id@));
                if k != ii as int {
                    assert(item_ids(o.items@)[k] != item_ids(o.items@)[ii as int]);
                }
            }
        }
        proof {
            let j0 = o.collect_at(collect_id@);
            assert(j0 == j as int);
            assert(o.rut_at(cs[j as int].rut_id@) == ri as int);
            assert(self.collects@ == after_removal(o.collects@, j0));
            assert(self.ruts@ == o.ruts@.update(ri as int, Rut { item_count: (o.ruts@[ri as int].item_count - 1) as i32, renew_at: now, ..o.ruts@[ri as int] }));
            assert(self.items@ == o.items@.update(ii as int, Item { rut_count: (o.items@[ii as int].rut_count - 1) as i32, ..o.items@[ii as int] }));
        }
        Ok(())
    }

    /// Replaces the annotation of the caller's collect `up.id`.
    ///
    /// Fails with `NotFound` when no collect has that id and with
    /// `Unauthorized` when the caller does not own it; nothing changes then.
    pub fn update_collect(&mut self, who: &CheckUser, up: UpdateCollect) -> (r: Result<Collect, ServiceError>)
        requires
            old(self).wf(),
        ensures
            final(self).wf(),
            update_collect_post(*old(self), *final(self), *who, up, r),
    {
        let j = match self.find_collect(&up.id) {
            Some(j) => j,
            None => {
                return Err(ServiceError::NotFound);
            },
        };
        proof {
            lemma_collect_at(self, j as int, up.id@);
        }
        if self.collects[j].uname != who.uname {
            return Err(ServiceError::Unauthorized);
        }
        let ghost o = *self;
        self.collects[j].content = up.content;
        proof {
            assert forall|i: int| 0 <= i < o.collects@.len() implies (#[trigger] o.collects@[i]).id@ == self.collects@[i].id@
                && o.collects@[i].rut_id@ == self.collects@[i].rut_id@
                && o.collects@[i].item_id@ == self.collects@[i].item_id@
                && o.collects@[i].item_order == self.collects@[i].item_order by {
            }
            lemma_same_placement(o.items@, o.ruts@, o.collects@, self.collects@);
        }
        Ok(self.collects[j].duplicate())
    }

    /// The collect with id `collect_id`.
    pub fn get_collect(&self, collect_id: &String) -> (r: Result<Collect, ServiceError>)
        requires
            self.wf(),
        ensures
            r is Err ==> r == Err::<Collect, ServiceError>(ServiceError::NotFound),
            !has_collect_id(self.collects@, collect_id@) <==> r == Err::<Collect, ServiceError>(ServiceError::NotFound),
            r matches Ok(c) ==> c == self.collects@[self.collect_at(collect_id@)],
    {
        match self.find_collect(collect_id) {
            Some(j) => {
                proof {
                    lemma_collect_at(self, j as int, collect_id@);
                }
                Ok(self.collects[j].duplicate())
            },
            None => Err(ServiceError::NotFound),
        }
    }
}

} // verus!
