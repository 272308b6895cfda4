//! Stars of users on ruts, each counted by the rut it is on.

use vstd::prelude::*;
use crate::auth::CheckUser;
use crate::error::ServiceError;
use crate::model::{Rut, StarRut, StarOrRut};
use crate::store::{Store, rut_ids, rut_star_refs};

verus! {

/// Whether user `uname` starred rut `rid`.
pub open spec fn has_rut_star(ss: Seq<StarRut>, uname: Seq<char>, rid: Seq<char>) -> bool {
    exists|k: int| 0 <= k < ss.len() && (#[trigger] ss[k]).uname@ == uname && ss[k].rut_id@ == rid
}

/// A rut with a star counted more (`delta` 1) or less (`delta` -1).
pub open spec fn rut_starred(r: Rut, delta: int) -> Rut {
    Rut { star_count: (r.star_count + delta) as i32, ..r }
}

/// Appending a star adds one to its rut's count and none to others.
proof fn lemma_rut_star_refs_push(ss: Seq<StarRut>, x: StarRut, rid: Seq<char>)
    ensures
        rut_star_refs(ss.push(x), rid) == rut_star_refs(ss, rid) + if x.rut_id@ == rid { 1nat } else { 0nat },
{
    assert(ss.push(x).drop_last() =~= ss);
}

/// Removing a star takes one from its rut's count and none from others.
proof fn lemma_rut_star_refs_remove(ss: Seq<StarRut>, j: int, rid: Seq<char>)
    requires
        0 <= j < ss.len(),
    ensures
        rut_star_refs(ss, rid) == rut_star_refs(ss.remove(j), rid) + if ss[j].rut_id@ == rid { 1nat } else { 0nat },
    decreases ss.len(),
{
    if j == ss.len() - 1 {
        assert(ss.remove(j) =~= ss.drop_last());
    } else {
        lemma_rut_star_refs_remove(ss.drop_last(), j, rid);
        assert(ss.remove(j).drop_last() =~= ss.drop_last().remove(j));
        assert(ss.remove(j).last() == ss.last());
    }
}

/// What `Store::star_rut` promises: each failure and exactly when it comes, no other failure, and
/// the store `post` after the call in terms of the store `pre` before it.
pub open spec fn star_rut_post(pre: Store, post: Store, who: CheckUser, rut_id: String, note: String, id: String, now: i64, r: Result<(), ServiceError>) -> bool {
    &&& (r is Err ==> post == pre)
    &&& (!pre.has_rut(rut_id@) <==> r == Err::<(), ServiceError>(ServiceError::NotFound))
    &&& ((pre.has_rut(rut_id@) && !has_rut_star(pre.starruts@, who.uname@, rut_id@)
            && pre.ruts@[pre.rut_at(rut_id@)].star_count == i32::MAX)
            <==> r == Err::<(), ServiceError>(ServiceError::StoreError))
    &&& (has_rut_star(pre.starruts@, who.uname@, rut_id@) ==> post == pre)
    &&& (r is Err ==> r == Err::<(), ServiceError>(ServiceError::NotFound)
            || r == Err::<(), ServiceError>(ServiceError::StoreError))
    &&& (r is Ok ==> has_rut_star(post.starruts@, who.uname@, rut_id@))
    &&& (r is Ok && !has_rut_star(pre.starruts@, who.uname@, rut_id@) ==> {
            let ri = pre.rut_at(rut_id@);
            &&& post.ruts@ == pre.ruts@.update(ri, rut_starred(pre.ruts@[ri], 1))
            &&& post.starruts@ == pre.starruts@.push(StarRut {
                id,
                uname: who.uname,
                rut_id: rut_id,
                star_at: now,
                note,
            })
        })
    &&& (post.items == pre.items)
    &&& (post.collects == pre.collects)
    &&& (post.tags == pre.tags)
    &&& (post.tagruts == pre.tagruts)
    &&& (post.staritems == pre.staritems)
    &&& (post.startags == pre.startags)
    &&& (post.tagitems == pre.tagitems)
}

/// What `Store::unstar_rut` promises: each failure and exactly when it comes, no other failure, and
/// the store `post` after the call in terms of the store `pre` before it.
pub open spec fn unstar_rut_post(pre: Store, post: Store, who: CheckUser, rut_id: String, r: Result<(), ServiceError>) -> bool {
    &&& (r is Err ==> post == pre)
    &&& (!pre.has_rut(rut_id@) <==> r == Err::<(), ServiceError>(ServiceError::NotFound))
    &&& (r is Err ==> r == Err::<(), ServiceError>(ServiceError::NotFound))
    &&& (!has_rut_star(pre.starruts@, who.uname@, rut_id@) ==> post == pre)
    &&& (r is Ok ==> !has_rut_star(post.starruts@, who.uname@, rut_id@))
    &&& (r is Ok && has_rut_star(pre.starruts@, who.uname@, rut_id@) ==> {
            let ri = pre.rut_at(rut_id@);
            let j = pre.rut_star_at(who.uname@, rut_id@);
            &&& post.ruts@ == pre.ruts@.update(ri, rut_starred(pre.ruts@[ri], -1))
            &&& post.starruts@ == pre.starruts@.remove(j)
        })
    &&& (post.items == pre.items)
    &&& (post.collects == pre.collects)
    &&& (post.tags == pre.tags)
    &&& (post.tagruts == pre.tagruts)
    &&& (post.staritems == pre.staritems)
    &&& (post.startags == pre.startags)
    &&& (post.tagitems == pre.tagitems)
}

impl Store {
    /// The position of the star of user `uname` on rut `rid`.
    pub open spec fn rut_star_at(&self, uname: Seq<char>, rid: Seq<char>) -> int {
        choose|k: int| 0 <= k < self.starruts@.len() && self.starruts@[k].uname@ == uname && self.starruts@[k].rut_id@ == rid
    }

    /// The position of the star of user `uname` on rut `rid`, if any.
    fn find_rut_star(&self, uname: &String, rid: &String) -> (r: Option<usize>)
        requires
            self.wf(),
        ensures
            r is Some <==> has_rut_star(self.starruts@, uname@, rid@),
            r matches Some(k) ==> k < self.starruts@.len() && self.rut_star_at(uname@, rid@) == k
                && self.starruts@[k as int].uname@ == uname@ && self.starruts@[k as int].rut_id@ == rid@,
    {
        let mut i: usize = 0;
        while i < self.starruts.len()
            invariant
                self.wf(),
                i <= self.starruts@.len(),
                forall|k: int| 0 <= k < i ==> !(self.starruts@[k].uname@ == uname@ && self.starruts@[k].rut_id@ == rid@),
            decreases self.starruts@.len() - i,
        {
            if self.starruts[i].uname == *uname && self.starruts[i].rut_id == *rid {
                proof {
                    assert(0 <= i < self.starruts@.len() && self.starruts@[i as int].uname@ == uname@
                        && self.starruts@[i as int].rut_id@ == rid@);
                    let j = self.rut_star_at(uname@, rid@);
                    assert(0 <= j < self.starruts@.len() && self.starruts@[j].uname@ == uname@ && self.starruts@[j].rut_id@ == rid@);
                }
                return Some(i);
            }
            i += 1;
        }
        None
    }

    /// Whether user `uname` starred rut `rut_id`.
    pub fn star_rut_status(&self, uname: &String, rut_id: &String) -> (r: bool)
        requires
            self.wf(),
        ensures
            r == has_rut_star(self.starruts@, uname@, rut_id@),
    {
        self.find_rut_star(uname, rut_id).is_some()
    }

    /// Stars rut `rut_id` for the caller, as star `id` at `now`; the rut
    /// counts it. Fails with `NotFound` when the rut is missing and with
    /// `StoreError` when its star count is at its limit; nothing changes
    /// then. A rut the caller already starred stays as it is.
    pub fn star_rut(&mut self, who: &CheckUser, rut_id: &String, note: String, id: String, now: i64) -> (r: Result<(), ServiceError>)
        requires
            old(self).wf(),
        ensures
            final(self).wf(),
            star_rut_post(*old(self), *final(self), *who, *rut_id, note, id, now, r),
    {
        if self.find_rut_star(&who.uname, rut_id).is_some() {
            proof {
                let k = self.rut_star_at(who.uname@, rut_id@);
                assert(rut_ids(self.ruts@).contains(self.starruts@[k].rut_id@));
            }
            return Ok(());
        }
        let ri = match self.find_rut(rut_id) {
            Some(i) => i,
            None => {
                return Err(ServiceError::NotFound);
            },
        };
        proof {
            let j = self.rut_at(rut_id@);
            assert(rut_ids(self.ruts@)[ri as int] == rut_id@);
            if j != ri as int {
                assert(rut_ids(self.ruts@)[j] == rut_id@);
            }
        }
        let sc = self.ruts[ri].star_count;
        if sc == i32::MAX {
            return Err(ServiceError::StoreError);
        }
        let ghost o = *self;
        self.starruts.push(StarRut { id, uname: who.uname.clone(), rut_id: rut_id.clone(), star_at: now, note });
        self.ruts[ri].star_count = sc + 1;
        proof {
            let rs = self.ruts@;
            let ss = self.starruts@;
            let os = o.starruts@;
            let x = ss.last();
            assert(ss.drop_last() =~= os);
            assert(ss[ss.len() - 1].uname@ == who.uname@ && ss[ss.len() - 1].rut_id@ == rut_id@);
            assert(rut_ids(rs) =~= rut_ids(o.ruts@));
            assert forall|r: int| 0 <= r < rs.len() implies (#[trigger] rs[r]).star_count == rut_star_refs(ss, rs[r].id@) by {
                lemma_rut_star_refs_push(os, x, o.ruts@[r].id@);
                if r != ri as int {
                    assert(rut_ids(o.ruts@)[r] != rut_ids(o.ruts@)[ri as int]);
                }
            }
            assert forall|i: int| 0 <= i < ss.len() implies rut_ids(rs).contains((#[trigger] ss[i]).rut_id@) by {
                if i < os.len() {
                    assert(ss[i] == os[i]);
                } else {
                    assert(rut_ids(rs)[ri as int] == rut_id@);
                }
            }
            assert forall|a: int, b: int| 0 <= a < ss.len() && 0 <= b < ss.len() && a != b implies
                !((#[trigger] ss[a]).uname@ == (#[trigger] ss[b]).uname@ && ss[a].rut_id@ == ss[b].rut_id@) by {
                if a == os.len() {
                    assert(ss[b] == os[b]);
                } else if b == os.len() {
                    assert(ss[a] == os[a]);
                } else {
                    assert(!(os[a].uname@ == os[b].uname@ && os[a].rut_id@ == os[b].rut_id@));
                }
            }
        }
        Ok(())
    }

    /// Removes the caller's star on rut `rut_id`; the rut counts one star
    /// less. Fails with `NotFound`, changing nothing, when the rut is missing;
    /// a rut the caller did not star stays as it is.
    pub fn unstar_rut(&mut self, who: &CheckUser, rut_id: &String) -> (r: Result<(), ServiceError>)
        requires
            old(self).wf(),
        ensures
            final(self).wf(),
            unstar_rut_post(*old(self), *final(self), *who, *rut_id, r),
    {
        let ri = match self.find_rut(rut_id) {
            Some(i) => i,
            None => {
                proof {
                    if has_rut_star(self.starruts@, who.uname@, rut_id@) {
                        let k = choose|k: int| 0 <= k < self.starruts@.len() && (#[trigger] self.starruts@[k]).uname@ == who.uname@
                            && self.starruts@[k].rut_id@ == rut_id@;
                        assert(rut_ids(self.ruts@).contains(self.starruts@[k].rut_id@));
                    }
                }
                return Err(ServiceError::NotFound);
            },
        };
        proof {
            let j = self.rut_at(rut_id@);
            assert(rut_ids(self.ruts@)[ri as int] == rut_id@);
            if j != ri as int {
                assert(rut_ids(self.ruts@)[j] == rut_id@);
            }
        }
        let j = match self.find_rut_star(&who.uname, rut_id) {
            Some(j) => j,
            None => {
                return Ok(());
            },
        };
        let ghost o = *self;
        proof {
            lemma_rut_star_refs_remove(o.starruts@, j as int, rut_id@);
        }
        let sc = self.ruts[ri].star_count;
        self.starruts.remove(j);
        self.ruts[ri].star_count = sc - 1;
        proof {
            let rs = self.ruts@;
            let ss = self.starruts@;
            let os = o.starruts@;
            assert(rut_ids(rs) =~= rut_ids(o.ruts@));
            assert forall|i: int| 0 <= i < ss.len() implies #[trigger] ss[i] == os[if i < j { i } else { i + 1 }] by {
            }
            assert forall|r: int| 0 <= r < rs.len() implies (#[trigger] rs[r]).star_count == rut_star_refs(ss, rs[r].id@) by {
                lemma_rut_star_refs_remove(os, j as int, o.ruts@[r].id@);
                if r != ri as int {
                    assert(rut_ids(o.ruts@)[r] != rut_ids(o.ruts@)[ri as int]);
                }
            }
            assert forall|i: int| 0 <= i < ss.len() implies rut_ids(rs).contains((#[trigger] ss[i]).rut_id@) by {
                let k = if i < j { i } else { i + 1 };
                assert(rut_ids(o.ruts@).contains(os[k].rut_id@));
            }
            assert forall|a: int, b: int| 0 <= a < ss.len() && 0 <= b < ss.len() && a != b implies
                !((#[trigger] ss[a]).uname@ == (#[trigger] ss[b]).uname@ && ss[a].rut_id@ == ss[b].rut_id@) by {
                let ka = if a < j { a } else { a + 1 };
                let kb = if b < j { b } else { b + 1 };
                assert(!(os[ka].uname@ == os[kb].uname@ && os[ka].rut_id@ == os[kb].rut_id@));
            }
            if has_rut_star(ss, who.uname@, rut_id@) {
                let a = choose|a: int| 0 <= a < ss.len() && (#[trigger] ss[a]).uname@ == who.uname@ && ss[a].rut_id@ == rut_id@;
                let ka = if a < j { a } else { a + 1 };
                assert(!(os[ka].uname@ == os[j as int].uname@ && os[ka].rut_id@ == os[j as int].rut_id@));
            }
        }
        Ok(())
    }

    /// Stars (`act.action` 1) or unstars (`act.action` 0) a rut for the
    /// caller; any other action fails with `BadInput`, changing nothing.
    pub fn star_or_rut(&mut self, who: &CheckUser, act: StarOrRut, id: String, now: i64) -> (r: Result<(), ServiceError>)
        requires
            old(self).wf(),
        ensures
            act.action == 0 ==> unstar_rut_post(*old(self), *final(self), *who, act.rut_id, r),
            act.action == 1 ==> star_rut_post(*old(self), *final(self), *who, act.rut_id, act.note, id, now, r),
            final(self).wf(),
            r is Err ==> *final(self) == *old(self),
            act.action != 0 && act.action != 1 <==> r == Err::<(), ServiceError>(ServiceError::BadInput),
            (act.action == 0 || act.action == 1) && !old(self).has_rut(act.rut_id@)
                <==> r == Err::<(), ServiceError>(ServiceError::NotFound),
            act.action == 1 && r is Ok ==> has_rut_star(final(self).starruts@, who.uname@, act.rut_id@),
            act.action == 0 && r is Ok ==> !has_rut_star(final(self).starruts@, who.uname@, act.rut_id@),
    {
        if act.action == 1 {
            self.star_rut(who, &act.rut_id, act.note, id, now)
        } else if act.action == 0 {
            self.unstar_rut(who, &act.rut_id)
        } else {
            Err(ServiceError::BadInput)
        }
    }
}

} // verus!
