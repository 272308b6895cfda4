//! The association engine: tagging ruts with counted, idempotent
//! associations that provision missing tags, and starring tags, with the
//! counters and the vote that follow.

use vstd::prelude::*;
use crate::auth::CheckUser;
use crate::error::ServiceError;
use crate::model::{Tag, TagRut, StarTag, StarOrTag, CheckTag, UpdateTag};
use crate::store::{Store, unique, STAR_TAG_CAPACITY};
use crate::tagstore::{
    tag_names, star_refs, user_stars, tag_ok, same_star, same_pair, tags_wf,
    lemma_star_refs_push, lemma_star_refs_remove, lemma_no_stars,
};

verus! {

/// In a well-formed store, and so after any sequence of tag and star
/// operations from an empty one, a tag's vote is twice its rut count plus
/// its star count.
pub proof fn lemma_vote(s: &Store, t: int)
    requires
        s.wf(),
        0 <= t < s.tags@.len(),
    ensures
        s.tags@[t].vote == s.tags@[t].rut_count * 2 + s.tags@[t].star_count,
{
    assert(tag_ok(s.tags@[t]));
}

/// Whether rut `rid` carries tag `name`.
pub open spec fn has_pair(trs: Seq<TagRut>, name: Seq<char>, rid: Seq<char>) -> bool {
    exists|k: int| 0 <= k < trs.len() && (#[trigger] trs[k]).tname@ == name && trs[k].rut_id@ == rid
}

/// Whether user `uname` starred tag `name`.
pub open spec fn has_star(ss: Seq<StarTag>, uname: Seq<char>, name: Seq<char>) -> bool {
    exists|k: int| 0 <= k < ss.len() && (#[trigger] ss[k]).uname@ == uname && ss[k].tname@ == name
}

/// The tag association after tagging once more.
pub open spec fn bumped(tr: TagRut) -> TagRut {
    TagRut { count: (tr.count + 1) as i32, ..tr }
}

/// A tag after it was applied to a rut it did not carry.
pub open spec fn applied(t: Tag) -> Tag {
    Tag { rut_count: (t.rut_count + 1) as i32, vote: (t.vote + 2) as i32, ..t }
}

/// A tag with a star counted more (`delta` 1) or less (`delta` -1).
pub open spec fn starred(t: Tag, delta: int) -> Tag {
    Tag { star_count: (t.star_count + delta) as i32, vote: (t.vote + delta) as i32, ..t }
}

/// `new` is `old` with one more association, of tag `name` with rut `rid`,
/// applied once.
pub open spec fn pair_added(old: Seq<TagRut>, new: Seq<TagRut>, name: Seq<char>, rid: Seq<char>) -> bool {
    &&& new.len() == old.len() + 1
    &&& new.drop_last() == old
    &&& new.last().id@ == name + "-"@ + rid
    &&& new.last().tname@ == name
    &&& new.last().rut_id@ == rid
    &&& new.last().count == 1
}

/// Every association of `old` stands at the same position of `new`.
pub open spec fn keeps_pairs(old: Seq<TagRut>, new: Seq<TagRut>) -> bool {
    &&& old.len() <= new.len()
    &&& forall|k: int| 0 <= k < old.len() ==> same_pair(#[trigger] old[k], new[k])
}

/// An association that untagging rut `rid` from `names` removes.
pub open spec fn untagged(tr: TagRut, rid: Seq<char>, names: Seq<Seq<char>>) -> bool {
    tr.rut_id@ == rid && names.contains(tr.tname@)
}

/// `states` runs from the store before tagging rut `rut_id` with `names` to
/// the store after it, each step tagging with the next name as
/// `Store::tag_rut_one` does and giving the matching result of `rs`.
pub open spec fn tag_run(states: Seq<Store>, rut_id: String, names: Seq<String>, rs: Seq<Result<(), ServiceError>>) -> bool {
    &&& states.len() == names.len() + 1
    &&& rs.len() == names.len()
    &&& forall|k: int| 0 <= k < names.len() ==> tag_rut_one_post(states[k], states[k + 1], rut_id, #[trigger] names[k], rs[k])
}

/// Whether an association survives untagging rut `rid` from `names`.
pub open spec fn survives(rid: Seq<char>, names: Seq<Seq<char>>) -> spec_fn(TagRut) -> bool {
    |tr: TagRut| !untagged(tr, rid, names)
}

/// The views of a list of names.
pub open spec fn name_views(names: Seq<String>) -> Seq<Seq<char>> {
    names.map_values(|s: String| s@)
}

/// A tag provisioned for its first rut: named `name`, blank, counted once.
pub open spec fn provisioned(t: Tag, name: Seq<char>) -> bool {
    &&& t.id@ == name
    &&& t.tname@ == name
    &&& t.intro@.len() == 0
    &&& t.logo@.len() == 0
    &&& t.pname@.len() == 0
    &&& t.item_count == 0
    &&& t.rut_count == 1
    &&& t.etc_count == 0
    &&& t.star_count == 0
    &&& t.vote == 2
}

/// What `Store::star_tag` promises: each failure and exactly when it comes, no other failure, and
/// the store `post` after the call in terms of the store `pre` before it.
pub open spec fn star_tag_post(pre: Store, post: Store, who: CheckUser, tname: String, note: String, id: String, now: i64, r: Result<(), ServiceError>) -> bool {
    &&& (r is Err ==> post == pre)
    &&& (!pre.has_tag(tname@) <==> r == Err::<(), ServiceError>(ServiceError::NotFound))
    &&& ((pre.has_tag(tname@) && !has_star(pre.startags@, who.uname@, tname@)
            && user_stars(pre.startags@, who.uname@) >= STAR_TAG_CAPACITY)
            <==> r == Err::<(), ServiceError>(ServiceError::CapacityExceeded))
    &&& ((pre.has_tag(tname@) && !has_star(pre.startags@, who.uname@, tname@)
            && user_stars(pre.startags@, who.uname@) < STAR_TAG_CAPACITY
            && pre.tags@[pre.tag_at(tname@)].vote == i32::MAX)
            <==> r == Err::<(), ServiceError>(ServiceError::StoreError))
    &&& (pre.has_tag(tname@) && has_star(pre.startags@, who.uname@, tname@)
            ==> r is Ok && post == pre)
    &&& (r is Err ==> r == Err::<(), ServiceError>(ServiceError::NotFound)
            || r == Err::<(), ServiceError>(ServiceError::CapacityExceeded)
            || r == Err::<(), ServiceError>(ServiceError::StoreError))
    &&& (r is Ok ==> has_star(post.startags@, who.uname@, tname@))
    &&& (r is Ok && !has_star(pre.startags@, who.uname@, tname@) ==> {
            let t = pre.tag_at(tname@);
            &&& post.tags@ == pre.tags@.update(t, starred(pre.tags@[t], 1))
            &&& post.startags@ == pre.startags@.push(StarTag {
                id,
                uname: who.uname,
                tname: tname,
                star_at: now,
                note,
            })
        })
    &&& (post.items == pre.items)
    &&& (post.ruts == pre.ruts)
    &&& (post.collects == pre.collects)
    &&& (post.tagruts == pre.tagruts)
    &&& (post.staritems == pre.staritems)
    &&& (post.starruts == pre.starruts)
    &&& (post.tagitems == pre.tagitems)
}

/// What `Store::unstar_tag` promises: each failure and exactly when it comes, no other failure, and
/// the store `post` after the call in terms of the store `pre` before it.
pub open spec fn unstar_tag_post(pre: Store, post: Store, who: CheckUser, tname: String, r: Result<(), ServiceError>) -> bool {
    &&& (r is Err ==> post == pre)
    &&& (!pre.has_tag(tname@) <==> r == Err::<(), ServiceError>(ServiceError::NotFound))
    &&& (!has_star(pre.startags@, who.uname@, tname@) ==> post == pre)
    &&& (r is Err ==> r == Err::<(), ServiceError>(ServiceError::NotFound))
    &&& (r is Ok ==> !has_star(post.startags@, who.uname@, tname@))
    &&& (r is Ok && has_star(pre.startags@, who.uname@, tname@) ==> {
            let t = pre.tag_at(tname@);
            let j = pre.star_at(who.uname@, tname@);
            &&& post.tags@ == pre.tags@.update(t, starred(pre.tags@[t], -1))
            &&& post.startags@ == pre.startags@.remove(j)
        })
    &&& (post.items == pre.items)
    &&& (post.ruts == pre.ruts)
    &&& (post.collects == pre.collects)
    &&& (post.tagruts == pre.tagruts)
    &&& (post.staritems == pre.staritems)
    &&& (post.starruts == pre.starruts)
    &&& (post.tagitems == pre.tagitems)
}

/// What `Store::tag_rut_one` promises: each failure and exactly when it comes, no other failure, and
/// the store `post` after the call in terms of the store `pre` before it.
pub open spec fn tag_rut_one_post(pre: Store, post: Store, rut_id: String, name: String, r: Result<(), ServiceError>) -> bool {
    &&& (r is Err ==> post == pre && r == Err::<(), ServiceError>(ServiceError::StoreError))
    &&& (has_pair(pre.tagruts@, name@, rut_id@) ==> {
            let k = pre.pair_at(name@, rut_id@);
            &&& (r is Ok <==> pre.tagruts@[k].count < i32::MAX)
            &&& r is Ok ==> post.tagruts@ == pre.tagruts@.update(k, bumped(pre.tagruts@[k]))
                && post.tags == pre.tags
        })
    &&& (!has_pair(pre.tagruts@, name@, rut_id@) && pre.has_tag(name@) ==> {
            let t = pre.tag_at(name@);
            &&& (r is Ok <==> pre.tags@[t].vote <= i32::MAX - 2)
            &&& r is Ok ==> post.tags@ == pre.tags@.update(t, applied(pre.tags@[t]))
                && pair_added(pre.tagruts@, post.tagruts@, name@, rut_id@)
        })
    &&& (!has_pair(pre.tagruts@, name@, rut_id@) && !pre.has_tag(name@) ==> {
            &&& r is Ok
            &&& post.tags@.len() == pre.tags@.len() + 1
            &&& post.tags@.drop_last() == pre.tags@
            &&& provisioned(post.tags@.last(), name@)
            &&& pair_added(pre.tagruts@, post.tagruts@, name@, rut_id@)
        })
    &&& (r is Ok ==> has_pair(post.tagruts@, name@, rut_id@))
    &&& (keeps_pairs(pre.tagruts@, post.tagruts@))
    &&& (post.items == pre.items)
    &&& (post.ruts == pre.ruts)
    &&& (post.collects == pre.collects)
    &&& (post.staritems == pre.staritems)
    &&& (post.starruts == pre.starruts)
    &&& (post.tagitems == pre.tagitems)
    &&& (post.startags == pre.startags)
}

/// What `Store::new_tag` promises: each failure and exactly when it comes, no other failure, and
/// the store `post` after the call in terms of the store `pre` before it.
pub open spec fn new_tag_post(pre: Store, post: Store, name: String, r: Result<Tag, ServiceError>) -> bool {
    &&& (r is Err ==> post == pre)
    &&& (pre.has_tag(name@) <==> r == Err::<Tag, ServiceError>(ServiceError::StoreError))
    &&& (r matches Ok(t) ==> {
            &&& t.id == name
            &&& t.tname == name
            &&& t.intro@.len() == 0
            &&& t.logo@.len() == 0
            &&& t.pname@.len() == 0
            &&& t.item_count == 0
            &&& t.rut_count == 0
            &&& t.etc_count == 0
            &&& t.star_count == 0
            &&& t.vote == 0
            &&& post.tags@ == pre.tags@.push(t)
        })
    &&& (post.items == pre.items)
    &&& (post.ruts == pre.ruts)
    &&& (post.collects == pre.collects)
    &&& (post.tagruts == pre.tagruts)
    &&& (post.staritems == pre.staritems)
    &&& (post.startags == pre.startags)
    &&& (post.starruts == pre.starruts)
    &&& (post.tagitems == pre.tagitems)
    &&& (r is Err ==> r == Err::<Tag, ServiceError>(ServiceError::StoreError))
}

/// What `Store::update_tag` promises: each failure and exactly when it comes, no other failure, and
/// the store `post` after the call in terms of the store `pre` before it.
pub open spec fn update_tag_post(pre: Store, post: Store, up: UpdateTag, r: Result<Tag, ServiceError>) -> bool {
    &&& (r is Err ==> post == pre)
    &&& (!pre.has_tag(up.tname@) <==> r == Err::<Tag, ServiceError>(ServiceError::NotFound))
    &&& (r matches Ok(t) ==> {
            let k = pre.tag_at(up.tname@);
            &&& t == (Tag { intro: up.intro, logo: up.logo, pname: up.pname, ..pre.tags@[k] })
            &&& post.tags@ == pre.tags@.update(k, t)
        })
    &&& (post.items == pre.items)
    &&& (post.ruts == pre.ruts)
    &&& (post.collects == pre.collects)
    &&& (post.tagruts == pre.tagruts)
    &&& (post.staritems == pre.staritems)
    &&& (post.startags == pre.startags)
    &&& (post.starruts == pre.starruts)
    &&& (post.tagitems == pre.tagitems)
    &&& (r is Err ==> r == Err::<Tag, ServiceError>(ServiceError::NotFound))
}

impl Store {
    /// Whether a tag named `name` exists.
    pub open spec fn has_tag(&self, name: Seq<char>) -> bool {
        tag_names(self.tags@).contains(name)
    }

    /// The position of the tag named `name`.
    pub open spec fn tag_at(&self, name: Seq<char>) -> int {
        choose|i: int| 0 <= i < self.tags@.len() && self.tags@[i].tname@ == name
    }

    /// The position of the association of tag `name` with rut `rid`.
    pub open spec fn pair_at(&self, name: Seq<char>, rid: Seq<char>) -> int {
        choose|k: int| 0 <= k < self.tagruts@.len() && self.tagruts@[k].tname@ == name && self.tagruts@[k].rut_id@ == rid
    }

    /// The position of the star of user `uname` on tag `name`.
    pub open spec fn star_at(&self, uname: Seq<char>, name: Seq<char>) -> int {
        choose|k: int| 0 <= k < self.startags@.len() && self.startags@[k].uname@ == uname && self.startags@[k].tname@ == name
    }

    /// The position of the tag named `name`, if there is one.
    pub fn find_tag(&self, name: &String) -> (r: Option<usize>)
        requires
            unique(tag_names(self.tags@)),
        ensures
            r is Some <==> self.has_tag(name@),
            r matches Some(i) ==> i < self.tags@.len() && self.tags@[i as int].tname@ == name@
                && self.tag_at(name@) == i,
    {
        let mut i: usize = 0;
        while i < self.tags.len()
            invariant
                unique(tag_names(self.tags@)),
                i <= self.tags@.len(),
                forall|k: int| 0 <= k < i ==> self.tags@[k].tname@ != name@,
            decreases self.tags@.len() - i,
        {
            if self.tags[i].tname == *name {
                proof {
                    assert(tag_names(self.tags@)[i as int] == name@);
                    assert(0 <= i < self.tags@.len() && self.tags@[i as int].tname@ == name@);
                    let j = self.tag_at(name@);
                    assert(0 <= j < self.tags@.len() && self.tags@[j].tname@ == name@);
                    if j != i as int {
                        assert(tag_names(self.tags@)[j] == name@);
                    }
                }
                return Some(i);
            }
            i += 1;
        }
        proof {
            assert forall|k: int| 0 <= k < tag_names(self.tags@).len() implies tag_names(self.tags@)[k] != name@ by {
                assert(self.tags@[k].tname@ != name@);
            }
        }
        None
    }

    /// The position of the association of tag `name` with rut `rid`, if any.
    fn find_pair(&self, name: &String, rid: &String) -> (r: Option<usize>)
        requires
            tags_wf(self.tags@, self.tagruts@, self.startags@),
        ensures
            r is Some <==> has_pair(self.tagruts@, name@, rid@),
            r matches Some(k) ==> k < self.tagruts@.len() && self.pair_at(name@, rid@) == k
                && self.tagruts@[k as int].tname@ == name@ && self.tagruts@[k as int].rut_id@ == rid@,
    {
        let mut i: usize = 0;
        while i < self.tagruts.len()
            invariant
                tags_wf(self.tags@, self.tagruts@, self.startags@),
                i <= self.tagruts@.len(),
                forall|k: int| 0 <= k < i ==> !(self.tagruts@[k].tname@ == name@ && self.tagruts@[k].rut_id@ == rid@),
            decreases self.tagruts@.len() - i,
        {
            if self.tagruts[i].tname == *name && self.tagruts[i].rut_id == *rid {
                proof {
                    assert(0 <= i < self.tagruts@.len() && self.tagruts@[i as int].tname@ == name@
                        && self.tagruts@[i as int].rut_id@ == rid@);
                    let j = self.pair_at(name@, rid@);
                    assert(0 <= j < self.tagruts@.len() && self.tagruts@[j].tname@ == name@ && self.tagruts@[j].rut_id@ == rid@);
                    if j != i as int {
                        assert(!same_pair(self.tagruts@[i as int], self.tagruts@[j]));
                    }
                }
                return Some(i);
            }
            i += 1;
        }
        None
    }

    /// The position of the star of user `uname` on tag `name`, if any.
    fn find_star(&self, uname: &String, name: &String) -> (r: Option<usize>)
        requires
            tags_wf(self.tags@, self.tagruts@, self.startags@),
        ensures
            r is Some <==> has_star(self.startags@, uname@, name@),
            r matches Some(k) ==> k < self.startags@.len() && self.star_at(uname@, name@) == k
                && self.startags@[k as int].uname@ == uname@ && self.startags@[k as int].tname@ == name@,
    {
        let mut i: usize = 0;
        while i < self.startags.len()
            invariant
                tags_wf(self.tags@, self.tagruts@, self.startags@),
                i <= self.startags@.len(),
                forall|k: int| 0 <= k < i ==> !(self.startags@[k].uname@ == uname@ && self.startags@[k].tname@ == name@),
            decreases self.startags@.len() - i,
        {
            if self.startags[i].uname == *uname && self.startags[i].tname == *name {
                proof {
                    assert(0 <= i < self.startags@.len() && self.startags@[i as int].uname@ == uname@
                        && self.startags@[i as int].tname@ == name@);
                    let j = self.star_at(uname@, name@);
                    assert(0 <= j < self.startags@.len() && self.startags@[j].uname@ == uname@ && self.startags@[j].tname@ == name@);
                    if j != i as int {
                        assert(!same_star(self.startags@[i as int], self.startags@[j]));
                    }
                }
                return Some(i);
            }
            i += 1;
        }
        None
    }

    /// Number of tags that user `uname` starred.
    pub fn count_user_stars(&self, uname: &String) -> (r: usize)
        ensures
            r == user_stars(self.startags@, uname@),
    {
        let mut i: usize = 0;
        let mut n: usize = 0;
        while i < self.startags.len()
            invariant
                i <= self.startags@.len(),
                n == user_stars(self.startags@.take(i as int), uname@),
                n <= i,
            decreases self.startags@.len() - i,
        {
            proof {
                assert(self.startags@.take(i as int + 1).drop_last() =~= self.startags@.take(i as int));
            }
            if self.startags[i].uname == *uname {
                n += 1;
            }
            i += 1;
        }
        proof {
            assert(self.startags@.take(i as int) =~= self.startags@);
        }
        n
    }

    /// Whether user `uname` starred tag `tname`.
    pub fn star_tag_status(&self, uname: &String, tname: &String) -> (r: bool)
        requires
            self.wf(),
        ensures
            r == has_star(self.startags@, uname@, tname@),
    {
        self.find_star(uname, tname).is_some()
    }

    fn push_pair(&mut self, rut_id: &String, name: &String)
        requires
            tags_wf(old(self).tags@, old(self).tagruts@, old(self).startags@),
            !has_pair(old(self).tagruts@, name@, rut_id@),
        ensures
            pair_added(old(self).tagruts@, final(self).tagruts@, name@, rut_id@),
            forall|i: int, j: int| 0 <= i < final(self).tagruts@.len() && 0 <= j < final(self).tagruts@.len() && i != j
                ==> !same_pair(#[trigger] final(self).tagruts@[i], #[trigger] final(self).tagruts@[j]),
            forall|i: int| 0 <= i < final(self).tagruts@.len() ==> 1 <= (#[trigger] final(self).tagruts@[i]).count,
            final(self).items == old(self).items,
            final(self).ruts == old(self).ruts,
            final(self).collects == old(self).collects,
            final(self).tags == old(self).tags,
            final(self).staritems == old(self).staritems,
            final(self).starruts == old(self).starruts,
            final(self).tagitems == old(self).tagitems,
            final(self).startags == old(self).startags,
    {
        let mut id = name.clone();
        id.append("-");
        id.append(rut_id.as_str());
        let ghost o = self.tagruts@;
        self.tagruts.push(TagRut { id, tname: name.clone(), rut_id: rut_id.clone(), count: 1 });
        proof {
            let n = self.tagruts@;
            assert(n.drop_last() =~= o);
            assert forall|i: int, j: int| 0 <= i < n.len() && 0 <= j < n.len() && i != j
                implies !same_pair(#[trigger] n[i], #[trigger] n[j]) by {
                if i == o.len() {
                    assert(o[j] == n[j]);
                } else if j == o.len() {
                    assert(o[i] == n[i]);
                } else {
                    assert(!same_pair(o[i], o[j]));
                }
            }
            assert forall|i: int| 0 <= i < n.len() implies 1 <= (#[trigger] n[i]).count by {
                if i < o.len() {
                    assert(o[i] == n[i]);
                }
            }
        }
    }

    /// Tags rut `rut_id` with `name` once more.
    ///
    /// An existing association of the two counts one application more.
    /// Otherwise a new association is made with a count of one; an existing
    /// tag counts one rut more and its vote follows, a missing tag is
    /// provisioned with a rut count of one. Fails with `StoreError`, changing
    /// nothing, when a counter would overflow.
    pub fn tag_rut_one(&mut self, rut_id: &String, name: &String) -> (r: Result<(), ServiceError>)
        requires
            old(self).wf(),
        ensures
            final(self).wf(),
            tag_rut_one_post(*old(self), *final(self), *rut_id, *name, r),
    {
        let ghost o = *self;
        match self.find_pair(name, rut_id) {
            Some(k) => {
                let c = self.tagruts[k].count;
                if c == i32::MAX {
                    return Err(ServiceError::StoreError);
                }
                self.tagruts[k].count = c + 1;
                proof {
                    let n = self.tagruts@;
                    assert forall|i: int, j: int| 0 <= i < n.len() && 0 <= j < n.len() && i != j
                        implies !same_pair(#[trigger] n[i], #[trigger] n[j]) by {
                        assert(!same_pair(o.tagruts@[i], o.tagruts@[j]));
                    }
                    assert forall|i: int| 0 <= i < n.len() implies 1 <= (#[trigger] n[i]).count by {
                        assert(1 <= o.tagruts@[i].count);
                    }
                }
                proof {
                    assert(self.tagruts@[k as int].tname@ == name@);
                }
                return Ok(());
            },
            None => {},
        }
        match self.find_tag(name) {
            Some(t) => {
                let rc = self.tags[t].rut_count;
                let sc = self.tags[t].star_count;
                let v = self.tags[t].vote;
                proof {
                    assert(tag_ok(o.tags@[t as int]));
                }
                if v > i32::MAX - 2 {
                    return Err(ServiceError::StoreError);
                }
                self.push_pair(rut_id, name);
                self.tags[t].rut_count = rc + 1;
                self.tags[t].vote = (rc + 1) * 2 + sc;
                proof {
                    let ts = self.tags@;
                    assert(ts == o.tags@.update(t as int, applied(o.tags@[t as int])));
                    assert(tag_names(ts) =~= tag_names(o.tags@));
                    assert forall|i: int| 0 <= i < ts.len() implies tag_ok(#[trigger] ts[i])
                        && ts[i].star_count == star_refs(self.startags@, ts[i].tname@) by {
                        assert(tag_ok(o.tags@[i]));
                    }
                }
            },
            None => {
                self.push_pair(rut_id, name);
                let tag = Tag {
                    id: name.clone(),
                    tname: name.clone(),
                    intro: String::new(),
                    logo: String::new(),
                    pname: String::new(),
                    item_count: 0,
                    rut_count: 1,
                    etc_count: 0,
                    star_count: 0,
                    vote: 2,
                };
                self.tags.push(tag);
                proof {
                    let ts = self.tags@;
                    let ss = self.startags@;
                    assert(ts.drop_last() =~= o.tags@);
                    assert(tag_names(ts) =~= tag_names(o.tags@).push(name@));
                    assert forall|i: int, j: int| 0 <= i < j < tag_names(ts).len() implies
                        #[trigger] tag_names(ts)[i] != #[trigger] tag_names(ts)[j] by {
                        if j == o.tags@.len() {
                            assert(tag_names(o.tags@)[i] == o.tags@[i].tname@);
                        } else {
                            assert(tag_names(o.tags@)[i] != tag_names(o.tags@)[j]);
                        }
                    }
                    lemma_no_stars(ss, o.tags@, name@);
                    assert forall|i: int| 0 <= i < ts.len() implies tag_ok(#[trigger] ts[i])
                        && ts[i].star_count == star_refs(ss, ts[i].tname@) by {
                        if i < o.tags@.len() {
                            assert(ts[i] == o.tags@[i]);
                        }
                    }
                    assert forall|i: int| 0 <= i < ss.len() implies tag_names(ts).contains((#[trigger] ss[i]).tname@) by {
                        assert(tag_names(o.tags@).contains(ss[i].tname@));
                        let k = choose|k: int| 0 <= k < tag_names(o.tags@).len() && tag_names(o.tags@)[k] == ss[i].tname@;
                        assert(tag_names(ts)[k] == ss[i].tname@);
                    }
                }
            },
        }
        proof {
            let last = self.tagruts@.len() - 1;
            assert(self.tagruts@[last].tname@ == name@);
            assert forall|k: int| 0 <= k < o.tagruts@.len() implies same_pair(#[trigger] o.tagruts@[k], self.tagruts@[k]) by {
                assert(self.tagruts@.drop_last()[k] == self.tagruts@[k]);
            }
        }
        Ok(())
    }

    /// Tags rut `rut_id` with each name of `tnames` in turn, as
    /// `tag_rut_one` does; a failure on one name does not stop the others.
    /// The result holds the outcome for each name, in order.
    pub fn tag_rut(&mut self, rut_id: &String, tnames: &Vec<String>) -> (r: Vec<Result<(), ServiceError>>)
        requires
            old(self).wf(),
        ensures
            final(self).wf(),
            r@.len() == tnames@.len(),
            forall|i: int| 0 <= i < r@.len() ==> (#[trigger] r@[i] is Ok) ==> has_pair(final(self).tagruts@, tnames@[i]@, rut_id@),
            forall|i: int| 0 <= i < r@.len() ==> (#[trigger] r@[i] is Err) ==> r@[i] == Err::<(), ServiceError>(ServiceError::StoreError),
            keeps_pairs(old(self).tagruts@, final(self).tagruts@),
            exists|states: Seq<Store>| #[trigger] tag_run(states, *rut_id, tnames@, r@)
                && states[0] == *old(self) && states.last() == *final(self),
            final(self).items == old(self).items,
            final(self).ruts == old(self).ruts,
            final(self).collects == old(self).collects,
            final(self).staritems == old(self).staritems,
            final(self).starruts == old(self).starruts,
            final(self).tagitems == old(self).tagitems,
            final(self).startags == old(self).startags,
    {
        let ghost o = *self;
        let ghost mut states: Seq<Store> = seq![*self];
        let mut out: Vec<Result<(), ServiceError>> = Vec::new();
        let mut i: usize = 0;
        while i < tnames.len()
            invariant
                self.wf(),
                i <= tnames@.len(),
                out@.len() == i,
                forall|k: int| 0 <= k < i ==> (#[trigger] out@[k] is Ok) ==> has_pair(self.tagruts@, tnames@[k]@, rut_id@),
                forall|k: int| 0 <= k < i ==> (#[trigger] out@[k] is Err) ==> out@[k] == Err::<(), ServiceError>(ServiceError::StoreError),
                keeps_pairs(o.tagruts@, self.tagruts@),
                tag_run(states, *rut_id, tnames@.take(i as int), out@),
                states[0] == o,
                states.last() == *self,
                self.items == o.items,
                self.ruts == o.ruts,
                self.collects == o.collects,
                self.staritems == o.staritems,
                self.starruts == o.starruts,
                self.tagitems == o.tagitems,
                self.startags == o.startags,
            decreases tnames@.len() - i,
        {
            let ghost before = self.tagruts@;
            let res = self.tag_rut_one(rut_id, &tnames[i]);
            proof {
                let after = self.tagruts@;
                assert forall|k: int| 0 <= k < i && (#[trigger] out@[k] is Ok) implies has_pair(after, tnames@[k]@, rut_id@) by {
                    let w = choose|w: int| 0 <= w < before.len() && (#[trigger] before[w]).tname@ == tnames@[k]@
                        && before[w].rut_id@ == rut_id@;
                    assert(same_pair(before[w], after[w]));
                }
                assert forall|k: int| 0 <= k < o.tagruts@.len() implies same_pair(#[trigger] o.tagruts@[k], after[k]) by {
                    assert(same_pair(o.tagruts@[k], before[k]));
                    assert(same_pair(before[k], after[k]));
                }
            }
            proof {
                let prev = states;
                states = states.push(*self);
                assert(tnames@.take(i as int + 1) =~= tnames@.take(i as int).push(tnames@[i as int]));
                assert forall|k: int| 0 <= k < i + 1 implies tag_rut_one_post(states[k], states[k + 1], *rut_id,
                    #[trigger] tnames@.take(i as int + 1)[k], out@.push(res)[k]) by {
                    if k < i {
                        assert(states[k] == prev[k]);
                        assert(states[k + 1] == prev[k + 1]);
                        assert(tnames@.take(i as int + 1)[k] == tnames@.take(i as int)[k]);
                    }
                }
            }
            out.push(res);
            i += 1;
        }
        proof {
            assert(tnames@.take(tnames@.len() as int) =~= tnames@);
        }
        out
    }

    /// Whether `name` is among `tnames`.
    fn listed(tnames: &Vec<String>, name: &String) -> (r: bool)
        ensures
            r == name_views(tnames@).contains(name@),
    {
        let mut i: usize = 0;
        while i < tnames.len()
            invariant
                i <= tnames@.len(),
                forall|k: int| 0 <= k < i ==> tnames@[k]@ != name@,
            decreases tnames@.len() - i,
        {
            if tnames[i] == *name {
                proof {
                    assert(name_views(tnames@)[i as int] == name@);
                }
                return true;
            }
            i += 1;
        }
        proof {
            assert forall|k: int| 0 <= k < name_views(tnames@).len() implies name_views(tnames@)[k] != name@ by {
                assert(tnames@[k]@ != name@);
            }
        }
        false
    }

    /// Removes the associations of rut `rut_id` with the tags named in
    /// `tnames`. The tags' counters stay as they are.
    pub fn untag_rut(&mut self, rut_id: &String, tnames: &Vec<String>)
        requires
            old(self).wf(),
        ensures
            final(self).wf(),
            final(self).tagruts@ == old(self).tagruts@.filter(survives(rut_id@, name_views(tnames@))),
            final(self).items == old(self).items,
            final(self).ruts == old(self).ruts,
            final(self).collects == old(self).collects,
            final(self).tags == old(self).tags,
            final(self).staritems == old(self).staritems,
            final(self).starruts == old(self).starruts,
            final(self).tagitems == old(self).tagitems,
            final(self).startags == old(self).startags,
    {
        let ghost pred = survives(rut_id@, name_views(tnames@));
        let ghost old_trs = self.tagruts@;
        let mut kept: Vec<TagRut> = Vec::new();
        let ghost mut pos: Seq<int> = Seq::empty();
        let mut i: usize = 0;
        while i < self.tagruts.len()
            invariant
                self.tagruts@ == old_trs,
                pred == survives(rut_id@, name_views(tnames@)),
                tags_wf(self.tags@, old_trs, self.startags@),
                i <= old_trs.len(),
                kept@ == old_trs.take(i as int).filter(pred),
                pos.len() == kept@.len(),
                forall|a: int| 0 <= a < pos.len() ==> 0 <= #[trigger] pos[a] < i && kept@[a] == old_trs[pos[a]],
                forall|a: int, b: int| 0 <= a < b < pos.len() ==> #[trigger] pos[a] < #[trigger] pos[b],
            decreases old_trs.len() - i,
        {
            proof {
                assert(old_trs.take(i as int + 1) =~= old_trs.take(i as int).push(old_trs[i as int]));
                old_trs.take(i as int).lemma_filter_push(old_trs[i as int], pred);
            }
            let drop = self.tagruts[i].rut_id == *rut_id && Self::listed(tnames, &self.tagruts[i].tname);
            proof {
                assert(drop == untagged(old_trs[i as int], rut_id@, name_views(tnames@)));
                assert(pred(old_trs[i as int]) == !drop);
            }
            if !drop {
                kept.push(self.tagruts[i].duplicate());
                proof {
                    pos = pos.push(i as int);
                }
            }
            i += 1;
        }
        proof {
            assert(old_trs.take(old_trs.len() as int) =~= old_trs);
            let n = kept@;
            assert forall|a: int, b: int| 0 <= a < n.len() && 0 <= b < n.len() && a != b
                implies !same_pair(#[trigger] n[a], #[trigger] n[b]) by {
                if a < b {
                    assert(pos[a] < pos[b]);
                } else {
                    assert(pos[b] < pos[a]);
                }
                assert(!same_pair(old_trs[pos[a]], old_trs[pos[b]]));
            }
            assert forall|a: int| 0 <= a < n.len() implies 1 <= (#[trigger] n[a]).count by {
                assert(1 <= old_trs[pos[a]].count);
            }
        }
        self.tagruts = kept;
    }

    /// Stars tag `tname` for the caller, as star `id` at `now`.
    ///
    /// Fails with `NotFound` when the tag is missing, with `CapacityExceeded`
    /// when the caller already starred `STAR_TAG_CAPACITY` tags, and with
    /// `StoreError` when the tag's vote is at its limit; nothing changes then.
    /// A tag the caller already starred stays as it is. Otherwise the star is
    /// stored, and the tag counts it and its vote follows.
    pub fn star_tag(&mut self, who: &CheckUser, tname: &String, note: String, id: String, now: i64) -> (r: Result<(), ServiceError>)
        requires
            old(self).wf(),
        ensures
            final(self).wf(),
            star_tag_post(*old(self), *final(self), *who, *tname, note, id, now, r),
    {
        let t = match self.find_tag(tname) {
            Some(t) => t,
            None => {
                return Err(ServiceError::NotFound);
            },
        };
        if self.find_star(&who.uname, tname).is_some() {
            return Ok(());
        }
        if self.count_user_stars(&who.uname) >= STAR_TAG_CAPACITY {
            return Err(ServiceError::CapacityExceeded);
        }
        let v = self.tags[t].vote;
        if v == i32::MAX {
            return Err(ServiceError::StoreError);
        }
        let ghost o = *self;
        proof {
            assert(tag_ok(o.tags@[t as int]));
        }
        let sc = self.tags[t].star_count;
        self.startags.push(StarTag { id, uname: who.uname.clone(), tname: tname.clone(), star_at: now, note });
        self.tags[t].star_count = sc + 1;
        self.tags[t].vote = v + 1;
        proof {
            let ts = self.tags@;
            let ss = self.startags@;
            let x = ss.last();
            assert(ss.drop_last() =~= o.startags@);
            assert(ss[ss.len() - 1].uname@ == who.uname@ && ss[ss.len() - 1].tname@ == tname@);
            assert(tag_names(ts) =~= tag_names(o.tags@));
            assert forall|i: int| 0 <= i < ts.len() implies tag_ok(#[trigger] ts[i])
                && ts[i].star_count == star_refs(ss, ts[i].tname@) by {
                assert(tag_ok(o.tags@[i]));
                lemma_star_refs_push(o.startags@, x, o.tags@[i].tname@);
                if i != t as int {
                    assert(tag_names(o.tags@)[i] != tag_names(o.tags@)[t as int]);
                }
            }
            assert forall|i: int| 0 <= i < ss.len() implies tag_names(ts).contains((#[trigger] ss[i]).tname@) by {
                if i < o.startags@.len() {
                    assert(ss[i] == o.startags@[i]);
                } else {
                    assert(tag_names(ts)[t as int] == tname@);
                }
            }
            assert forall|i: int, j: int| 0 <= i < ss.len() && 0 <= j < ss.len() && i != j
                implies !same_star(#[trigger] ss[i], #[trigger] ss[j]) by {
                if i == o.startags@.len() {
                    assert(ss[j] == o.startags@[j]);
                } else if j == o.startags@.len() {
                    assert(ss[i] == o.startags@[i]);
                } else {
                    assert(!same_star(o.startags@[i], o.startags@[j]));
                }
            }
        }
        proof {
            assert(self.tags@ == o.tags@.update(t as int, starred(o.tags@[t as int], 1)));
            assert(self.startags@ == o.startags@.push(StarTag { id, uname: who.uname, tname: *tname, star_at: now, note }));
        }
        Ok(())
    }

    /// Removes the caller's star on tag `tname`; the tag counts one star less
    /// and its vote follows. Fails with `NotFound`, changing nothing, when
    /// the tag is missing; a tag the caller did not star stays as it is.
    pub fn unstar_tag(&mut self, who: &CheckUser, tname: &String) -> (r: Result<(), ServiceError>)
        requires
            old(self).wf(),
        ensures
            final(self).wf(),
            unstar_tag_post(*old(self), *final(self), *who, *tname, r),
    {
        let t = match self.find_tag(tname) {
            Some(t) => t,
            None => {
                proof {
                    if has_star(self.startags@, who.uname@, tname@) {
                        let k = choose|k: int| 0 <= k < self.startags@.len() && (#[trigger] self.startags@[k]).uname@ == who.uname@
                            && self.startags@[k].tname@ == tname@;
                        assert(tag_names(self.tags@).contains(self.startags@[k].tname@));
                    }
                }
                return Err(ServiceError::NotFound);
            },
        };
        let j = match self.find_star(&who.uname, tname) {
            Some(j) => j,
            None => {
                return Ok(());
            },
        };
        let ghost o = *self;
        proof {
            assert(tag_ok(o.tags@[t as int]));
            lemma_star_refs_remove(o.startags@, j as int, tname@);
        }
        let sc = self.tags[t].star_count;
        let v = self.tags[t].vote;
        self.startags.remove(j);
        self.tags[t].star_count = sc - 1;
        self.tags[t].vote = v - 1;
        proof {
            let ts = self.tags@;
            let ss = self.startags@;
            let os = o.startags@;
            assert(tag_names(ts) =~= tag_names(o.tags@));
            assert forall|i: int| 0 <= i < ss.len() implies #[trigger] ss[i] == os[if i < j { i } else { i + 1 }] by {
            }
            assert forall|i: int| 0 <= i < ts.len() implies tag_ok(#[trigger] ts[i])
                && ts[i].star_count == star_refs(ss, ts[i].tname@) by {
                assert(tag_ok(o.tags@[i]));
                lemma_star_refs_remove(os, j as int, o.tags@[i].tname@);
                if i != t as int {
                    assert(tag_names(o.tags@)[i] != tag_names(o.tags@)[t as int]);
                }
            }
            assert forall|i: int| 0 <= i < ss.len() implies tag_names(ts).contains((#[trigger] ss[i]).tname@) by {
                let k = if i < j { i } else { i + 1 };
                assert(tag_names(o.tags@).contains(os[k].tname@));
            }
            assert forall|a: int, b: int| 0 <= a < ss.len() && 0 <= b < ss.len() && a != b
                implies !same_star(#[trigger] ss[a], #[trigger] ss[b]) by {
                let ka = if a < j { a } else { a + 1 };
                let kb = if b < j { b } else { b + 1 };
                assert(!same_star(os[ka], os[kb]));
            }
            if has_star(ss, who.uname@, tname@) {
                let a = choose|a: int| 0 <= a < ss.len() && (#[trigger] ss[a]).uname@ == who.uname@ && ss[a].tname@ == tname@;
                let ka = if a < j { a } else { a + 1 };
                assert(!same_star(os[ka], os[j as int]));
            }
        }
        proof {
            assert(self.tags@ == o.tags@.update(t as int, starred(o.tags@[t as int], -1)));
        }
        Ok(())
    }

    /// Stars (`act.action` 1) or unstars (`act.action` 0) a tag for the
    /// caller; any other action fails with `BadInput`, changing nothing.
    pub fn star_or_tag(&mut self, who: &CheckUser, act: StarOrTag, id: String, now: i64) -> (r: Result<(), ServiceError>)
        requires
            old(self).wf(),
        ensures
            act.action == 0 ==> unstar_tag_post(*old(self), *final(self), *who, act.tname, r),
            act.action == 1 ==> star_tag_post(*old(self), *final(self), *who, act.tname, act.note, id, now, r),
            final(self).wf(),
            r is Err ==> *final(self) == *old(self),
            act.action != 0 && act.action != 1 <==> r == Err::<(), ServiceError>(ServiceError::BadInput),
            (act.action == 0 || act.action == 1) && !old(self).has_tag(act.tname@)
                <==> r == Err::<(), ServiceError>(ServiceError::NotFound),
            act.action == 1 && r is Ok ==> has_star(final(self).startags@, who.uname@, act.tname@),
            act.action == 0 && r is Ok ==> !has_star(final(self).startags@, who.uname@, act.tname@),
    {
        if act.action == 1 {
            self.star_tag(who, &act.tname, act.note, id, now)
        } else if act.action == 0 {
            self.unstar_tag(who, &act.tname)
        } else {
            Err(ServiceError::BadInput)
        }
    }

    /// The tag named `name`.
    pub fn get_tag(&self, name: &String) -> (r: Result<Tag, ServiceError>)
        requires
            self.wf(),
        ensures
            r is Err ==> r == Err::<Tag, ServiceError>(ServiceError::NotFound),
            !self.has_tag(name@) <==> r == Err::<Tag, ServiceError>(ServiceError::NotFound),
            r matches Ok(t) ==> t == self.tags@[self.tag_at(name@)],
    {
        match self.find_tag(name) {
            Some(t) => Ok(self.tags[t].duplicate()),
            None => Err(ServiceError::NotFound),
        }
    }

    /// Creates the tag `name`, blank and with zero counters. Fails with
    /// `StoreError`, changing nothing, when the name is taken.
    pub fn new_tag(&mut self, name: &String) -> (r: Result<Tag, ServiceError>)
        requires
            old(self).wf(),
        ensures
            final(self).wf(),
            new_tag_post(*old(self), *final(self), *name, r),
    {
        if self.find_tag(name).is_some() {
            return Err(ServiceError::StoreError);
        }
        let ghost o = *self;
        let tag = Tag {
            id: name.clone(),
            tname: name.clone(),
            intro: String::new(),
            logo: String::new(),
            pname: String::new(),
            item_count: 0,
            rut_count: 0,
            etc_count: 0,
            star_count: 0,
            vote: 0,
        };
        let out = tag.duplicate();
        self.tags.push(tag);
        proof {
            let ts = self.tags@;
            let ss = self.startags@;
            assert(tag_names(ts) =~= tag_names(o.tags@).push(name@));
            assert forall|i: int, j: int| 0 <= i < j < tag_names(ts).len() implies
                #[trigger] tag_names(ts)[i] != #[trigger] tag_names(ts)[j] by {
                if j == o.tags@.len() {
                    assert(tag_names(o.tags@)[i] == o.tags@[i].tname@);
                } else {
                    assert(tag_names(o.tags@)[i] != tag_names(o.tags@)[j]);
                }
            }
            lemma_no_stars(ss, o.tags@, name@);
            assert forall|i: int| 0 <= i < ts.len() implies tag_ok(#[trigger] ts[i])
                && ts[i].star_count == star_refs(ss, ts[i].tname@) by {
                if i < o.tags@.len() {
                    assert(ts[i] == o.tags@[i]);
                }
            }
            assert forall|i: int| 0 <= i < ss.len() implies tag_names(ts).contains((#[trigger] ss[i]).tname@) by {
                assert(tag_names(o.tags@).contains(ss[i].tname@));
                let k = choose|k: int| 0 <= k < tag_names(o.tags@).len() && tag_names(o.tags@)[k] == ss[i].tname@;
                assert(tag_names(ts)[k] == ss[i].tname@);
            }
        }
        Ok(out)
    }

    /// Creates the tag `ct.tname` when `ct.action` is `POST`, and reads it
    /// otherwise.
    pub fn check_tag(&mut self, ct: &CheckTag) -> (r: Result<Tag, ServiceError>)
        requires
            old(self).wf(),
        ensures
            r is Err ==> r == (if ct.action@ == "POST"@ { Err::<Tag, ServiceError>(ServiceError::StoreError) } else { Err::<Tag, ServiceError>(ServiceError::NotFound) }),
            final(self).wf(),
            ct.action@ != "POST"@ ==> *final(self) == *old(self),
            ct.action@ != "POST"@ ==> (!old(self).has_tag(ct.tname@) <==> r == Err::<Tag, ServiceError>(ServiceError::NotFound)),
            ct.action@ != "POST"@ ==> (r matches Ok(t) ==> t == old(self).tags@[old(self).tag_at(ct.tname@)]),
            ct.action@ == "POST"@ ==> (old(self).has_tag(ct.tname@) <==> r == Err::<Tag, ServiceError>(ServiceError::StoreError)),
            ct.action@ == "POST"@ ==> (r matches Ok(t) ==> t.tname == ct.tname && final(self).tags@ == old(self).tags@.push(t)),
    {
        if crate::query::is_word(ct.action.as_str(), "POST") {
            self.new_tag(&ct.tname)
        } else {
            self.get_tag(&ct.tname)
        }
    }

    /// Replaces the intro, logo and parent name of tag `up.tname`, keeping its
    /// counters. Fails with `NotFound`, changing nothing, when it is missing.
    pub fn update_tag(&mut self, up: UpdateTag) -> (r: Result<Tag, ServiceError>)
        requires
            old(self).wf(),
        ensures
            final(self).wf(),
            update_tag_post(*old(self), *final(self), up, r),
    {
        let k = match self.find_tag(&up.tname) {
            Some(k) => k,
            None => {
                return Err(ServiceError::NotFound);
            },
        };
        let ghost o = *self;
        self.tags[k].intro = up.intro;
        self.tags[k].logo = up.logo;
        self.tags[k].pname = up.pname;
        proof {
            let ts = self.tags@;
            assert(tag_names(ts) =~= tag_names(o.tags@));
            assert forall|i: int| 0 <= i < ts.len() implies tag_ok(#[trigger] ts[i])
                && ts[i].star_count == star_refs(self.startags@, ts[i].tname@) by {
                assert(tag_ok(o.tags@[i]));
            }
        }
        proof {
            assert(self.tags@ == o.tags@.update(k as int, Tag { intro: up.intro, logo: up.logo, pname: up.pname, ..o.tags@[k as int] }));
        }
        Ok(self.tags[k].duplicate())
    }
}

} // verus!
