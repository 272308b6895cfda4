//! Creating items and ruts: input validation, the uniqueness of an item's
//! external id and url, and fresh keys.

use vstd::prelude::*;
use crate::auth::CheckUser;
use crate::error::ServiceError;
use crate::model::{Item, NewItem, Rut, CreateRut, UpdateItem, UpdateRut, fresh_item, edited, rut_edited};
use crate::store::{Store, item_ids, rut_ids, dense, item_refs, non_blank, clash, rut_star_refs};
use crate::validate::{test_len_limit, trimmed_len, TITLE_LEN, URL_LEN, UIID_LEN, ST_LEN};

verus! {

/// Longest title, url and author intro of a rut, in bytes.
pub const RUT_FIELD_LEN: usize = 120;

/// Whether a search passes over position `k`.
pub open spec fn skips(skip: Option<usize>, k: int) -> bool {
    match skip {
        Some(s) => s as int == k,
        None => false,
    }
}

/// What submitting an item did.
#[derive(Debug, Clone, PartialEq, Eq)]
pub enum Submitted {
    /// The item was stored.
    Created(Item),
    /// An item with the same external id or url was already there.
    Existing(Item),
}

impl NewItem {
    /// The submitted fields are within their bounds.
    pub open spec fn validate_spec(&self) -> bool {
        1 <= trimmed_len(self.title@) <= TITLE_LEN && trimmed_len(self.uiid@) <= UIID_LEN
            && trimmed_len(self.url@) <= URL_LEN && trimmed_len(self.category@) <= ST_LEN
    }

    /// Whether the submitted fields are within their bounds: a title of 1 to
    /// `TITLE_LEN` bytes, an external id of at most `UIID_LEN`, a url of at
    /// most `URL_LEN` and a category of at most `ST_LEN`, all trimmed.
    pub fn validate(&self) -> (r: bool)
        ensures
            r == self.validate_spec(),
    {
        test_len_limit(&self.title, 1, TITLE_LEN) && test_len_limit(&self.uiid, 0, UIID_LEN)
            && test_len_limit(&self.url, 0, URL_LEN) && test_len_limit(&self.category, 0, ST_LEN)
    }
}

impl UpdateItem {
    /// The fields are within the bounds of a submitted item.
    pub open spec fn validate_spec(&self) -> bool {
        1 <= trimmed_len(self.title@) <= TITLE_LEN && trimmed_len(self.uiid@) <= UIID_LEN
            && trimmed_len(self.url@) <= URL_LEN && trimmed_len(self.category@) <= ST_LEN
    }

    /// Whether the fields are within the bounds of a submitted item.
    pub fn validate(&self) -> (r: bool)
        ensures
            r == self.validate_spec(),
    {
        test_len_limit(&self.title, 1, TITLE_LEN) && test_len_limit(&self.uiid, 0, UIID_LEN)
            && test_len_limit(&self.url, 0, URL_LEN) && test_len_limit(&self.category, 0, ST_LEN)
    }
}

impl UpdateRut {
    /// The fields are within the bounds of a new rut.
    pub open spec fn validate_spec(&self) -> bool {
        1 <= trimmed_len(self.title@) <= RUT_FIELD_LEN && trimmed_len(self.url@) <= RUT_FIELD_LEN
            && trimmed_len(self.user_intro@) <= RUT_FIELD_LEN
    }

    /// Whether the fields are within the bounds of a new rut.
    pub fn validate(&self) -> (r: bool)
        ensures
            r == self.validate_spec(),
    {
        test_len_limit(&self.title, 1, RUT_FIELD_LEN) && test_len_limit(&self.url, 0, RUT_FIELD_LEN)
            && test_len_limit(&self.user_intro, 0, RUT_FIELD_LEN)
    }
}

impl CreateRut {
    /// The fields are within their bounds.
    pub open spec fn validate_spec(&self) -> bool {
        1 <= trimmed_len(self.title@) <= RUT_FIELD_LEN && trimmed_len(self.url@) <= RUT_FIELD_LEN
            && trimmed_len(self.user_intro@) <= RUT_FIELD_LEN
    }

    /// Whether the fields are within their bounds: a title of 1 to
    /// `RUT_FIELD_LEN` bytes, a url and an intro of at most `RUT_FIELD_LEN`,
    /// all trimmed.
    pub fn validate(&self) -> (r: bool)
        ensures
            r == self.validate_spec(),
    {
        test_len_limit(&self.title, 1, RUT_FIELD_LEN) && test_len_limit(&self.url, 0, RUT_FIELD_LEN)
            && test_len_limit(&self.user_intro, 0, RUT_FIELD_LEN)
    }
}

fn is_blank(s: &String) -> (r: bool)
    ensures
        r == !non_blank(s@),
{
    crate::outside::trim_str(s.as_str()).unicode_len() == 0
}

/// What `Store::submit_item` promises: each failure and exactly when it comes, no other failure, and
/// the store `post` after the call in terms of the store `pre` before it.
pub open spec fn submit_item_post(pre: Store, post: Store, submit: NewItem, uid: String, r: Result<Submitted, ServiceError>) -> bool {
    &&& (!(r matches Ok(Submitted::Created(_))) ==> post == pre)
    &&& (!submit.validate_spec() <==> r == Err::<Submitted, ServiceError>(ServiceError::BadInput))
    &&& (r matches Ok(Submitted::Existing(it)) <==> submit.validate_spec()
            && exists|k: int| 0 <= k < pre.items@.len() && clash(fresh_item(uid, submit), #[trigger] pre.items@[k]))
    &&& (r matches Ok(Submitted::Existing(it)) ==> exists|k: int| 0 <= k < pre.items@.len()
            && it == pre.items@[k] && clash(fresh_item(uid, submit), #[trigger] pre.items@[k]))
    &&& (r == Err::<Submitted, ServiceError>(ServiceError::StoreError) <==> submit.validate_spec()
            && (forall|k: int| 0 <= k < pre.items@.len() ==> !clash(fresh_item(uid, submit), #[trigger] pre.items@[k]))
            && pre.has_item(uid@))
    &&& (r matches Ok(Submitted::Created(it)) ==> {
            &&& it == fresh_item(uid, submit)
            &&& post.items@ == pre.items@.push(it)
            &&& post.ruts == pre.ruts
            &&& post.collects == pre.collects
            &&& post.tags == pre.tags
            &&& post.tagruts == pre.tagruts
            &&& post.staritems == pre.staritems
            &&& post.starruts == pre.starruts
            &&& post.tagitems == pre.tagitems
            &&& post.startags == pre.startags
        })
    &&& (r is Err ==> r == Err::<Submitted, ServiceError>(ServiceError::BadInput) || r == Err::<Submitted, ServiceError>(ServiceError::StoreError))
}

/// What `Store::new_rut` promises: each failure and exactly when it comes, no other failure, and
/// the store `post` after the call in terms of the store `pre` before it.
pub open spec fn new_rut_post(pre: Store, post: Store, who: CheckUser, c: CreateRut, uid: String, now: i64, r: Result<Rut, ServiceError>) -> bool {
    &&& (r is Err ==> post == pre)
    &&& (!c.validate_spec() <==> r == Err::<Rut, ServiceError>(ServiceError::BadInput))
    &&& ((c.validate_spec() && pre.has_rut(uid@)) <==> r == Err::<Rut, ServiceError>(ServiceError::StoreError))
    &&& (r matches Ok(rut) ==> {
            &&& rut.id == uid
            &&& rut.title == c.title
            &&& rut.url == c.url
            &&& rut.content == c.content
            &&& rut.user_id == who.id
            &&& rut.user_intro == c.user_intro
            &&& rut.logo@.len() == 0
            &&& rut.create_at == now
            &&& rut.renew_at == now
            &&& rut.item_count == 0
            &&& rut.comment_count == 0
            &&& rut.star_count == 0
            &&& post.ruts@ == pre.ruts@.push(rut)
            &&& post.items == pre.items
            &&& post.collects == pre.collects
            &&& post.tags == pre.tags
            &&& post.tagruts == pre.tagruts
            &&& post.staritems == pre.staritems
            &&& post.starruts == pre.starruts
            &&& post.tagitems == pre.tagitems
            &&& post.startags == pre.startags
        })
    &&& (r is Err ==> r == Err::<Rut, ServiceError>(ServiceError::BadInput) || r == Err::<Rut, ServiceError>(ServiceError::StoreError))
}

/// What `Store::update_item` promises: each failure and exactly when it comes, no other failure, and
/// the store `post` after the call in terms of the store `pre` before it.
pub open spec fn update_item_post(pre: Store, post: Store, up: UpdateItem, r: Result<Item, ServiceError>) -> bool {
    &&& (r is Err ==> post == pre)
    &&& (!pre.has_item(up.id@) <==> r == Err::<Item, ServiceError>(ServiceError::NotFound))
    &&& ((pre.has_item(up.id@) && !up.validate_spec()) <==> r == Err::<Item, ServiceError>(ServiceError::BadInput))
    &&& ((pre.has_item(up.id@) && up.validate_spec() && exists|k: int| 0 <= k < pre.items@.len()
            && k != pre.item_at(up.id@)
            && clash(edited(pre.items@[pre.item_at(up.id@)], up), #[trigger] pre.items@[k]))
            <==> r == Err::<Item, ServiceError>(ServiceError::StoreError))
    &&& (r matches Ok(it) ==> {
            let ii = pre.item_at(up.id@);
            &&& it == edited(pre.items@[ii], up)
            &&& post.items@ == pre.items@.update(ii, it)
            &&& post.ruts == pre.ruts
            &&& post.collects == pre.collects
            &&& post.tags == pre.tags
            &&& post.tagruts == pre.tagruts
            &&& post.staritems == pre.staritems
            &&& post.starruts == pre.starruts
            &&& post.tagitems == pre.tagitems
            &&& post.startags == pre.startags
        })
    &&& (r is Err ==> r == Err::<Item, ServiceError>(ServiceError::NotFound) || r == Err::<Item, ServiceError>(ServiceError::BadInput) || r == Err::<Item, ServiceError>(ServiceError::StoreError))
}

/// What `Store::update_rut` promises: each failure and exactly when it comes, no other failure, and
/// the store `post` after the call in terms of the store `pre` before it.
pub open spec fn update_rut_post(pre: Store, post: Store, who: CheckUser, up: UpdateRut, now: i64, r: Result<Rut, ServiceError>) -> bool {
    &&& (r is Err ==> post == pre)
    &&& (!pre.has_rut(up.id@) <==> r == Err::<Rut, ServiceError>(ServiceError::NotFound))
    &&& ((pre.has_rut(up.id@) && pre.ruts@[pre.rut_at(up.id@)].user_id@ != who.id@)
            <==> r == Err::<Rut, ServiceError>(ServiceError::Unauthorized))
    &&& ((pre.has_rut(up.id@) && pre.ruts@[pre.rut_at(up.id@)].user_id@ == who.id@
            && !up.validate_spec()) <==> r == Err::<Rut, ServiceError>(ServiceError::BadInput))
    &&& (r matches Ok(rut) ==> {
            let ri = pre.rut_at(up.id@);
            &&& rut == rut_edited(pre.ruts@[ri], up, now)
            &&& post.ruts@ == pre.ruts@.update(ri, rut)
            &&& post.items == pre.items
            &&& post.collects == pre.collects
            &&& post.tags == pre.tags
            &&& post.tagruts == pre.tagruts
            &&& post.staritems == pre.staritems
            &&& post.startags == pre.startags
            &&& post.starruts == pre.starruts
            &&& post.tagitems == pre.tagitems
        })
    &&& (r is Err ==> r == Err::<Rut, ServiceError>(ServiceError::NotFound) || r == Err::<Rut, ServiceError>(ServiceError::Unauthorized) || r == Err::<Rut, ServiceError>(ServiceError::BadInput))
}

impl Store {
    /// The position of the first item but the one at `skip` that clashes
    /// with `it`, if any.
    fn find_clash(&self, it: &Item, skip: Option<usize>) -> (r: Option<usize>)
        ensures
            r matches Some(k) ==> k < self.items@.len() && clash(*it, self.items@[k as int]) && !skips(skip, k as int),
            r is None ==> forall|k: int| 0 <= k < self.items@.len() && !skips(skip, k)
                ==> !clash(*it, #[trigger] self.items@[k]),
    {
        let uiid_set = !is_blank(&it.uiid);
        let url_set = !is_blank(&it.url);
        let mut i: usize = 0;
        while i < self.items.len()
            invariant
                i <= self.items@.len(),
                uiid_set == non_blank(it.uiid@),
                url_set == non_blank(it.url@),
                forall|k: int| 0 <= k < i && !skips(skip, k) ==> !clash(*it, #[trigger] self.items@[k]),
            decreases self.items@.len() - i,
        {
            let skipped = match skip {
                Some(s) => s == i,
                None => false,
            };
            if !skipped && ((uiid_set && self.items[i].uiid == it.uiid) || (url_set && self.items[i].url == it.url)) {
                return Some(i);
            }
            i += 1;
        }
        None
    }

    /// Stores a submitted item under the fresh id `uid`, unless an item with
    /// the same non-blank external id or url exists, which is returned instead.
    ///
    /// Fails with `BadInput` when the fields are out of bounds and with
    /// `StoreError` when `uid` is taken; nothing changes then.
    pub fn submit_item(&mut self, submit: NewItem, uid: String) -> (r: Result<Submitted, ServiceError>)
        requires
            old(self).wf(),
        ensures
            final(self).wf(),
            submit_item_post(*old(self), *final(self), submit, uid, r),
    {
        if !submit.validate() {
            return Err(ServiceError::BadInput);
        }
        let item = Item::new(uid, submit);
        match self.find_clash(&item, None) {
            Some(k) => {
                return Ok(Submitted::Existing(self.items[k].duplicate()));
            },
            None => {},
        }
        if self.find_item(&item.id).is_some() {
            return Err(ServiceError::StoreError);
        }
        let ghost o = *self;
        let out = item.duplicate();
        self.items.push(item);
        proof {
            let its = self.items@;
            assert(item_ids(its) =~= item_ids(o.items@).push(out.id@));
            assert forall|i: int, j: int| 0 <= i < j < item_ids(its).len() implies
                #[trigger] item_ids(its)[i] != #[trigger] item_ids(its)[j] by {
                if j == o.items@.len() {
                    assert(item_ids(o.items@)[i] == o.items@[i].id@);
                } else {
                    assert(item_ids(o.items@)[i] != item_ids(o.items@)[j]);
                }
            }
            assert forall|i: int, j: int| 0 <= i < its.len() && 0 <= j < its.len() && i != j implies
                !clash(#[trigger] its[i], #[trigger] its[j]) by {
                if j == o.items@.len() {
                    assert(!clash(out, o.items@[i]));
                } else if i == o.items@.len() {
                    assert(!clash(out, o.items@[j]));
                } else {
                    assert(!clash(o.items@[i], o.items@[j]));
                }
            }
            assert forall|i: int| 0 <= i < o.collects@.len() implies item_ids(its).contains(#[trigger] o.collects@[i].item_id@) by {
                assert(item_ids(o.items@).contains(o.collects@[i].item_id@));
                let k = choose|k: int| 0 <= k < item_ids(o.items@).len() && item_ids(o.items@)[k] == o.collects@[i].item_id@;
                assert(item_ids(its)[k] == o.collects@[i].item_id@);
            }
            assert forall|i: int| 0 <= i < its.len() implies #[trigger] its[i].rut_count == item_refs(o.collects@, its[i].id@) by {
                if i == o.items@.len() {
                    lemma_no_refs(o.collects@, o.items@, out.id@);
                } else {
                    assert(o.items@[i].rut_count == item_refs(o.collects@, o.items@[i].id@));
                }
            }
        }
        Ok(Submitted::Created(out))
    }

    /// Creates the caller's rut under the fresh id `uid`, empty, created and
    /// renewed at `now`.
    ///
    /// Fails with `BadInput` when the fields are out of bounds and with
    /// `StoreError` when `uid` is taken; nothing changes then.
    pub fn new_rut(&mut self, who: &CheckUser, c: CreateRut, uid: String, now: i64) -> (r: Result<Rut, ServiceError>)
        requires
            old(self).wf(),
        ensures
            final(self).wf(),
            new_rut_post(*old(self), *final(self), *who, c, uid, now, r),
    {
        if !c.validate() {
            return Err(ServiceError::BadInput);
        }
        if self.find_rut(&uid).is_some() {
            return Err(ServiceError::StoreError);
        }
        let ghost o = *self;
        let rut = Rut {
            id: uid,
            title: c.title,
            url: c.url,
            content: c.content,
            create_at: now,
            user_id: who.id.clone(),
            user_intro: c.user_intro,
            logo: String::new(),
            item_count: 0,
            comment_count: 0,
            star_count: 0,
            renew_at: now,
        };
        let out = rut.duplicate();
        self.ruts.push(rut);
        proof {
            let rs = self.ruts@;
            let cs = o.collects@;
            assert(rut_ids(rs) =~= rut_ids(o.ruts@).push(out.id@));
            assert forall|i: int, j: int| 0 <= i < j < rut_ids(rs).len() implies
                #[trigger] rut_ids(rs)[i] != #[trigger] rut_ids(rs)[j] by {
                if j == o.ruts@.len() {
                    assert(rut_ids(o.ruts@)[i] == o.ruts@[i].id@);
                } else {
                    assert(rut_ids(o.ruts@)[i] != rut_ids(o.ruts@)[j]);
                }
            }
            assert forall|i: int| 0 <= i < cs.len() implies rut_ids(rs).contains((#[trigger] cs[i]).rut_id@)
                && cs[i].rut_id@ != out.id@ by {
                assert(rut_ids(o.ruts@).contains(cs[i].rut_id@));
                let k = choose|k: int| 0 <= k < rut_ids(o.ruts@).len() && rut_ids(o.ruts@)[k] == cs[i].rut_id@;
                assert(rut_ids(rs)[k] == cs[i].rut_id@);
            }
            let srs = o.starruts@;
            lemma_no_rut_stars(srs, o.ruts@, out.id@);
            assert forall|r: int| 0 <= r < rs.len() implies (#[trigger] rs[r]).star_count == rut_star_refs(srs, rs[r].id@) by {
                if r < o.ruts@.len() {
                    assert(rs[r] == o.ruts@[r]);
                }
            }
            assert forall|i: int| 0 <= i < srs.len() implies rut_ids(rs).contains((#[trigger] srs[i]).rut_id@) by {
                assert(rut_ids(o.ruts@).contains(srs[i].rut_id@));
                let k = choose|k: int| 0 <= k < rut_ids(o.ruts@).len() && rut_ids(o.ruts@)[k] == srs[i].rut_id@;
                assert(rut_ids(rs)[k] == srs[i].rut_id@);
            }
            assert forall|r: int| 0 <= r < rs.len() implies 0 <= #[trigger] rs[r].item_count <= crate::store::RUT_CAPACITY
                && dense(cs, rs[r].id@, rs[r].item_count as int) by {
                if r < o.ruts@.len() {
                    assert(rs[r] == o.ruts@[r]);
                } else {
                    assert(rs[r] == out);
                    assert forall|i: int| 0 <= i < cs.len() implies #[trigger] cs[i].rut_id@ != out.id@ by {
                        assert(cs[i].rut_id@ != out.id@);
                    }
                }
            }
        }
        Ok(out)
    }

    /// Replaces the editable fields of item `up.id`, keeping its counters.
    ///
    /// Fails with `NotFound` when the item is missing, with `BadInput` when
    /// the fields are out of bounds, and with `StoreError` when another item
    /// holds the new non-blank external id or url; nothing changes then.
    pub fn update_item(&mut self, up: UpdateItem) -> (r: Result<Item, ServiceError>)
        requires
            old(self).wf(),
        ensures
            final(self).wf(),
            update_item_post(*old(self), *final(self), up, r),
    {
        let ii = match self.find_item(&up.id) {
            Some(i) => i,
            None => {
                return Err(ServiceError::NotFound);
            },
        };
        proof {
            let j = self.item_at(up.id@);
            assert(item_ids(self.items@)[ii as int] == up.id@);
            if j != ii as int {
                assert(item_ids(self.items@)[j] == up.id@);
            }
        }
        if !up.validate() {
            return Err(ServiceError::BadInput);
        }
        let old_it = &self.items[ii];
        let it = Item {
            id: old_it.id.clone(),
            title: up.title,
            uiid: up.uiid,
            authors: up.authors,
            pub_at: up.pub_at,
            publisher: up.publisher,
            category: up.category,
            url: up.url,
            cover: up.cover,
            edition: up.edition,
            detail: up.detail,
            rut_count: old_it.rut_count,
            etc_count: old_it.etc_count,
            done_count: old_it.done_count,
            vote: old_it.vote,
        };
        match self.find_clash(&it, Some(ii)) {
            Some(_) => {
                return Err(ServiceError::StoreError);
            },
            None => {},
        }
        let ghost o = *self;
        proof {
            assert forall|k: int| 0 <= k < o.items@.len() && k != ii as int implies !clash(it, #[trigger] o.items@[k]) by {
                assert(!skips(Some(ii), k));
            }
        }
        let out = it.duplicate();
        self.items.set(ii, it);
        proof {
            let its = self.items@;
            assert(item_ids(its) =~= item_ids(o.items@));
            assert forall|a: int, b: int| 0 <= a < its.len() && 0 <= b < its.len() && a != b implies
                !clash(#[trigger] its[a], #[trigger] its[b]) by {
                if a == ii as int {
                    assert(!clash(out, o.items@[b]));
                } else if b == ii as int {
                    assert(!clash(out, o.items@[a]));
                } else {
                    assert(!clash(o.items@[a], o.items@[b]));
                }
            }
            assert forall|i: int| 0 <= i < its.len() implies #[trigger] its[i].rut_count == item_refs(o.collects@, its[i].id@) by {
                assert(o.items@[i].rut_count == item_refs(o.collects@, o.items@[i].id@));
            }
            assert forall|i: int| 0 <= i < o.collects@.len() implies item_ids(its).contains((#[trigger] o.collects@[i]).item_id@) by {
                assert(item_ids(o.items@).contains(o.collects@[i].item_id@));
            }
        }
        Ok(out)
    }

    /// Replaces the editable fields of the caller's rut `up.id` and renews it
    /// at `now`.
    ///
    /// Fails with `NotFound` when the rut is missing, with `Unauthorized`
    /// when the caller is not its author, and with `BadInput` when the fields
    /// are out of bounds; nothing changes then.
    pub fn update_rut(&mut self, who: &CheckUser, up: UpdateRut, now: i64) -> (r: Result<Rut, ServiceError>)
        requires
            old(self).wf(),
        ensures
            final(self).wf(),
            update_rut_post(*old(self), *final(self), *who, up, now, r),
    {
        let ri = match self.find_rut(&up.id) {
            Some(i) => i,
            None => {
                return Err(ServiceError::NotFound);
            },
        };
        proof {
            let j = self.rut_at(up.id@);
            assert(rut_ids(self.ruts@)[ri as int] == up.id@);
            if j != ri as int {
                assert(rut_ids(self.ruts@)[j] == up.id@);
            }
        }
        if self.ruts[ri].user_id != who.id {
            return Err(ServiceError::Unauthorized);
        }
        if !up.validate() {
            return Err(ServiceError::BadInput);
        }
        let ghost o = *self;
        self.ruts[ri].title = up.title;
        self.ruts[ri].url = up.url;
        self.ruts[ri].content = up.content;
        self.ruts[ri].user_intro = up.user_intro;
        self.ruts[ri].renew_at = now;
        proof {
            let rs = self.ruts@;
            assert(rut_ids(rs) =~= rut_ids(o.ruts@));
            assert forall|r: int| 0 <= r < rs.len() implies (#[trigger] rs[r]).star_count == rut_star_refs(o.starruts@, rs[r].id@)
                && 0 <= rs[r].item_count <= crate::store::RUT_CAPACITY
                && dense(o.collects@, rs[r].id@, rs[r].item_count as int) by {
                assert(o.ruts@[r].star_count == rut_star_refs(o.starruts@, o.ruts@[r].id@));
                assert(0 <= o.ruts@[r].item_count <= crate::store::RUT_CAPACITY);
            }
        }
        proof {
            assert(self.ruts@ == o.ruts@.update(ri as int, rut_edited(o.ruts@[ri as int], up, now)));
        }
        Ok(self.ruts[ri].duplicate())
    }
}

/// An id that no rut holds carries no star.
proof fn lemma_no_rut_stars(ss: Seq<crate::model::StarRut>, ruts: Seq<Rut>, id: Seq<char>)
    requires
        !rut_ids(ruts).contains(id),
        forall|i: int| 0 <= i < ss.len() ==> rut_ids(ruts).contains((#[trigger] ss[i]).rut_id@),
    ensures
        rut_star_refs(ss, id) == 0,
    decreases ss.len(),
{
    if ss.len() > 0 {
        assert(rut_ids(ruts).contains(ss[ss.len() - 1].rut_id@));
        lemma_no_rut_stars(ss.drop_last(), ruts, id);
    }
}

/// An id that no item holds is referenced by no collect.
proof fn lemma_no_refs(cs: Seq<crate::model::Collect>, items: Seq<Item>, id: Seq<char>)
    requires
        !item_ids(items).contains(id),
        forall|i: int| 0 <= i < cs.len() ==> item_ids(items).contains(#[trigger] cs[i].item_id@),
    ensures
        item_refs(cs, id) == 0,
    decreases cs.len(),
{
    if cs.len() > 0 {
        assert(item_ids(items).contains(cs[cs.len() - 1].item_id@));
        lemma_no_refs(cs.drop_last(), items, id);
    }
}

} // verus!
