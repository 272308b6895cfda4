//! Request handlers: each authenticates the caller where the operation
//! mutates, draws a fresh id and the time, and runs the operation.

use vstd::prelude::*;
use crate::auth::{Claims, CheckUser, authenticate};
use crate::catalog::{Submitted, submit_item_post, new_rut_post, update_item_post, update_rut_post};
use crate::collect::{collect_post, uncollect_post, update_collect_post};
use crate::error::ServiceError;
use crate::model::{Item, UpdateItem, UpdateRut, StarOrRut, CollectIDs, RutListType, NewItem, Collect, CollectItem, UpdateCollect, DelCollect, CreateRut, Rut, NewStarItem, StarItem, StarOrTag, RutTag};
use crate::outside::{new_id, now_seconds};
use crate::itemquery::{items_selected, count_selected};
use crate::query::{ItemsPerID, items_selector, built_selector, selector_pattern, built_collects_selector};
use crate::rutstar::{star_rut_post, unstar_rut_post};
use crate::star::{star_item_post, has_mark};
use crate::store::Store;
use crate::tag::{star_tag_post, unstar_tag_post, tag_run, survives, name_views};

verus! {

/// The caller that valid claims name.
pub open spec fn caller_of(c: Claims) -> CheckUser {
    CheckUser { id: c.uid, uname: c.uname }
}

/// The caller that the claims name, at the time now.
fn caller(claims: Option<Claims>) -> (r: Result<CheckUser, ServiceError>)
    ensures
        claims is None ==> r == Err::<CheckUser, ServiceError>(ServiceError::Unauthenticated),
        r is Err ==> r == Err::<CheckUser, ServiceError>(ServiceError::Unauthenticated),
        r matches Ok(u) ==> claims matches Some(c) && u == caller_of(c),
{
    authenticate(claims, now_seconds())
}

/// Submits an item for an authenticated caller, under a fresh id.
pub fn new(store: &mut Store, claims: Option<Claims>, item: NewItem) -> (r: Result<Submitted, ServiceError>)
    requires
        old(store).wf(),
    ensures
        final(store).wf(),
        claims is None ==> r == Err::<Submitted, ServiceError>(ServiceError::Unauthenticated),
        r == Err::<Submitted, ServiceError>(ServiceError::Unauthenticated) ==> *final(store) == *old(store),
        r is Err ==> r == Err::<Submitted, ServiceError>(ServiceError::Unauthenticated) || r == Err::<Submitted, ServiceError>(ServiceError::BadInput) || r == Err::<Submitted, ServiceError>(ServiceError::StoreError),
        r != Err::<Submitted, ServiceError>(ServiceError::Unauthenticated) ==> (claims matches Some(cl) && exists|uid: String| #[trigger] submit_item_post(*old(store), *final(store), item, uid, r)),
{
    match caller(claims) {
        Ok(who) => {
            let uid = new_id();
            let ghost gid = uid;
            let ghost pre = *store;
            let r = store.submit_item(item, uid);
            proof {
                assert(submit_item_post(pre, *store, item, gid, r));
            }
            r
        },
        Err(e) => Err(e),
    }
}

/// Places an item in a rut for an authenticated caller, as a fresh collect made now.
pub fn collect_item(store: &mut Store, claims: Option<Claims>, c: CollectItem) -> (r: Result<Collect, ServiceError>)
    requires
        old(store).wf(),
    ensures
        final(store).wf(),
        claims is None ==> r == Err::<Collect, ServiceError>(ServiceError::Unauthenticated),
        r == Err::<Collect, ServiceError>(ServiceError::Unauthenticated) ==> *final(store) == *old(store),
        r is Err ==> r == Err::<Collect, ServiceError>(ServiceError::Unauthenticated) || r == Err::<Collect, ServiceError>(ServiceError::NotFound) || r == Err::<Collect, ServiceError>(ServiceError::CapacityExceeded) || r == Err::<Collect, ServiceError>(ServiceError::StoreError),
        r != Err::<Collect, ServiceError>(ServiceError::Unauthenticated) ==> (claims matches Some(cl) && exists|id: String, now: i64| #[trigger] collect_post(*old(store), *final(store), caller_of(cl), c, id, now, r)),
{
    match caller(claims) {
        Ok(who) => {
            let id = new_id();
            let now = now_seconds();
            let ghost gid = id;
            let ghost pre = *store;
            let r = store.collect(&who, c, id, now);
            proof {
                assert(collect_post(pre, *store, who, c, gid, now, r));
            }
            r
        },
        Err(e) => Err(e),
    }
}

/// Removes a collect for an authenticated caller who owns it.
pub fn del_collect(store: &mut Store, claims: Option<Claims>, dc: DelCollect) -> (r: Result<(), ServiceError>)
    requires
        old(store).wf(),
    ensures
        final(store).wf(),
        claims is None ==> r == Err::<(), ServiceError>(ServiceError::Unauthenticated),
        r == Err::<(), ServiceError>(ServiceError::Unauthenticated) ==> *final(store) == *old(store),
        r is Err ==> r == Err::<(), ServiceError>(ServiceError::Unauthenticated) || r == Err::<(), ServiceError>(ServiceError::NotFound) || r == Err::<(), ServiceError>(ServiceError::Unauthorized),
        r != Err::<(), ServiceError>(ServiceError::Unauthenticated) ==> (claims matches Some(cl) && exists|now: i64| #[trigger] uncollect_post(*old(store), *final(store), caller_of(cl), dc.collect_id, now, r)),
{
    match caller(claims) {
        Ok(who) => {
            let now = now_seconds();
            let ghost pre = *store;
            let r = store.uncollect(&who, &dc.collect_id, now);
            proof {
                assert(uncollect_post(pre, *store, who, dc.collect_id, now, r));
            }
            r
        },
        Err(e) => Err(e),
    }
}

/// Changes the annotation of a collect for an authenticated caller who owns it.
pub fn update_collect(store: &mut Store, claims: Option<Claims>, up: UpdateCollect) -> (r: Result<Collect, ServiceError>)
    requires
        old(store).wf(),
    ensures
        final(store).wf(),
        claims is None ==> r == Err::<Collect, ServiceError>(ServiceError::Unauthenticated),
        r == Err::<Collect, ServiceError>(ServiceError::Unauthenticated) ==> *final(store) == *old(store),
        r is Err ==> r == Err::<Collect, ServiceError>(ServiceError::Unauthenticated) || r == Err::<Collect, ServiceError>(ServiceError::NotFound) || r == Err::<Collect, ServiceError>(ServiceError::Unauthorized),
        r != Err::<Collect, ServiceError>(ServiceError::Unauthenticated) ==> (claims matches Some(cl) && update_collect_post(*old(store), *final(store), caller_of(cl), up, r)),
{
    match caller(claims) {
        Ok(who) => {
            store.update_collect(&who, up)
        },
        Err(e) => Err(e),
    }
}

/// Creates a rut for an authenticated caller, under a fresh id, now.
pub fn new_rut(store: &mut Store, claims: Option<Claims>, c: CreateRut) -> (r: Result<Rut, ServiceError>)
    requires
        old(store).wf(),
    ensures
        final(store).wf(),
        claims is None ==> r == Err::<Rut, ServiceError>(ServiceError::Unauthenticated),
        r == Err::<Rut, ServiceError>(ServiceError::Unauthenticated) ==> *final(store) == *old(store),
        r is Err ==> r == Err::<Rut, ServiceError>(ServiceError::Unauthenticated) || r == Err::<Rut, ServiceError>(ServiceError::BadInput) || r == Err::<Rut, ServiceError>(ServiceError::StoreError),
        r != Err::<Rut, ServiceError>(ServiceError::Unauthenticated) ==> (claims matches Some(cl) && exists|uid: String, now: i64| #[trigger] new_rut_post(*old(store), *final(store), caller_of(cl), c, uid, now, r)),
{
    match caller(claims) {
        Ok(who) => {
            let uid = new_id();
            let now = now_seconds();
            let ghost gid = uid;
            let ghost pre = *store;
            let r = store.new_rut(&who, c, uid, now);
            proof {
                assert(new_rut_post(pre, *store, who, c, gid, now, r));
            }
            r
        },
        Err(e) => Err(e),
    }
}

/// Marks an item for an authenticated caller; a new mark gets a fresh id and the time now.
pub fn star_item(store: &mut Store, claims: Option<Claims>, act: NewStarItem) -> (r: Result<StarItem, ServiceError>)
    requires
        old(store).wf(),
    ensures
        final(store).wf(),
        claims is None ==> r == Err::<StarItem, ServiceError>(ServiceError::Unauthenticated),
        r == Err::<StarItem, ServiceError>(ServiceError::Unauthenticated) ==> *final(store) == *old(store),
        r is Err ==> r == Err::<StarItem, ServiceError>(ServiceError::Unauthenticated) || r == Err::<StarItem, ServiceError>(ServiceError::NotFound) || r == Err::<StarItem, ServiceError>(ServiceError::StoreError),
        r != Err::<StarItem, ServiceError>(ServiceError::Unauthenticated) ==> (claims matches Some(cl) && exists|id: String, now: i64| #[trigger] star_item_post(*old(store), *final(store), caller_of(cl), act, id, now, r)),
{
    match caller(claims) {
        Ok(who) => {
            let id = new_id();
            let now = now_seconds();
            let ghost gid = id;
            let ghost pre = *store;
            let r = store.star_item(&who, act, id, now);
            proof {
                assert(star_item_post(pre, *store, who, act, gid, now, r));
            }
            r
        },
        Err(e) => Err(e),
    }
}

/// Edits an item for an authenticated caller.
pub fn update(store: &mut Store, claims: Option<Claims>, up: UpdateItem) -> (r: Result<Item, ServiceError>)
    requires
        old(store).wf(),
    ensures
        final(store).wf(),
        claims is None ==> r == Err::<Item, ServiceError>(ServiceError::Unauthenticated),
        r == Err::<Item, ServiceError>(ServiceError::Unauthenticated) ==> *final(store) == *old(store),
        r is Err ==> r == Err::<Item, ServiceError>(ServiceError::Unauthenticated) || r == Err::<Item, ServiceError>(ServiceError::NotFound) || r == Err::<Item, ServiceError>(ServiceError::BadInput) || r == Err::<Item, ServiceError>(ServiceError::StoreError),
        r != Err::<Item, ServiceError>(ServiceError::Unauthenticated) ==> (claims matches Some(cl) && update_item_post(*old(store), *final(store), up, r)),
{
    match caller(claims) {
        Ok(who) => {
            store.update_item(up)
        },
        Err(e) => Err(e),
    }
}

/// Edits a rut for its authenticated author, renewing it now.
pub fn update_rut(store: &mut Store, claims: Option<Claims>, up: UpdateRut) -> (r: Result<Rut, ServiceError>)
    requires
        old(store).wf(),
    ensures
        final(store).wf(),
        claims is None ==> r == Err::<Rut, ServiceError>(ServiceError::Unauthenticated),
        r == Err::<Rut, ServiceError>(ServiceError::Unauthenticated) ==> *final(store) == *old(store),
        r is Err ==> r == Err::<Rut, ServiceError>(ServiceError::Unauthenticated) || r == Err::<Rut, ServiceError>(ServiceError::NotFound) || r == Err::<Rut, ServiceError>(ServiceError::Unauthorized) || r == Err::<Rut, ServiceError>(ServiceError::BadInput),
        r != Err::<Rut, ServiceError>(ServiceError::Unauthenticated) ==> (claims matches Some(cl) && exists|now: i64| #[trigger] update_rut_post(*old(store), *final(store), caller_of(cl), up, now, r)),
{
    match caller(claims) {
        Ok(who) => {
            let now = now_seconds();
            let ghost pre = *store;
            let r = store.update_rut(&who, up, now);
            proof {
                assert(update_rut_post(pre, *store, who, up, now, r));
            }
            r
        },
        Err(e) => Err(e),
    }
}

/// Stars (action 1) or unstars (action 0) a tag for an authenticated caller; a new star gets a fresh id and the time now.
pub fn star_unstar_tag(store: &mut Store, claims: Option<Claims>, act: StarOrTag) -> (r: Result<(), ServiceError>)
    requires
        old(store).wf(),
    ensures
        final(store).wf(),
        claims is None ==> r == Err::<(), ServiceError>(ServiceError::Unauthenticated),
        r == Err::<(), ServiceError>(ServiceError::Unauthenticated) ==> *final(store) == *old(store),
        r is Err ==> r == Err::<(), ServiceError>(ServiceError::Unauthenticated) || r == Err::<(), ServiceError>(ServiceError::NotFound) || r == Err::<(), ServiceError>(ServiceError::CapacityExceeded) || r == Err::<(), ServiceError>(ServiceError::StoreError) || r == Err::<(), ServiceError>(ServiceError::BadInput),
        r != Err::<(), ServiceError>(ServiceError::Unauthenticated) ==> (claims matches Some(cl) && (act.action == 1 ==> exists|id: String, now: i64| #[trigger] star_tag_post(*old(store), *final(store), caller_of(cl), act.tname, act.note, id, now, r))
            && (act.action == 0 ==> unstar_tag_post(*old(store), *final(store), caller_of(cl), act.tname, r))
            && (act.action != 0 && act.action != 1 ==> r == Err::<(), ServiceError>(ServiceError::BadInput) && *final(store) == *old(store))),
{
    match caller(claims) {
        Ok(who) => {
            let id = new_id();
            let now = now_seconds();
            let ghost gid = id;
            let ghost pre = *store;
            let r = store.star_or_tag(&who, act, id, now);
            proof {
                if act.action == 1 {
                    assert(star_tag_post(pre, *store, who, act.tname, act.note, gid, now, r));
                }
            }
            r
        },
        Err(e) => Err(e),
    }
}

/// Stars (action 1) or unstars (action 0) a rut for an authenticated caller; a new star gets a fresh id and the time now.
pub fn star_unstar_rut(store: &mut Store, claims: Option<Claims>, act: StarOrRut) -> (r: Result<(), ServiceError>)
    requires
        old(store).wf(),
    ensures
        final(store).wf(),
        claims is None ==> r == Err::<(), ServiceError>(ServiceError::Unauthenticated),
        r == Err::<(), ServiceError>(ServiceError::Unauthenticated) ==> *final(store) == *old(store),
        r is Err ==> r == Err::<(), ServiceError>(ServiceError::Unauthenticated) || r == Err::<(), ServiceError>(ServiceError::NotFound) || r == Err::<(), ServiceError>(ServiceError::StoreError) || r == Err::<(), ServiceError>(ServiceError::BadInput),
        r != Err::<(), ServiceError>(ServiceError::Unauthenticated) ==> (claims matches Some(cl) && (act.action == 1 ==> exists|id: String, now: i64| #[trigger] star_rut_post(*old(store), *final(store), caller_of(cl), act.rut_id, act.note, id, now, r))
            && (act.action == 0 ==> unstar_rut_post(*old(store), *final(store), caller_of(cl), act.rut_id, r))
            && (act.action != 0 && act.action != 1 ==> r == Err::<(), ServiceError>(ServiceError::BadInput) && *final(store) == *old(store))),
{
    match caller(claims) {
        Ok(who) => {
            let id = new_id();
            let now = now_seconds();
            let ghost gid = id;
            let ghost pre = *store;
            let r = store.star_or_rut(&who, act, id, now);
            proof {
                if act.action == 1 {
                    assert(star_rut_post(pre, *store, who, act.rut_id, act.note, gid, now, r));
                }
            }
            r
        },
        Err(e) => Err(e),
    }
}

/// An authenticated caller's mark on an item.
pub fn star_status(store: &Store, claims: Option<Claims>, item_slug: &String) -> (r: Result<StarItem, ServiceError>)
    requires
        store.wf(),
    ensures
        claims is None ==> r == Err::<StarItem, ServiceError>(ServiceError::Unauthenticated),
        r is Err ==> r == Err::<StarItem, ServiceError>(ServiceError::Unauthenticated)
            || r == Err::<StarItem, ServiceError>(ServiceError::NotFound),
        r != Err::<StarItem, ServiceError>(ServiceError::Unauthenticated) ==> (claims matches Some(cl) && {
            &&& (!has_mark(store.staritems@, cl.uname@, item_slug@) <==> r == Err::<StarItem, ServiceError>(ServiceError::NotFound))
            &&& (r matches Ok(m) ==> m == store.staritems@[store.mark_at(cl.uname@, item_slug@)])
        }),
{
    match caller(claims) {
        Ok(who) => store.star_status(&who, item_slug),
        Err(e) => Err(e),
    }
}

/// Whether a tag request's action asks to tag (`"1"`) rather than untag.
pub fn is_tag_action(action: &String) -> (r: bool)
    ensures
        r == (action@ == "1"@),
{
    crate::query::is_word(action.as_str(), "1")
}

/// Tags (`action` "1") or untags a rut for an authenticated caller; the
/// result holds the outcome for each name when tagging.
pub fn tag_rut(store: &mut Store, claims: Option<Claims>, rt: &RutTag) -> (r: Result<Vec<Result<(), ServiceError>>, ServiceError>)
    requires
        old(store).wf(),
    ensures
        final(store).wf(),
        claims is None ==> r == Err::<Vec<Result<(), ServiceError>>, ServiceError>(ServiceError::Unauthenticated),
        r is Err ==> r == Err::<Vec<Result<(), ServiceError>>, ServiceError>(ServiceError::Unauthenticated)
            && *final(store) == *old(store),
        r is Ok ==> claims is Some,
        r is Ok && rt.action@ == "1"@ ==> exists|states: Seq<Store>| #[trigger] tag_run(states, rt.rut_id, rt.tnames@, r->Ok_0@)
            && states[0] == *old(store) && states.last() == *final(store),
        r is Ok && rt.action@ != "1"@ ==> {
            &&& r->Ok_0@.len() == 0
            &&& final(store).tagruts@ == old(store).tagruts@.filter(survives(rt.rut_id@, name_views(rt.tnames@)))
            &&& final(store).items == old(store).items
            &&& final(store).ruts == old(store).ruts
            &&& final(store).collects == old(store).collects
            &&& final(store).tags == old(store).tags
            &&& final(store).staritems == old(store).staritems
            &&& final(store).startags == old(store).startags
            &&& final(store).starruts == old(store).starruts
            &&& final(store).tagitems == old(store).tagitems
        },
{
    match caller(claims) {
        Ok(_) => {
            if is_tag_action(&rt.action) {
                let ghost pre = *store;
                let v = store.tag_rut(&rt.rut_id, &rt.tnames);
                proof {
                    let states = choose|states: Seq<Store>| #[trigger] tag_run(states, rt.rut_id, rt.tnames@, v@)
                        && states[0] == pre && states.last() == *store;
                    assert(tag_run(states, rt.rut_id, rt.tnames@, v@));
                }
                let r: Result<Vec<Result<(), ServiceError>>, ServiceError> = Ok(v);
                proof {
                    assert(r->Ok_0@ == v@);
                }
                r
            } else {
                store.untag_rut(&rt.rut_id, &rt.tnames);
                Ok(Vec::new())
            }
        },
        Err(e) => Err(e),
    }
}

/// The items that a list request selects, and the count it reports; a
/// request for a fuzzy match without a pattern fails with `BadInput`.
pub fn get_list(store: &Store, per: &str, perid: String, flag: i16, page: i32, kw: String, fr: String) -> (r: Result<(Vec<Item>, usize), ServiceError>)
    ensures
        r is Ok <==> match selector_pattern(per@, perid@, kw@) {
            Some(p) => p.len() > 0,
            None => true,
        },
        r is Err ==> r == Err::<(Vec<Item>, usize), ServiceError>(ServiceError::BadInput),
        r is Ok ==> exists|sel: ItemsPerID| #[trigger] built_selector(per@, perid, flag, page, kw, fr, sel)
            && r->Ok_0.0@ == items_selected(*store, sel) && r->Ok_0.1 == count_selected(*store, sel),
{
    let sel = items_selector(per, perid, flag, page, kw, fr);
    if sel.validate() {
        let v = store.get_item_list(&sel);
        let r: Result<(Vec<Item>, usize), ServiceError> = Ok(v);
        proof {
            assert(r->Ok_0.0@ == v.0@ && r->Ok_0.1 == v.1);
            assert(built_selector(per@, perid, flag, page, kw, fr, sel));
        }
        r
    } else {
        Err(ServiceError::BadInput)
    }
}

/// The collects that a request for collects `per` / `perid` at `page`
/// selects, for anyone.
pub fn get_collect_list_of(store: &Store, per: &str, perid: String, page: i32) -> (r: Vec<Collect>)
    ensures
        exists|sel: CollectIDs| #[trigger] built_collects_selector(per@, perid, page, sel) && ({
            let m = store.collects@.filter(|c: Collect| crate::lists::selects(sel, c));
            let p = crate::lists::page_of(sel);
            r@ == if p < 1 { m } else { crate::lists::window(crate::lists::newest_first(m), crate::query::PER_PAGE * (p - 1), crate::query::PER_PAGE as int) }
        }),
{
    let sel = crate::query::collects_selector(per, perid, page);
    store.get_collect_list(&sel)
}

/// The tags of a rut or an item, the children of a tag, a user's starred
/// tags or the index, ranked, for anyone.
pub fn get_tag_list(store: &Store, sel: &crate::model::TagsPerID) -> (r: (Vec<String>, usize))
    ensures
        r.0@.map_values(|x: String| x@) == crate::taglist::tags_listed(*store, *sel),
        r.1 == r.0@.len(),
{
    store.get_tag_list(sel)
}

/// A collect, for anyone.
pub fn get_collect(store: &Store, collect_id: &String) -> (r: Result<Collect, ServiceError>)
    requires
        store.wf(),
    ensures
        !crate::collect::has_collect_id(store.collects@, collect_id@) <==> r == Err::<Collect, ServiceError>(ServiceError::NotFound),
        r matches Ok(c) ==> c == store.collects@[store.collect_at(collect_id@)],
{
    store.get_collect(collect_id)
}

/// An item, for anyone.
pub fn get(store: &Store, item_slug: &String) -> (r: Result<Item, ServiceError>)
    requires
        store.wf(),
    ensures
        !store.has_item(item_slug@) <==> r == Err::<Item, ServiceError>(ServiceError::NotFound),
        r matches Ok(it) ==> it == store.items@[store.item_at(item_slug@)],
{
    store.get_item(item_slug)
}

/// A rut, for anyone.
pub fn get_rut(store: &Store, rut_id: &String) -> (r: Result<Rut, ServiceError>)
    requires
        store.wf(),
    ensures
        !store.has_rut(rut_id@) <==> r == Err::<Rut, ServiceError>(ServiceError::NotFound),
        r matches Ok(rut) ==> rut == store.ruts@[store.rut_at(rut_id@)],
{
    store.get_rut(rut_id)
}

/// The ruts of the index, of a user, or holding an item, for anyone.
pub fn get_rut_list(store: &Store, sel: &RutListType) -> (r: Vec<Rut>)
    ensures
        r@ == store.ruts@.filter(|x: Rut| crate::lists::lists_rut(*sel, store.collects@, x)),
{
    store.get_rut_list(sel)
}

/// The collects of a rut, of an item or of a user, for anyone: all of them
/// for a page below 1, else that page, the most recent first.
pub fn get_collect_list(store: &Store, sel: &CollectIDs) -> (r: Vec<Collect>)
    ensures
        ({
            let m = store.collects@.filter(|c: Collect| crate::lists::selects(*sel, c));
            let p = crate::lists::page_of(*sel);
            r@ == if p < 1 { m } else { crate::lists::window(crate::lists::newest_first(m), crate::query::PER_PAGE * (p - 1), crate::query::PER_PAGE as int) }
        }),
{
    store.get_collect_list(sel)
}

/// Whether an authenticated caller starred a rut.
pub fn star_rut_status(store: &Store, claims: Option<Claims>, rut_id: &String) -> (r: Result<bool, ServiceError>)
    requires
        store.wf(),
    ensures
        claims is None ==> r == Err::<bool, ServiceError>(ServiceError::Unauthenticated),
        r is Err ==> r == Err::<bool, ServiceError>(ServiceError::Unauthenticated),
        r matches Ok(b) ==> claims matches Some(c) && b == crate::rutstar::has_rut_star(store.starruts@, c.uname@, rut_id@),
{
    match caller(claims) {
        Ok(who) => Ok(store.star_rut_status(&who.uname, rut_id)),
        Err(e) => Err(e),
    }
}

} // verus!
