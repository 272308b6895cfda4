use ruthub::api;
use ruthub::auth::{authenticate, CheckUser, Claims};
use ruthub::catalog::Submitted;
use ruthub::error::ServiceError;
use ruthub::model::{
    CollectItem, CreateRut, NewItem, NewStarItem, RutTag, StarFlag, StarOrTag, UpdateCollect,
};
use ruthub::store::Store;

fn user(name: &str) -> CheckUser {
    CheckUser { id: format!("id-{}", name), uname: name.to_string() }
}

fn new_item(title: &str, uiid: &str, url: &str, cover: &str) -> NewItem {
    NewItem {
        title: title.to_string(),
        uiid: uiid.to_string(),
        authors: String::new(),
        pub_at: String::new(),
        publisher: String::new(),
        category: String::new(),
        url: url.to_string(),
        cover: cover.to_string(),
        edition: String::new(),
        detail: String::new(),
    }
}

fn add_item(s: &mut Store, id: &str, cover: &str) {
    let r = s.submit_item(new_item(&format!("title {}", id), "", "", cover), id.to_string());
    assert!(matches!(r, Ok(Submitted::Created(_))));
}

fn add_rut(s: &mut Store, who: &CheckUser, id: &str) {
    let c = CreateRut {
        title: "my rut".to_string(),
        url: String::new(),
        content: String::new(),
        user_intro: String::new(),
    };
    s.new_rut(who, c, id.to_string(), 100).unwrap();
}

fn collect(s: &mut Store, who: &CheckUser, rut: &str, item: &str, id: &str) -> Result<ruthub::model::Collect, ServiceError> {
    let c = CollectItem { rut_id: rut.to_string(), item_id: item.to_string(), content: String::new() };
    s.collect(who, c, id.to_string(), 200)
}

fn order_of(s: &Store, id: &str) -> i32 {
    s.collects.iter().find(|c| c.id == id).unwrap().item_order
}

fn rut_count(s: &Store, id: &str) -> i32 {
    s.items.iter().find(|i| i.id == id).unwrap().rut_count
}

fn item_count(s: &Store, id: &str) -> i32 {
    s.ruts.iter().find(|r| r.id == id).unwrap().item_count
}

fn dense_orders(s: &Store, rut: &str) -> bool {
    let mut orders: Vec<i32> = s.collects.iter().filter(|c| c.rut_id == rut).map(|c| c.item_order).collect();
    orders.sort();
    let n = item_count(s, rut);
    orders == (1..=n).collect::<Vec<i32>>()
}

#[test]
fn collect_then_uncollect_renumbers() {
    let mut s = Store::new();
    let u = user("alice");
    add_item(&mut s, "A", "coverA");
    add_item(&mut s, "B", "coverB");
    add_rut(&mut s, &u, "R");

    let a = collect(&mut s, &u, "R", "A", "cA").unwrap();
    assert_eq!(a.item_order, 1);
    assert_eq!(item_count(&s, "R"), 1);
    assert_eq!(rut_count(&s, "A"), 1);
    assert_eq!(s.ruts[0].logo, "coverA");

    let b = collect(&mut s, &u, "R", "B", "cB").unwrap();
    assert_eq!(b.item_order, 2);
    assert_eq!(item_count(&s, "R"), 2);
    assert_eq!(s.ruts[0].logo, "coverB");

    s.uncollect(&u, &"cA".to_string(), 300).unwrap();
    assert_eq!(item_count(&s, "R"), 1);
    assert_eq!(order_of(&s, "cB"), 1);
    assert_eq!(rut_count(&s, "A"), 0);
    assert_eq!(rut_count(&s, "B"), 1);
    assert_eq!(s.ruts[0].renew_at, 300);
}

#[test]
fn orders_stay_dense_over_a_sequence() {
    let mut s = Store::new();
    let u = user("alice");
    add_rut(&mut s, &u, "R");
    add_rut(&mut s, &u, "S");
    for k in 0..6 {
        add_item(&mut s, &format!("I{}", k), "");
    }
    for k in 0..6 {
        collect(&mut s, &u, "R", &format!("I{}", k), &format!("r{}", k)).unwrap();
        assert!(dense_orders(&s, "R"));
    }
    collect(&mut s, &u, "S", "I0", "s0").unwrap();
    for k in [2, 0, 5, 3] {
        s.uncollect(&u, &format!("r{}", k), 400).unwrap();
        assert!(dense_orders(&s, "R"));
        assert!(dense_orders(&s, "S"));
    }
    assert_eq!(item_count(&s, "R"), 2);
    assert_eq!(order_of(&s, "r1"), 1);
    assert_eq!(order_of(&s, "r4"), 2);
    assert_eq!(order_of(&s, "s0"), 1);
}

#[test]
fn rut_count_matches_collect_rows() {
    let mut s = Store::new();
    let u = user("alice");
    add_item(&mut s, "A", "");
    add_rut(&mut s, &u, "R");
    add_rut(&mut s, &u, "S");
    add_rut(&mut s, &u, "T");
    collect(&mut s, &u, "R", "A", "c1").unwrap();
    collect(&mut s, &u, "S", "A", "c2").unwrap();
    collect(&mut s, &u, "T", "A", "c3").unwrap();
    collect(&mut s, &u, "R", "A", "c4").unwrap();
    s.uncollect(&u, &"c2".to_string(), 1).unwrap();
    let rows = s.collects.iter().filter(|c| c.item_id == "A").count() as i32;
    assert_eq!(rows, 3);
    assert_eq!(rut_count(&s, "A"), rows);
}

#[test]
fn full_rut_refuses_and_keeps_counters() {
    let mut s = Store::new();
    let u = user("alice");
    add_rut(&mut s, &u, "R");
    add_item(&mut s, "X", "");
    for k in 0..42 {
        collect(&mut s, &u, "R", "X", &format!("c{}", k)).unwrap();
    }
    assert_eq!(item_count(&s, "R"), 42);
    add_item(&mut s, "Y", "");
    let r = collect(&mut s, &u, "R", "Y", "c42");
    assert_eq!(r, Err(ServiceError::CapacityExceeded));
    assert_eq!(item_count(&s, "R"), 42);
    assert_eq!(rut_count(&s, "Y"), 0);
    assert_eq!(rut_count(&s, "X"), 42);
    assert_eq!(s.collects.len(), 42);
}

#[test]
fn collect_missing_entities_not_found() {
    let mut s = Store::new();
    let u = user("alice");
    add_rut(&mut s, &u, "R");
    assert_eq!(collect(&mut s, &u, "R", "nope", "c").unwrap_err(), ServiceError::NotFound);
    add_item(&mut s, "A", "");
    assert_eq!(collect(&mut s, &u, "Q", "A", "c").unwrap_err(), ServiceError::NotFound);
    collect(&mut s, &u, "R", "A", "c").unwrap();
    assert_eq!(collect(&mut s, &u, "R", "A", "c").unwrap_err(), ServiceError::StoreError);
}

#[test]
fn uncollect_by_stranger_unauthorized() {
    let mut s = Store::new();
    let u = user("alice");
    let v = user("bob");
    add_item(&mut s, "A", "");
    add_rut(&mut s, &u, "R");
    collect(&mut s, &u, "R", "A", "c").unwrap();
    assert_eq!(s.uncollect(&v, &"c".to_string(), 1), Err(ServiceError::Unauthorized));
    assert_eq!(s.uncollect(&u, &"zz".to_string(), 1), Err(ServiceError::NotFound));
    assert_eq!(item_count(&s, "R"), 1);
}

#[test]
fn update_collect_owner_only() {
    let mut s = Store::new();
    let u = user("alice");
    let v = user("bob");
    add_item(&mut s, "A", "");
    add_rut(&mut s, &u, "R");
    collect(&mut s, &u, "R", "A", "c").unwrap();
    let up = UpdateCollect { id: "c".to_string(), content: "note".to_string() };
    assert_eq!(s.update_collect(&v, up.clone()), Err(ServiceError::Unauthorized));
    let c = s.update_collect(&u, up).unwrap();
    assert_eq!(c.content, "note");
    assert_eq!(c.item_order, 1);
    assert_eq!(s.get_collect(&"c".to_string()).unwrap().content, "note");
}

#[test]
fn unauthenticated_collect_and_stranger_update() {
    let mut s = Store::new();
    let u = user("alice");
    add_item(&mut s, "A", "");
    add_rut(&mut s, &u, "R");
    let c = CollectItem { rut_id: "R".to_string(), item_id: "A".to_string(), content: String::new() };
    assert_eq!(api::collect_item(&mut s, None, c.clone()), Err(ServiceError::Unauthenticated));
    assert!(s.collects.is_empty());

    let alice = Claims { uid: "id-alice".to_string(), uname: "alice".to_string(), iat: 0, exp: i64::MAX };
    let col = api::collect_item(&mut s, Some(alice), c).unwrap();
    assert_eq!(col.uname, "alice");
    assert_eq!(col.item_order, 1);

    let bob = Claims { uid: "id-bob".to_string(), uname: "bob".to_string(), iat: 0, exp: i64::MAX };
    let up = UpdateCollect { id: col.id.clone(), content: "mine".to_string() };
    assert_eq!(api::update_collect(&mut s, Some(bob), up), Err(ServiceError::Unauthorized));
}

#[test]
fn expired_claims_unauthenticated() {
    let c = Claims { uid: "u".to_string(), uname: "alice".to_string(), iat: 0, exp: 50 };
    assert_eq!(authenticate(Some(c.clone()), 50), Err(ServiceError::Unauthenticated));
    assert_eq!(authenticate(None, 0), Err(ServiceError::Unauthenticated));
    let who = authenticate(Some(c), 49).unwrap();
    assert_eq!(who.uname, "alice");
    assert_eq!(who.id, "u");
}

fn tag(s: &Store, name: &str) -> ruthub::model::Tag {
    s.tags.iter().find(|t| t.tname == name).unwrap().clone()
}

#[test]
fn tagging_provisions_and_counts() {
    let mut s = Store::new();
    let u = user("alice");
    add_rut(&mut s, &u, "R");
    add_rut(&mut s, &u, "Q");
    s.tag_rut(&"Q".to_string(), &vec!["x".to_string()]);
    let x_before = tag(&s, "x").rut_count;
    let rs = s.tag_rut(&"R".to_string(), &vec!["x".to_string(), "y".to_string()]);
    assert_eq!(rs, vec![Ok(()), Ok(())]);
    assert_eq!(tag(&s, "y").rut_count, 1);
    assert_eq!(tag(&s, "y").star_count, 0);
    assert_eq!(tag(&s, "x").rut_count, x_before + 1);
    let on_r: Vec<_> = s.tagruts.iter().filter(|t| t.rut_id == "R").collect();
    assert_eq!(on_r.len(), 2);
    assert!(on_r.iter().all(|t| t.count == 1));
    assert_eq!(on_r[0].id, "x-R");
}

#[test]
fn tagging_twice_counts_the_pair() {
    let mut s = Store::new();
    let u = user("alice");
    add_rut(&mut s, &u, "R");
    s.tag_rut(&"R".to_string(), &vec!["x".to_string()]);
    s.tag_rut(&"R".to_string(), &vec!["x".to_string()]);
    assert_eq!(s.tagruts.len(), 1);
    assert_eq!(s.tagruts[0].count, 2);
    assert_eq!(tag(&s, "x").rut_count, 1);
}

#[test]
fn untag_keeps_tag_counters() {
    let mut s = Store::new();
    let u = user("alice");
    add_rut(&mut s, &u, "R");
    add_rut(&mut s, &u, "Q");
    s.tag_rut(&"R".to_string(), &vec!["x".to_string(), "y".to_string()]);
    s.tag_rut(&"Q".to_string(), &vec!["x".to_string()]);
    s.untag_rut(&"R".to_string(), &vec!["x".to_string()]);
    assert_eq!(s.tagruts.len(), 2);
    assert!(s.tagruts.iter().any(|t| t.tname == "x" && t.rut_id == "Q"));
    assert!(!s.tagruts.iter().any(|t| t.tname == "x" && t.rut_id == "R"));
    assert_eq!(tag(&s, "x").rut_count, 2);
}

#[test]
fn vote_follows_counters() {
    let mut s = Store::new();
    let u = user("alice");
    let v = user("bob");
    add_rut(&mut s, &u, "R");
    add_rut(&mut s, &u, "Q");
    s.tag_rut(&"R".to_string(), &vec!["x".to_string()]);
    s.tag_rut(&"Q".to_string(), &vec!["x".to_string()]);
    s.star_tag(&u, &"x".to_string(), String::new(), "s1".to_string(), 1).unwrap();
    s.star_tag(&v, &"x".to_string(), String::new(), "s2".to_string(), 1).unwrap();
    s.star_tag(&v, &"x".to_string(), String::new(), "s3".to_string(), 1).unwrap();
    let t = tag(&s, "x");
    assert_eq!(t.star_count, 2);
    assert_eq!(t.vote, t.rut_count * 2 + t.star_count);
    assert_eq!(t.vote, 6);
    s.unstar_tag(&u, &"x".to_string()).unwrap();
    s.unstar_tag(&u, &"x".to_string()).unwrap();
    let t = tag(&s, "x");
    assert_eq!(t.star_count, 1);
    assert_eq!(t.vote, 5);
    assert!(s.star_tag_status(&"bob".to_string(), &"x".to_string()));
    assert!(!s.star_tag_status(&"alice".to_string(), &"x".to_string()));
}

#[test]
fn star_tag_cap_and_missing() {
    let mut s = Store::new();
    let u = user("alice");
    add_rut(&mut s, &u, "R");
    let names: Vec<String> = (0..43).map(|k| format!("t{}", k)).collect();
    s.tag_rut(&"R".to_string(), &names);
    for k in 0..42 {
        s.star_tag(&u, &names[k], String::new(), format!("s{}", k), 1).unwrap();
    }
    assert_eq!(s.star_tag(&u, &names[42], String::new(), "s42".to_string(), 1), Err(ServiceError::CapacityExceeded));
    assert_eq!(tag(&s, "t42").star_count, 0);
    assert_eq!(s.star_tag(&u, &"none".to_string(), String::new(), "z".to_string(), 1), Err(ServiceError::NotFound));
    let act = StarOrTag { tname: "t0".to_string(), note: String::new(), action: 7 };
    assert_eq!(s.star_or_tag(&u, act, "q".to_string(), 1), Err(ServiceError::BadInput));
}

fn mark(s: &mut Store, who: &CheckUser, item: &str, flag: StarFlag, id: &str) -> Result<ruthub::model::StarItem, ServiceError> {
    let act = NewStarItem { item_slug: item.to_string(), note: "n".to_string(), flag, rate: 3 };
    s.star_item(who, act, id.to_string(), 10)
}

fn done_count(s: &Store, id: &str) -> i32 {
    s.items.iter().find(|i| i.id == id).unwrap().done_count
}

#[test]
fn done_counted_once() {
    let mut s = Store::new();
    let u = user("alice");
    add_item(&mut s, "A", "");
    let m = mark(&mut s, &u, "A", StarFlag::Todo, "m1").unwrap();
    assert_eq!(m.flag, StarFlag::Todo);
    assert_eq!(done_count(&s, "A"), 0);
    let m = mark(&mut s, &u, "A", StarFlag::Done, "m2").unwrap();
    assert_eq!(m.flag, StarFlag::Done);
    assert_eq!(m.id, "m1");
    assert_eq!(done_count(&s, "A"), 1);
    mark(&mut s, &u, "A", StarFlag::Done, "m3").unwrap();
    assert_eq!(done_count(&s, "A"), 1);
    assert_eq!(s.staritems.len(), 1);
    assert_eq!(s.star_status(&u, &"A".to_string()).unwrap().flag, StarFlag::Done);
    assert_eq!(mark(&mut s, &u, "B", StarFlag::Done, "m4").unwrap_err(), ServiceError::NotFound);
}

#[test]
fn submit_item_existing_by_uiid_or_url() {
    let mut s = Store::new();
    let first = s.submit_item(new_item("Book", "isbn1", "https://a.org/b", ""), "i1".to_string()).unwrap();
    assert!(matches!(first, Submitted::Created(ref it) if it.id == "i1" && it.rut_count == 0));
    let again = s.submit_item(new_item("Other", "isbn1", "", ""), "i2".to_string()).unwrap();
    assert!(matches!(again, Submitted::Existing(ref it) if it.id == "i1"));
    let by_url = s.submit_item(new_item("Other", "", "https://a.org/b", ""), "i3".to_string()).unwrap();
    assert!(matches!(by_url, Submitted::Existing(ref it) if it.id == "i1"));
    let blank = s.submit_item(new_item("Other", "  ", "", ""), "i4".to_string()).unwrap();
    assert!(matches!(blank, Submitted::Created(_)));
    assert_eq!(s.submit_item(new_item("", "", "", ""), "i5".to_string()), Err(ServiceError::BadInput));
    assert_eq!(s.submit_item(new_item("T", "", "", ""), "i1".to_string()), Err(ServiceError::StoreError));
    assert_eq!(s.items.len(), 2);
}

#[test]
fn new_rut_validates() {
    let mut s = Store::new();
    let u = user("alice");
    let bad = CreateRut { title: "   ".to_string(), url: String::new(), content: String::new(), user_intro: String::new() };
    assert_eq!(s.new_rut(&u, bad, "R".to_string(), 1), Err(ServiceError::BadInput));
    let good = CreateRut { title: "Reads".to_string(), url: String::new(), content: "c".to_string(), user_intro: String::new() };
    let r = s.new_rut(&u, good.clone(), "R".to_string(), 5).unwrap();
    assert_eq!(r.user_id, "id-alice");
    assert_eq!(r.item_count, 0);
    assert_eq!(r.create_at, 5);
    assert_eq!(s.new_rut(&u, good, "R".to_string(), 6), Err(ServiceError::StoreError));
}

#[test]
fn tag_request_dispatch() {
    let mut s = Store::new();
    let u = user("alice");
    add_rut(&mut s, &u, "R");
    let claims = Claims { uid: "id-alice".to_string(), uname: "alice".to_string(), iat: 0, exp: i64::MAX };
    let rt = RutTag { tnames: vec!["x".to_string()], rut_id: "R".to_string(), action: "1".to_string() };
    assert_eq!(api::tag_rut(&mut s, Some(claims.clone()), &rt).unwrap().len(), 1);
    let un = RutTag { tnames: vec!["x".to_string()], rut_id: "R".to_string(), action: "0".to_string() };
    assert_eq!(api::tag_rut(&mut s, Some(claims), &un).unwrap().len(), 0);
    assert!(s.tagruts.is_empty());
    assert_eq!(api::tag_rut(&mut s, None, &rt), Err(ServiceError::Unauthenticated));
}

#[test]
fn error_statuses() {
    assert_eq!(ServiceError::NotFound.status(), 404);
    assert_eq!(ServiceError::Unauthorized.status(), 403);
    assert_eq!(ServiceError::Unauthenticated.status(), 401);
    assert_eq!(ServiceError::CapacityExceeded.status(), 418);
    assert_eq!(ServiceError::BadInput.status(), 400);
    assert_eq!(ServiceError::StoreError.status(), 500);
}

#[test]
fn update_item_keeps_counters_and_uniqueness() {
    let mut s = Store::new();
    let u = user("alice");
    s.submit_item(new_item("One", "isbn1", "", ""), "i1".to_string()).unwrap();
    s.submit_item(new_item("Two", "isbn2", "", ""), "i2".to_string()).unwrap();
    add_rut(&mut s, &u, "R");
    collect(&mut s, &u, "R", "i2", "c").unwrap();
    let mut up = ruthub::model::UpdateItem {
        id: "i2".to_string(),
        title: "Two, revised".to_string(),
        uiid: "isbn1".to_string(),
        authors: String::new(),
        pub_at: String::new(),
        publisher: String::new(),
        category: String::new(),
        url: String::new(),
        cover: String::new(),
        edition: String::new(),
        detail: String::new(),
    };
    assert_eq!(s.update_item(up.clone()), Err(ServiceError::StoreError));
    up.uiid = "isbn3".to_string();
    let it = s.update_item(up.clone()).unwrap();
    assert_eq!(it.title, "Two, revised");
    assert_eq!(it.rut_count, 1);
    assert_eq!(s.get_item(&"i2".to_string()).unwrap().uiid, "isbn3");
    up.id = "zz".to_string();
    assert_eq!(s.update_item(up), Err(ServiceError::NotFound));
}

#[test]
fn rut_and_collect_lists() {
    let mut s = Store::new();
    let u = user("alice");
    let v = user("bob");
    add_item(&mut s, "A", "");
    add_item(&mut s, "B", "");
    add_rut(&mut s, &u, "R");
    add_rut(&mut s, &v, "Q");
    collect(&mut s, &u, "R", "A", "c1").unwrap();
    collect(&mut s, &v, "Q", "A", "c2").unwrap();
    collect(&mut s, &u, "R", "B", "c3").unwrap();

    let by_item = s.get_rut_list(&ruthub::model::RutListType::ItemID("B".to_string()));
    assert_eq!(by_item.len(), 1);
    assert_eq!(by_item[0].id, "R");
    let by_user = s.get_rut_list(&ruthub::model::RutListType::UserID("id-bob".to_string()));
    assert_eq!(by_user.len(), 1);
    assert_eq!(by_user[0].id, "Q");
    assert_eq!(s.get_rut_list(&ruthub::model::RutListType::Index(String::new())).len(), 2);

    let in_r = s.get_collect_list(&ruthub::model::CollectIDs::RutID("R".to_string()));
    assert_eq!(in_r.iter().map(|c| c.id.as_str()).collect::<Vec<_>>(), vec!["c1", "c3"]);
    let of_a = s.get_collect_list(&ruthub::model::CollectIDs::ItemID("A".to_string(), 1));
    assert_eq!(of_a.iter().map(|c| c.id.as_str()).collect::<Vec<_>>(), vec!["c2", "c1"]);
    assert!(s.get_collect_list(&ruthub::model::CollectIDs::ItemID("A".to_string(), 2)).is_empty());
    let of_alice = s.get_collect_list(&ruthub::model::CollectIDs::UserID("alice".to_string(), 0));
    assert_eq!(of_alice.len(), 2);

    assert_eq!(s.get_rut(&"Q".to_string()).unwrap().item_count, 1);
    assert_eq!(s.get_rut(&"X".to_string()), Err(ServiceError::NotFound));
    assert_eq!(s.get_item(&"X".to_string()), Err(ServiceError::NotFound));
}

#[test]
fn rut_stars_counted_once_per_user() {
    let mut s = Store::new();
    let u = user("alice");
    let v = user("bob");
    add_rut(&mut s, &u, "R");
    s.star_rut(&u, &"R".to_string(), String::new(), "s1".to_string(), 1).unwrap();
    s.star_rut(&u, &"R".to_string(), String::new(), "s2".to_string(), 1).unwrap();
    s.star_rut(&v, &"R".to_string(), String::new(), "s3".to_string(), 1).unwrap();
    assert_eq!(s.ruts[0].star_count, 2);
    assert!(s.star_rut_status(&"alice".to_string(), &"R".to_string()));
    s.unstar_rut(&u, &"R".to_string()).unwrap();
    s.unstar_rut(&u, &"R".to_string()).unwrap();
    assert_eq!(s.ruts[0].star_count, 1);
    assert!(!s.star_rut_status(&"alice".to_string(), &"R".to_string()));
    assert_eq!(s.star_rut(&u, &"Q".to_string(), String::new(), "s4".to_string(), 1), Err(ServiceError::NotFound));
    let act = ruthub::model::StarOrRut { rut_id: "R".to_string(), note: String::new(), action: 5 };
    assert_eq!(s.star_or_rut(&u, act, "s5".to_string(), 1), Err(ServiceError::BadInput));
}

#[test]
fn update_rut_author_only() {
    let mut s = Store::new();
    let u = user("alice");
    let v = user("bob");
    add_rut(&mut s, &u, "R");
    let up = ruthub::model::UpdateRut {
        id: "R".to_string(),
        title: "Renamed".to_string(),
        url: String::new(),
        content: "more".to_string(),
        user_intro: String::new(),
    };
    assert_eq!(s.update_rut(&v, up.clone(), 9), Err(ServiceError::Unauthorized));
    let r = s.update_rut(&u, up.clone(), 9).unwrap();
    assert_eq!(r.title, "Renamed");
    assert_eq!(r.renew_at, 9);
    assert_eq!(r.create_at, 100);
    let mut bad = up;
    bad.title = String::new();
    assert_eq!(s.update_rut(&u, bad, 10), Err(ServiceError::BadInput));
}

#[test]
fn tag_create_read_update() {
    let mut s = Store::new();
    let post = ruthub::model::CheckTag { tname: "rust".to_string(), action: "POST".to_string() };
    let t = s.check_tag(&post).unwrap();
    assert_eq!((t.rut_count, t.star_count, t.vote), (0, 0, 0));
    assert_eq!(s.check_tag(&post), Err(ServiceError::StoreError));
    let get = ruthub::model::CheckTag { tname: "rust".to_string(), action: "GET".to_string() };
    assert_eq!(s.check_tag(&get).unwrap().tname, "rust");
    let missing = ruthub::model::CheckTag { tname: "go".to_string(), action: "GET".to_string() };
    assert_eq!(s.check_tag(&missing), Err(ServiceError::NotFound));
    let up = ruthub::model::UpdateTag {
        tname: "rust".to_string(),
        intro: "a language".to_string(),
        logo: String::new(),
        pname: "lang".to_string(),
    };
    let t = s.update_tag(up).unwrap();
    assert_eq!(t.pname, "lang");
    assert_eq!(s.get_tag(&"rust".to_string()).unwrap().intro, "a language");
}

#[test]
fn done_again_after_doing_not_recounted() {
    let mut s = Store::new();
    let u = user("alice");
    let v = user("bob");
    add_item(&mut s, "A", "");
    mark(&mut s, &u, "A", StarFlag::Todo, "m1").unwrap();
    mark(&mut s, &u, "A", StarFlag::Done, "m2").unwrap();
    mark(&mut s, &u, "A", StarFlag::Doing, "m3").unwrap();
    let m = mark(&mut s, &u, "A", StarFlag::Done, "m4").unwrap();
    assert!(m.reached_done);
    assert_eq!(done_count(&s, "A"), 1);
    mark(&mut s, &v, "A", StarFlag::Doing, "m5").unwrap();
    mark(&mut s, &v, "A", StarFlag::Done, "m6").unwrap();
    assert_eq!(done_count(&s, "A"), 2);
    mark(&mut s, &v, "A", StarFlag::Done, "m7").unwrap();
    assert_eq!(done_count(&s, "A"), 2);
}

#[test]
fn item_queries_over_the_store() {
    let mut s = Store::new();
    let u = user("alice");
    s.submit_item(new_item("The Rust Book", "R-1", "https://x.org/rust", ""), "i1".to_string()).unwrap();
    s.submit_item(new_item("Go in Action", "G-2", "https://x.org/go", ""), "i2".to_string()).unwrap();
    s.submit_item(new_item("Rusty Tools", "T-3", "", ""), "i3".to_string()).unwrap();
    for k in 0..12 {
        s.submit_item(new_item(&format!("rust extra {}", k), "", "", ""), format!("e{}", k)).unwrap();
    }
    let (hits, n) = s.get_item_list(&ruthub::query::ItemsPerID::Title("RUST".to_string()));
    assert_eq!(hits.len(), 10);
    assert_eq!(n, 10);
    assert_eq!(hits[0].id, "i1");
    assert_eq!(hits[1].id, "i3");
    let (by_uiid, _) = s.get_item_list(&ruthub::query::ItemsPerID::Uiid("g-2".to_string()));
    assert_eq!(by_uiid.len(), 1);
    assert_eq!(by_uiid[0].id, "i2");
    let (by_url, _) = s.get_item_list(&ruthub::query::ItemsPerID::ItemUrl("X.ORG/GO".to_string()));
    assert_eq!(by_url[0].id, "i2");
    assert_eq!(s.get_item_list(&ruthub::query::ItemsPerID::ItemID("i3".to_string())).0[0].title, "Rusty Tools");

    add_rut(&mut s, &u, "R");
    collect(&mut s, &u, "R", "i2", "c1").unwrap();
    assert_eq!(s.get_item_list(&ruthub::query::ItemsPerID::RutID("R".to_string())).0[0].id, "i2");

    s.tagitems.push(ruthub::model::TagItem { id: "t1".to_string(), tname: "lang".to_string(), item_id: "i3".to_string(), count: 1 });
    assert_eq!(s.get_item_list(&ruthub::query::ItemsPerID::TagID("lang".to_string())).0[0].id, "i3");

    mark(&mut s, &u, "i1", StarFlag::Done, "m1").unwrap();
    mark(&mut s, &u, "i2", StarFlag::Done, "m2").unwrap();
    mark(&mut s, &u, "i3", StarFlag::Todo, "m3").unwrap();
    let (done, total) = s.get_item_list(&ruthub::query::ItemsPerID::UserID("alice".to_string(), 3, 0));
    assert_eq!(total, 2);
    assert_eq!(done.iter().map(|i| i.id.as_str()).collect::<Vec<_>>(), vec!["i1", "i2"]);
    let (page2, total2) = s.get_item_list(&ruthub::query::ItemsPerID::UserID("alice".to_string(), 3, 2));
    assert!(page2.is_empty());
    assert_eq!(total2, 2);

    let key = ruthub::query::ItemsPerID::KeyID("rust".to_string(), "user".to_string(), "alice".to_string(), 1);
    assert_eq!(s.get_item_list(&key).0.iter().map(|i| i.id.as_str()).collect::<Vec<_>>(), vec!["i1"]);
    let key_tag = ruthub::query::ItemsPerID::KeyID("rust".to_string(), " tag ".to_string(), "lang".to_string(), 1);
    assert_eq!(s.get_item_list(&key_tag).0[0].id, "i3");
}

#[test]
fn tag_lists_ranked() {
    let mut s = Store::new();
    let u = user("alice");
    add_rut(&mut s, &u, "R");
    add_rut(&mut s, &u, "Q");
    s.tag_rut(&"R".to_string(), &vec!["a".to_string(), "b".to_string(), "c".to_string()]);
    s.tag_rut(&"R".to_string(), &vec!["b".to_string(), "b".to_string(), "c".to_string()]);
    s.tag_rut(&"Q".to_string(), &vec!["c".to_string()]);
    let (names, n) = s.get_tag_list(&ruthub::model::TagsPerID::RutID("R".to_string()));
    assert_eq!(names, vec!["b", "c", "a"]);
    assert_eq!(n, 3);
    let (index, _) = s.get_tag_list(&ruthub::model::TagsPerID::Index(String::new()));
    assert_eq!(index, vec!["c", "a", "b"]);
    s.star_tag(&u, &"a".to_string(), String::new(), "s1".to_string(), 5).unwrap();
    s.star_tag(&u, &"b".to_string(), String::new(), "s2".to_string(), 9).unwrap();
    let (mine, _) = s.get_tag_list(&ruthub::model::TagsPerID::UserID("alice".to_string()));
    assert_eq!(mine, vec!["b", "a"]);
    let names: Vec<String> = (0..12).map(|k| format!("t{}", k)).collect();
    s.tag_rut(&"Q".to_string(), &names);
    assert_eq!(s.get_tag_list(&ruthub::model::TagsPerID::RutID("Q".to_string())).0.len(), 10);
}
