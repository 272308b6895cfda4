//! The entities of the relational model and the requests that address them.
//! Identifiers are opaque strings; instants are seconds since the epoch.

use vstd::prelude::*;

verus! {

/// A catalog entry.
#[derive(Debug, Clone, PartialEq, Eq)]
pub struct Item {
    pub id: String,
    pub title: String,
    /// External id, such as an ISBN.
    pub uiid: String,
    pub authors: String,
    pub pub_at: String,
    pub publisher: String,
    pub category: String,
    pub url: String,
    /// Url of a cover image.
    pub cover: String,
    pub edition: String,
    pub detail: String,
    /// Number of collects that place this item in a rut.
    pub rut_count: i32,
    pub etc_count: i32,
    /// Number of users who marked the item done.
    pub done_count: i32,
    pub vote: i32,
}

/// The fields of an item as a user submits it.
#[derive(Debug, Clone, PartialEq, Eq)]
pub struct NewItem {
    pub title: String,
    pub uiid: String,
    pub authors: String,
    pub pub_at: String,
    pub publisher: String,
    pub category: String,
    pub url: String,
    pub cover: String,
    pub edition: String,
    pub detail: String,
}

/// The item with id `uid`, the submitted fields and zero counters.
pub open spec fn fresh_item(uid: String, item: NewItem) -> Item {
    Item {
        id: uid,
        title: item.title,
        uiid: item.uiid,
        authors: item.authors,
        pub_at: item.pub_at,
        publisher: item.publisher,
        category: item.category,
        url: item.url,
        cover: item.cover,
        edition: item.edition,
        detail: item.detail,
        rut_count: 0,
        etc_count: 0,
        done_count: 0,
        vote: 0,
    }
}

/// The editable fields of an item, addressed by its id.
#[derive(Debug, Clone, PartialEq, Eq)]
pub struct UpdateItem {
    pub id: String,
    pub title: String,
    pub uiid: String,
    pub authors: String,
    pub pub_at: String,
    pub publisher: String,
    pub category: String,
    pub url: String,
    pub cover: String,
    pub edition: String,
    pub detail: String,
}

/// An item with its editable fields replaced and its counters kept.
pub open spec fn edited(it: Item, up: UpdateItem) -> Item {
    Item {
        title: up.title,
        uiid: up.uiid,
        authors: up.authors,
        pub_at: up.pub_at,
        publisher: up.publisher,
        category: up.category,
        url: up.url,
        cover: up.cover,
        edition: up.edition,
        detail: up.detail,
        ..it
    }
}

impl Item {
    /// A copy of this item.
    pub fn duplicate(&self) -> (r: Item)
        ensures
            r == *self,
    {
        Item {
            id: self.id.clone(),
            title: self.title.clone(),
            uiid: self.uiid.clone(),
            authors: self.authors.clone(),
            pub_at: self.pub_at.clone(),
            publisher: self.publisher.clone(),
            category: self.category.clone(),
            url: self.url.clone(),
            cover: self.cover.clone(),
            edition: self.edition.clone(),
            detail: self.detail.clone(),
            rut_count: self.rut_count,
            etc_count: self.etc_count,
            done_count: self.done_count,
            vote: self.vote,
        }
    }

    /// A fresh item with id `uid`, the submitted fields and zero counters.
    pub fn new(uid: String, item: NewItem) -> (r: Item)
        ensures
            r == fresh_item(uid, item),
    {
        Item {
            id: uid,
            title: item.title,
            uiid: item.uiid,
            authors: item.authors,
            pub_at: item.pub_at,
            publisher: item.publisher,
            category: item.category,
            url: item.url,
            cover: item.cover,
            edition: item.edition,
            detail: item.detail,
            rut_count: 0,
            etc_count: 0,
            done_count: 0,
            vote: 0,
        }
    }
}

/// A named, ordered collection of items authored by a user.
#[derive(Debug, Clone, PartialEq, Eq)]
pub struct Rut {
    pub id: String,
    pub title: String,
    pub url: String,
    pub content: String,
    pub create_at: i64,
    pub user_id: String,
    pub user_intro: String,
    /// Cover of the item collected last.
    pub logo: String,
    /// Number of collects in the rut.
    pub item_count: i32,
    pub comment_count: i32,
    pub star_count: i32,
    pub renew_at: i64,
}

/// The fields of a rut as its author creates it.
#[derive(Debug, Clone, PartialEq, Eq)]
pub struct CreateRut {
    pub title: String,
    pub url: String,
    pub content: String,
    pub user_intro: String,
}

/// A user's star on a rut.
#[derive(Debug, Clone, PartialEq, Eq)]
pub struct StarRut {
    pub id: String,
    pub uname: String,
    pub rut_id: String,
    pub star_at: i64,
    pub note: String,
}

/// A request to star (`action` 1) or unstar (`action` 0) a rut.
#[derive(Debug, Clone, PartialEq, Eq)]
pub struct StarOrRut {
    pub rut_id: String,
    pub note: String,
    pub action: u8,
}

/// Asks whether a user starred a rut.
#[derive(Debug, Clone, PartialEq, Eq)]
pub struct StarRutStatus {
    pub uname: String,
    pub rut_id: String,
}

/// The editable fields of a rut, addressed by its id.
#[derive(Debug, Clone, PartialEq, Eq)]
pub struct UpdateRut {
    pub id: String,
    pub title: String,
    pub url: String,
    pub content: String,
    pub user_intro: String,
}

/// A rut with its editable fields replaced, renewed at `now`.
pub open spec fn rut_edited(r: Rut, up: UpdateRut, now: i64) -> Rut {
    Rut { title: up.title, url: up.url, content: up.content, user_intro: up.user_intro, renew_at: now, ..r }
}

/// Selects a rut by its id.
#[derive(Debug, Clone, PartialEq, Eq)]
pub struct RutID {
    pub rut_id: String,
}

/// Selects a list of ruts.
#[derive(Debug, Clone, PartialEq, Eq)]
pub enum RutListType {
    Index(String),
    UserID(String),
    ItemID(String),
}

impl Rut {
    /// A copy of this rut.
    pub fn duplicate(&self) -> (r: Rut)
        ensures
            r == *self,
    {
        Rut {
            id: self.id.clone(),
            title: self.title.clone(),
            url: self.url.clone(),
            content: self.content.clone(),
            create_at: self.create_at,
            user_id: self.user_id.clone(),
            user_intro: self.user_intro.clone(),
            logo: self.logo.clone(),
            item_count: self.item_count,
            comment_count: self.comment_count,
            star_count: self.star_count,
            renew_at: self.renew_at,
        }
    }

    /// A rut with empty fields, zero counters, created and renewed at `now`.
    pub fn new(now: i64) -> (r: Rut)
        ensures
            r.id@.len() == 0,
            r.title@.len() == 0,
            r.url@.len() == 0,
            r.content@.len() == 0,
            r.user_id@.len() == 0,
            r.user_intro@.len() == 0,
            r.logo@.len() == 0,
            r.create_at == now,
            r.renew_at == now,
            r.item_count == 0,
            r.comment_count == 0,
            r.star_count == 0,
    {
        Rut {
            id: String::new(),
            title: String::new(),
            url: String::new(),
            content: String::new(),
            create_at: now,
            user_id: String::new(),
            user_intro: String::new(),
            logo: String::new(),
            item_count: 0,
            comment_count: 0,
            star_count: 0,
            renew_at: now,
        }
    }
}

/// The edge that places an item in a rut at a position.
#[derive(Debug, Clone, PartialEq, Eq)]
pub struct Collect {
    pub id: String,
    pub rut_id: String,
    pub item_id: String,
    /// Position in the rut, from 1.
    pub item_order: i32,
    pub content: String,
    /// Name of the user who owns the edge.
    pub uname: String,
    pub collect_at: i64,
}

/// A request to place an item in a rut.
#[derive(Debug, Clone, PartialEq, Eq)]
pub struct CollectItem {
    pub rut_id: String,
    pub item_id: String,
    pub content: String,
}

impl Collect {
    /// The collect with id `uid` placing the requested item at `item_order`,
    /// owned by `uname`.
    pub fn new(uid: String, c: CollectItem, item_order: i32, uname: String, collect_at: i64) -> (r: Collect)
        ensures
            r == (Collect {
                id: uid,
                rut_id: c.rut_id,
                item_id: c.item_id,
                item_order,
                content: c.content,
                uname,
                collect_at,
            }),
    {
        Collect { id: uid, rut_id: c.rut_id, item_id: c.item_id, item_order, content: c.content, uname, collect_at }
    }

    /// A copy of this collect.
    pub fn duplicate(&self) -> (r: Collect)
        ensures
            r == *self,
    {
        Collect {
            id: self.id.clone(),
            rut_id: self.rut_id.clone(),
            item_id: self.item_id.clone(),
            item_order: self.item_order,
            content: self.content.clone(),
            uname: self.uname.clone(),
            collect_at: self.collect_at,
        }
    }
}

/// A request to change the annotation of a collect.
#[derive(Debug, Clone, PartialEq, Eq)]
pub struct UpdateCollect {
    pub id: String,
    pub content: String,
}

/// A request to remove a collect.
#[derive(Debug, Clone, PartialEq, Eq)]
pub struct DelCollect {
    pub collect_id: String,
}

/// Selects a collect by its id.
#[derive(Debug, Clone, PartialEq, Eq)]
pub struct CollectID {
    pub collect_id: String,
}

/// Selects the collects of a rut, of an item or of a user.
#[derive(Debug, Clone, PartialEq, Eq)]
pub enum CollectIDs {
    RutID(String),
    /// An item id and a page.
    ItemID(String, i32),
    /// A user name and a page.
    UserID(String, i32),
}

/// Selects an item by its id.
#[derive(Debug, Clone, PartialEq, Eq)]
pub struct ItemSlug {
    pub item_slug: String,
}

/// Engagement state of a user with an item.
#[derive(Debug, Clone, Copy, PartialEq, Eq, Structural)]
pub enum StarFlag {
    Todo,
    Doing,
    Done,
}

impl StarFlag {
    /// The flag for its request code: 1 to do, 2 doing, 3 done.
    pub fn from_code(code: i16) -> (r: Option<StarFlag>)
        ensures
            r == (if code == 1 {
                Some(StarFlag::Todo)
            } else if code == 2 {
                Some(StarFlag::Doing)
            } else if code == 3 {
                Some(StarFlag::Done)
            } else {
                None
            }),
    {
        if code == 1 {
            Some(StarFlag::Todo)
        } else if code == 2 {
            Some(StarFlag::Doing)
        } else if code == 3 {
            Some(StarFlag::Done)
        } else {
            None
        }
    }
}

/// A user's engagement record for an item.
#[derive(Debug, Clone, PartialEq, Eq)]
pub struct StarItem {
    pub id: String,
    pub uname: String,
    pub item_id: String,
    pub star_at: i64,
    pub note: String,
    pub flag: StarFlag,
    pub rate: i32,
    /// The mark has been done at some point.
    pub reached_done: bool,
}

impl StarItem {
    /// A copy of this record.
    pub fn duplicate(&self) -> (r: StarItem)
        ensures
            r == *self,
    {
        StarItem {
            id: self.id.clone(),
            uname: self.uname.clone(),
            item_id: self.item_id.clone(),
            star_at: self.star_at,
            note: self.note.clone(),
            flag: self.flag,
            rate: self.rate,
            reached_done: self.reached_done,
        }
    }
}

/// A request to mark an item.
#[derive(Debug, Clone, PartialEq, Eq)]
pub struct NewStarItem {
    pub item_slug: String,
    pub note: String,
    pub flag: StarFlag,
    pub rate: i32,
}

/// Asks for a user's mark on an item.
#[derive(Debug, Clone, PartialEq, Eq)]
pub struct StarItemStatus {
    pub uname: String,
    pub item_slug: String,
}

/// A label, keyed by its name.
#[derive(Debug, Clone, PartialEq, Eq)]
pub struct Tag {
    pub id: String,
    pub tname: String,
    pub intro: String,
    pub logo: String,
    /// Name of the parent tag.
    pub pname: String,
    pub item_count: i32,
    /// Number of times the tag was applied to a new rut.
    pub rut_count: i32,
    pub etc_count: i32,
    /// Number of users who starred the tag.
    pub star_count: i32,
    /// Always `rut_count * 2 + star_count`.
    pub vote: i32,
}

impl Tag {
    /// A copy of this tag.
    pub fn duplicate(&self) -> (r: Tag)
        ensures
            r == *self,
    {
        Tag {
            id: self.id.clone(),
            tname: self.tname.clone(),
            intro: self.intro.clone(),
            logo: self.logo.clone(),
            pname: self.pname.clone(),
            item_count: self.item_count,
            rut_count: self.rut_count,
            etc_count: self.etc_count,
            star_count: self.star_count,
            vote: self.vote,
        }
    }
}

/// The fields of a tag when it is created.
#[derive(Debug, Clone, PartialEq, Eq)]
pub struct NewTag {
    pub id: String,
    pub tname: String,
    pub intro: String,
    pub logo: String,
    pub pname: String,
    pub item_count: i32,
    pub rut_count: i32,
    pub etc_count: i32,
    pub star_count: i32,
}

/// The association of a tag with a rut, with how often it was applied.
#[derive(Debug, Clone, PartialEq, Eq)]
pub struct TagRut {
    pub id: String,
    pub tname: String,
    pub rut_id: String,
    pub count: i32,
}

impl TagRut {
    /// A copy of this association.
    pub fn duplicate(&self) -> (r: TagRut)
        ensures
            r == *self,
    {
        TagRut { id: self.id.clone(), tname: self.tname.clone(), rut_id: self.rut_id.clone(), count: self.count }
    }
}

/// The fields of a tag-rut association when it is created.
#[derive(Debug, Clone, PartialEq, Eq)]
pub struct NewTagRut {
    pub id: String,
    pub tname: String,
    pub rut_id: String,
    pub count: i32,
}

/// A request to tag (`action` "1") or untag a rut with some names.
#[derive(Debug, Clone, PartialEq, Eq)]
pub struct RutTag {
    pub tnames: Vec<String>,
    pub rut_id: String,
    pub action: String,
}

/// The association of a tag with an item.
#[derive(Debug, Clone, PartialEq, Eq)]
pub struct TagItem {
    pub id: String,
    pub tname: String,
    pub item_id: String,
    pub count: i32,
}

/// The association of a tag with another kind of entity.
#[derive(Debug, Clone, PartialEq, Eq)]
pub struct TagEtc {
    pub id: String,
    pub tname: String,
    pub etc_id: String,
}

/// Asks for a tag by name, or to create it.
#[derive(Debug, Clone, PartialEq, Eq)]
pub struct CheckTag {
    pub tname: String,
    pub action: String,
}

/// The editable fields of a tag.
#[derive(Debug, Clone, PartialEq, Eq)]
pub struct UpdateTag {
    pub tname: String,
    pub intro: String,
    pub logo: String,
    pub pname: String,
}

/// Selects a list of tags.
#[derive(Debug, Clone, PartialEq, Eq)]
pub enum TagsPerID {
    RutID(String),
    ItemID(String),
    TagID(String),
    UserID(String),
    Index(String),
}

/// A user's star on a tag.
#[derive(Debug, Clone, PartialEq, Eq)]
pub struct StarTag {
    pub id: String,
    pub uname: String,
    pub tname: String,
    pub star_at: i64,
    pub note: String,
}

/// A request to star (`action` 1) or unstar (`action` 0) a tag.
#[derive(Debug, Clone, PartialEq, Eq)]
pub struct StarOrTag {
    pub tname: String,
    pub note: String,
    pub action: u8,
}

/// Asks whether a user starred a tag.
#[derive(Debug, Clone, PartialEq, Eq)]
pub struct StarTagStatus {
    pub uname: String,
    pub tname: String,
}

} // verus!
