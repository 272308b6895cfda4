//! The tables of the relational model and the invariants that tie their
//! rows and derived counters together.

use vstd::prelude::*;
use crate::outside::trimmed;
use crate::tagstore::tags_wf;
use crate::model::{Item, Rut, Collect, Tag, TagRut, StarItem, StarTag, StarRut, StarFlag, TagItem};

verus! {

/// Most collects a rut may hold.
pub const RUT_CAPACITY: i32 = 42;

/// Most tags a user may star.
pub const STAR_TAG_CAPACITY: usize = 42;

/// The rows of every table.
pub struct Store {
    pub items: Vec<Item>,
    pub ruts: Vec<Rut>,
    pub collects: Vec<Collect>,
    pub tags: Vec<Tag>,
    pub tagruts: Vec<TagRut>,
    pub staritems: Vec<StarItem>,
    pub startags: Vec<StarTag>,
    pub starruts: Vec<StarRut>,
    pub tagitems: Vec<TagItem>,
}

/// The ids of a sequence of items, in order.
pub open spec fn item_ids(s: Seq<Item>) -> Seq<Seq<char>> {
    s.map_values(|it: Item| it.id@)
}

/// The ids of a sequence of ruts, in order.
pub open spec fn rut_ids(s: Seq<Rut>) -> Seq<Seq<char>> {
    s.map_values(|r: Rut| r.id@)
}

/// The ids of a sequence of collects, in order.
pub open spec fn collect_ids(s: Seq<Collect>) -> Seq<Seq<char>> {
    s.map_values(|c: Collect| c.id@)
}

/// No id occurs twice.
pub open spec fn unique(ids: Seq<Seq<char>>) -> bool {
    forall|i: int, j: int| 0 <= i < j < ids.len() ==> #[trigger] ids[i] != #[trigger] ids[j]
}

/// Number of collects that reference item `iid`, across all ruts.
pub open spec fn item_refs(cs: Seq<Collect>, iid: Seq<char>) -> nat
    decreases cs.len(),
{
    if cs.len() == 0 {
        0
    } else {
        item_refs(cs.drop_last(), iid) + if cs.last().item_id@ == iid { 1nat } else { 0nat }
    }
}

/// Some collect of rut `rid` stands at position `k`.
pub open spec fn has_order(cs: Seq<Collect>, rid: Seq<char>, k: int) -> bool {
    exists|i: int| 0 <= i < cs.len() && #[trigger] cs[i].rut_id@ == rid && cs[i].item_order == k
}

/// The positions of the collects of rut `rid`.
pub open spec fn orders_of(cs: Seq<Collect>, rid: Seq<char>) -> Set<int> {
    Set::new(|k: int| has_order(cs, rid, k))
}

/// The positions `1..=n`.
pub open spec fn first_orders(n: int) -> Set<int> {
    Set::new(|k: int| 1 <= k <= n)
}

/// The collects of rut `rid` stand at positions `1..=n`, each at its own.
pub open spec fn dense(cs: Seq<Collect>, rid: Seq<char>, n: int) -> bool {
    &&& forall|i: int|
        0 <= i < cs.len() && #[trigger] cs[i].rut_id@ == rid ==> 1 <= cs[i].item_order <= n
    &&& forall|k: int| 1 <= k <= n ==> #[trigger] has_order(cs, rid, k)
    &&& forall|i: int, j: int|
        0 <= i < cs.len() && 0 <= j < cs.len() && i != j && #[trigger] cs[i].rut_id@ == rid
            && #[trigger] cs[j].rut_id@ == rid ==> cs[i].item_order != cs[j].item_order
}

/// A text that holds more than white space.
pub open spec fn non_blank(s: Seq<char>) -> bool {
    trimmed(s).len() > 0
}

/// Two items share a non-blank external id or a non-blank url.
pub open spec fn clash(a: Item, b: Item) -> bool {
    (non_blank(a.uiid@) && a.uiid@ == b.uiid@) || (non_blank(a.url@) && a.url@ == b.url@)
}

/// No two items share a non-blank external id or url.
pub open spec fn items_distinct(items: Seq<Item>) -> bool {
    forall|i: int, j: int| 0 <= i < items.len() && 0 <= j < items.len() && i != j ==> !clash(#[trigger] items[i], #[trigger] items[j])
}

/// No user marks the same item twice.
pub open spec fn marks_distinct(ms: Seq<StarItem>) -> bool {
    forall|i: int, j: int| 0 <= i < ms.len() && 0 <= j < ms.len() && i != j
        ==> !((#[trigger] ms[i]).uname@ == (#[trigger] ms[j]).uname@ && ms[i].item_id@ == ms[j].item_id@)
}

/// Number of stars on rut `rid`.
pub open spec fn rut_star_refs(ss: Seq<StarRut>, rid: Seq<char>) -> nat
    decreases ss.len(),
{
    if ss.len() == 0 {
        0
    } else {
        rut_star_refs(ss.drop_last(), rid) + if ss.last().rut_id@ == rid { 1nat } else { 0nat }
    }
}

/// Each rut counts its stars, each star is on a rut, and no user stars a
/// rut twice.
pub open spec fn rut_stars_wf(ruts: Seq<Rut>, ss: Seq<StarRut>) -> bool {
    &&& forall|r: int| 0 <= r < ruts.len() ==> (#[trigger] ruts[r]).star_count == rut_star_refs(ss, ruts[r].id@)
    &&& forall|i: int| 0 <= i < ss.len() ==> rut_ids(ruts).contains((#[trigger] ss[i]).rut_id@)
    &&& forall|i: int, j: int| 0 <= i < ss.len() && 0 <= j < ss.len() && i != j
        ==> !((#[trigger] ss[i]).uname@ == (#[trigger] ss[j]).uname@ && ss[i].rut_id@ == ss[j].rut_id@)
}

/// The rows of items, ruts and collects agree with each other.
pub open spec fn collects_wf(items: Seq<Item>, ruts: Seq<Rut>, cs: Seq<Collect>) -> bool {
    &&& unique(item_ids(items))
    &&& unique(rut_ids(ruts))
    &&& unique(collect_ids(cs))
    &&& forall|r: int|
        0 <= r < ruts.len() ==> 0 <= #[trigger] ruts[r].item_count <= RUT_CAPACITY
            && dense(cs, ruts[r].id@, ruts[r].item_count as int)
    &&& forall|i: int|
        0 <= i < cs.len() ==> rut_ids(ruts).contains((#[trigger] cs[i]).rut_id@)
            && item_ids(items).contains(cs[i].item_id@)
    &&& forall|i: int|
        0 <= i < items.len() ==> #[trigger] items[i].rut_count == item_refs(cs, items[i].id@)
}

impl Store {
    /// An empty store.
    pub fn new() -> (r: Store)
        ensures
            r.wf(),
            r.items@.len() == 0,
            r.ruts@.len() == 0,
            r.collects@.len() == 0,
            r.tags@.len() == 0,
            r.tagruts@.len() == 0,
            r.staritems@.len() == 0,
            r.startags@.len() == 0,
            r.starruts@.len() == 0,
            r.tagitems@.len() == 0,
    {
        Store {
            items: Vec::new(),
            ruts: Vec::new(),
            collects: Vec::new(),
            tags: Vec::new(),
            tagruts: Vec::new(),
            staritems: Vec::new(),
            startags: Vec::new(),
            starruts: Vec::new(),
            tagitems: Vec::new(),
        }
    }

    /// The store's invariant.
    pub open spec fn wf(&self) -> bool {
        &&& collects_wf(self.items@, self.ruts@, self.collects@)
        &&& items_distinct(self.items@)
        &&& tags_wf(self.tags@, self.tagruts@, self.startags@)
        &&& marks_distinct(self.staritems@)
        &&& forall|i: int| 0 <= i < self.staritems@.len() && (#[trigger] self.staritems@[i]).flag == StarFlag::Done
            ==> self.staritems@[i].reached_done
        &&& rut_stars_wf(self.ruts@, self.starruts@)
    }

    /// Whether an item with id `id` exists.
    pub open spec fn has_item(&self, id: Seq<char>) -> bool {
        item_ids(self.items@).contains(id)
    }

    /// Whether a rut with id `id` exists.
    pub open spec fn has_rut(&self, id: Seq<char>) -> bool {
        rut_ids(self.ruts@).contains(id)
    }

    /// The position of the item with id `id`.
    pub open spec fn item_at(&self, id: Seq<char>) -> int {
        choose|i: int| 0 <= i < self.items@.len() && self.items@[i].id@ == id
    }

    /// The position of the rut with id `id`.
    pub open spec fn rut_at(&self, id: Seq<char>) -> int {
        choose|i: int| 0 <= i < self.ruts@.len() && self.ruts@[i].id@ == id
    }

    /// The position of the collect with id `id`.
    pub open spec fn collect_at(&self, id: Seq<char>) -> int {
        choose|i: int| 0 <= i < self.collects@.len() && self.collects@[i].id@ == id
    }

    /// The position of the item with id `id`, if there is one.
    pub fn find_item(&self, id: &String) -> (r: Option<usize>)
        ensures
            r is Some <==> self.has_item(id@),
            r matches Some(i) ==> i < self.items@.len() && self.items@[i as int].id@ == id@,
    {
        let mut i: usize = 0;
        while i < self.items.len()
            invariant
                i <= self.items@.len(),
                forall|k: int| 0 <= k < i ==> self.items@[k].id@ != id@,
            decreases self.items@.len() - i,
        {
            if self.items[i].id == *id {
                proof {
                    assert(item_ids(self.items@)[i as int] == id@);
                }
                return Some(i);
            }
            i += 1;
        }
        proof {
            assert forall|k: int| 0 <= k < item_ids(self.items@).len() implies item_ids(self.items@)[k] != id@ by {
                assert(self.items@[k].id@ != id@);
            }
        }
        None
    }

    /// The position of the rut with id `id`, if there is one.
    pub fn find_rut(&self, id: &String) -> (r: Option<usize>)
        ensures
            r is Some <==> self.has_rut(id@),
            r matches Some(i) ==> i < self.ruts@.len() && self.ruts@[i as int].id@ == id@,
    {
        let mut i: usize = 0;
        while i < self.ruts.len()
            invariant
                i <= self.ruts@.len(),
                forall|k: int| 0 <= k < i ==> self.ruts@[k].id@ != id@,
            decreases self.ruts@.len() - i,
        {
            if self.ruts[i].id == *id {
                proof {
                    assert(rut_ids(self.ruts@)[i as int] == id@);
                }
                return Some(i);
            }
            i += 1;
        }
        proof {
            assert forall|k: int| 0 <= k < rut_ids(self.ruts@).len() implies rut_ids(self.ruts@)[k] != id@ by {
                assert(self.ruts@[k].id@ != id@);
            }
        }
        None
    }
}

} // verus!
