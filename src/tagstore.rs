//! The invariant of the tag tables and the lemmas that maintain it.

use vstd::prelude::*;
use crate::model::{Tag, TagRut, StarTag};
use crate::store::unique;

verus! {

/// The names of a sequence of tags, in order.
pub open spec fn tag_names(ts: Seq<Tag>) -> Seq<Seq<char>> {
    ts.map_values(|t: Tag| t.tname@)
}

/// Number of stars on the tag named `tname`.
pub open spec fn star_refs(ss: Seq<StarTag>, tname: Seq<char>) -> nat
    decreases ss.len(),
{
    if ss.len() == 0 {
        0
    } else {
        star_refs(ss.drop_last(), tname) + if ss.last().tname@ == tname { 1nat } else { 0nat }
    }
}

/// Number of tags that the user `uname` starred.
pub open spec fn user_stars(ss: Seq<StarTag>, uname: Seq<char>) -> nat
    decreases ss.len(),
{
    if ss.len() == 0 {
        0
    } else {
        user_stars(ss.drop_last(), uname) + if ss.last().uname@ == uname { 1nat } else { 0nat }
    }
}

/// The vote that a tag's counters give.
pub open spec fn vote_of(rut_count: int, star_count: int) -> int {
    rut_count * 2 + star_count
}

/// A tag's counters are not negative and its vote follows from them.
pub open spec fn tag_ok(t: Tag) -> bool {
    &&& 0 <= t.rut_count
    &&& 0 <= t.star_count
    &&& t.vote == vote_of(t.rut_count as int, t.star_count as int)
}

/// Two stars by the same user on the same tag.
pub open spec fn same_star(a: StarTag, b: StarTag) -> bool {
    a.uname@ == b.uname@ && a.tname@ == b.tname@
}

/// Two associations of the same tag with the same rut.
pub open spec fn same_pair(a: TagRut, b: TagRut) -> bool {
    a.tname@ == b.tname@ && a.rut_id@ == b.rut_id@
}

/// The rows of tags, tag-rut associations and tag stars agree.
pub open spec fn tags_wf(ts: Seq<Tag>, trs: Seq<TagRut>, ss: Seq<StarTag>) -> bool {
    &&& unique(tag_names(ts))
    &&& forall|t: int| 0 <= t < ts.len() ==> tag_ok(#[trigger] ts[t]) && ts[t].star_count == star_refs(ss, ts[t].tname@)
    &&& forall|i: int| 0 <= i < ss.len() ==> tag_names(ts).contains((#[trigger] ss[i]).tname@)
    &&& forall|i: int, j: int| 0 <= i < ss.len() && 0 <= j < ss.len() && i != j ==> !same_star(#[trigger] ss[i], #[trigger] ss[j])
    &&& forall|i: int, j: int| 0 <= i < trs.len() && 0 <= j < trs.len() && i != j ==> !same_pair(#[trigger] trs[i], #[trigger] trs[j])
    &&& forall|i: int| 0 <= i < trs.len() ==> 1 <= (#[trigger] trs[i]).count
}

/// Appending a star adds one to its tag's count and none to others.
pub proof fn lemma_star_refs_push(ss: Seq<StarTag>, x: StarTag, tname: Seq<char>)
    ensures
        star_refs(ss.push(x), tname) == star_refs(ss, tname) + if x.tname@ == tname { 1nat } else { 0nat },
{
    assert(ss.push(x).drop_last() =~= ss);
}

/// Removing a star takes one from its tag's count and none from others.
pub proof fn lemma_star_refs_remove(ss: Seq<StarTag>, j: int, tname: Seq<char>)
    requires
        0 <= j < ss.len(),
    ensures
        star_refs(ss, tname) == star_refs(ss.remove(j), tname) + if ss[j].tname@ == tname { 1nat } else { 0nat },
    decreases ss.len(),
{
    if j == ss.len() - 1 {
        assert(ss.remove(j) =~= ss.drop_last());
    } else {
        lemma_star_refs_remove(ss.drop_last(), j, tname);
        assert(ss.remove(j).drop_last() =~= ss.drop_last().remove(j));
        assert(ss.remove(j).last() == ss.last());
    }
}

/// A name that no tag holds carries no star.
pub proof fn lemma_no_stars(ss: Seq<StarTag>, ts: Seq<Tag>, tname: Seq<char>)
    requires
        !tag_names(ts).contains(tname),
        forall|i: int| 0 <= i < ss.len() ==> tag_names(ts).contains((#[trigger] ss[i]).tname@),
    ensures
        star_refs(ss, tname) == 0,
    decreases ss.len(),
{
    if ss.len() > 0 {
        assert(tag_names(ts).contains(ss[ss.len() - 1].tname@));
        lemma_no_stars(ss.drop_last(), ts, tname);
    }
}

} // verus!
