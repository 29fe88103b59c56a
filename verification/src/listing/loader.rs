//! The batched loader: the media of a whole batch of businesses, partitioned by
//! business and capped for each, from the answer to one query.

use vstd::prelude::*;
use vstd::std_specs::hash::*;
use std::collections::HashMap;
use crate::database::enum_type::MediaSoucre;
use crate::database::model::{Media, MediaView};
use crate::error::InternalConsistencyError;
use crate::listing::sampler::first;

verus! {

/// The media of one business, in the order of the tie-break key.
#[derive(Debug, PartialEq, Eq)]
pub struct MediaGroup {
    pub business_id: i32,
    pub medias: Vec<Media>,
}

/// What a `MediaGroup` is in contracts.
pub struct MediaGroupView {
    pub business_id: i32,
    pub medias: Seq<MediaView>,
}

impl DeepView for MediaGroup {
    type V = MediaGroupView;

    open spec fn deep_view(&self) -> MediaGroupView {
        MediaGroupView { business_id: self.business_id, medias: self.medias.deep_view() }
    }
}

impl View for MediaGroup {
    type V = MediaGroupView;

    open spec fn view(&self) -> MediaGroupView {
        self.deep_view()
    }
}

/// The media that one query for a whole batch asks for: those of `source` that
/// belong to one of the businesses `ids`, in the order in which the store keeps them.
pub open spec fn children_of(medias: Seq<MediaView>, ids: Seq<i32>, source: MediaSoucre) -> Seq<MediaView> {
    medias.filter(|m: MediaView| ids.contains(m.business_id) && m.source == source)
}

/// The media among `children` that belong to `business_id`, in their order.
pub open spec fn belonging(children: Seq<MediaView>, business_id: i32) -> Seq<MediaView> {
    children.filter(|m: MediaView| m.business_id == business_id)
}

/// The group of `business_id`: the first `cap` of its media.
pub open spec fn group_of(children: Seq<MediaView>, business_id: i32, cap: nat) -> Seq<MediaView> {
    first(belonging(children, business_id), cap)
}

/// One group for each business of the batch, in the batch's order. A business
/// without media has an empty group.
pub open spec fn grouped(ids: Seq<i32>, children: Seq<MediaView>, cap: nat) -> Seq<MediaGroupView> {
    Seq::new(
        ids.len(),
        |i: int| MediaGroupView { business_id: ids[i], medias: group_of(children, ids[i], cap) },
    )
}

/// The business of the first of `children` that belongs to none of `ids`.
pub open spec fn stray(ids: Seq<i32>, children: Seq<MediaView>) -> Option<i32>
    decreases children.len(),
{
    if children.len() == 0 {
        None
    } else {
        match stray(ids, children.drop_last()) {
            Some(id) => Some(id),
            None => if ids.contains(children.last().business_id) {
                None
            } else {
                Some(children.last().business_id)
            },
        }
    }
}

/// Whether `p` is the first place at which `id` stands in `ids`.
pub open spec fn is_first_at(ids: Seq<i32>, id: i32, p: int) -> bool {
    &&& 0 <= p < ids.len()
    &&& ids[p] == id
    &&& forall|q: int| 0 <= q < p ==> ids[q] != id
}

/// Whether `index` leads from each identity in `ids`, and from no other, to the first
/// place at which it stands.
pub open spec fn indexes(index: Map<i32, usize>, ids: Seq<i32>) -> bool {
    &&& forall|id: i32| #[trigger] index.contains_key(id) <==> ids.contains(id)
    &&& forall|id: i32| #[trigger] index.contains_key(id) ==> is_first_at(ids, id, index[id] as int)
}

/// Builds the map from identity to first place in one pass over `ids`.
pub fn index_of(ids: &Vec<i32>) -> (index: HashMap<i32, usize>)
    ensures
        indexes(index@, ids@),
{
    broadcast use group_hash_axioms;

    let mut index: HashMap<i32, usize> = HashMap::new();
    let mut i: usize = 0;
    assert(ids@.take(0) =~= Seq::<i32>::empty());
    while i < ids.len()
        invariant
            i <= ids.len(),
            indexes(index@, ids@.take(i as int)),
        decreases ids.len() - i,
    {
        let id = ids[i];
        let ghost before = index@;
        let ghost seen = ids@.take(i as int);
        let ghost next = ids@.take(i + 1);
        let known = index.contains_key(&id);
        if !known {
            index.insert(id, i);
        }
        proof {
            assert(next =~= seen.push(id));
            assert forall|x: i32| #[trigger] index@.contains_key(x) <==> next.contains(x) by {
                if next.contains(x) {
                    let q = choose|q: int| 0 <= q < next.len() && next[q] == x;
                    if q < i {
                        assert(seen[q] == x);
                        assert(seen.contains(x));
                        assert(before.contains_key(x));
                    }
                }
                if index@.contains_key(x) {
                    if x == id {
                        assert(next[i as int] == x);
                    } else {
                        assert(before.contains_key(x));
                        let q = choose|q: int| 0 <= q < seen.len() && seen[q] == x;
                        assert(next[q] == x);
                    }
                }
            }
            assert forall|x: i32| #[trigger] index@.contains_key(x) implies is_first_at(
                next,
                x,
                index@[x] as int,
            ) by {
                if before.contains_key(x) {
                    assert(is_first_at(seen, x, before[x] as int));
                    assert(index@[x] == before[x]);
                    assert forall|q: int| 0 <= q < index@[x] implies next[q] != x by {
                        assert(next[q] == seen[q]);
                    }
                    assert(next[index@[x] as int] == seen[index@[x] as int]);
                } else {
                    assert(x == id);
                    assert(!seen.contains(x));
                    assert forall|q: int| 0 <= q < i implies next[q] != x by {
                        assert(seen[q] == next[q]);
                        assert(seen.contains(seen[q]));
                    }
                }
            }
        }
        i += 1;
    }
    assert(ids@.take(i as int) =~= ids@);
    index
}

/// Copies a list of media.
pub fn copy_medias(medias: &Vec<Media>) -> (r: Vec<Media>)
    ensures
        r.deep_view() == medias.deep_view(),
{
    let mut out: Vec<Media> = Vec::new();
    let mut i: usize = 0;
    while i < medias.len()
        invariant
            i <= medias.len(),
            out.len() == i,
            forall|k: int| 0 <= k < i ==> out[k]@ == medias[k]@,
        decreases medias.len() - i,
    {
        out.push(medias[i].clone());
        i += 1;
    }
    assert(out.deep_view() =~= medias.deep_view());
    out
}

/// Partitions the media of a batch by business and keeps the first
/// `per_business_cap` of each group, in one pass over `children`.
///
/// `children` is the answer to the batch's one media query, in the order of the
/// tie-break key; that order decides which media survive the cap. The groups come
/// in the order of `business_ids`, one for each place, empty where a business has no
/// media. A child that belongs to none of the businesses is never dropped in silence:
/// the first such child fails the whole batch.
pub fn group_and_cap(business_ids: &Vec<i32>, children: &Vec<Media>, per_business_cap: usize) -> (r:
    Result<Vec<MediaGroup>, InternalConsistencyError>)
    ensures
        match stray(business_ids@, children.deep_view()) {
            Some(id) => r == Err::<Vec<MediaGroup>, InternalConsistencyError>(
                InternalConsistencyError::UnknownBusiness { business_id: id },
            ),
            None => r matches Ok(groups) && groups.deep_view() == grouped(
                business_ids@,
                children.deep_view(),
                per_business_cap as nat,
            ),
        },
{
    broadcast use group_hash_axioms;

    let ghost ids = business_ids@;
    let ghost all = children.deep_view();
    let ghost cap = per_business_cap as nat;
    let index = index_of(business_ids);
    let n = business_ids.len();

    let mut groups: Vec<MediaGroup> = Vec::new();
    let mut i: usize = 0;
    while i < n
        invariant
            i <= n,
            n == business_ids.len(),
            groups.len() == i,
            forall|p: int|
                0 <= p < i ==> (#[trigger] groups[p]).business_id == business_ids[p]
                    && groups[p].medias@.len() == 0,
        decreases n - i,
    {
        groups.push(MediaGroup { business_id: business_ids[i], medias: Vec::new() });
        i += 1;
    }

    let mut k: usize = 0;
    assert(all.take(0) =~= Seq::<MediaView>::empty());
    assert forall|p: int| 0 <= p < n implies (#[trigger] groups[p]).medias.deep_view() == group_of(
        all.take(0),
        ids[p],
        cap,
    ) by {
        reveal(Seq::filter);
        assert(groups[p].medias.deep_view() =~= Seq::<MediaView>::empty());
        assert(belonging(all.take(0), ids[p]) =~= Seq::<MediaView>::empty());
    }
    while k < children.len()
        invariant
            k <= children.len(),
            n == business_ids.len(),
            ids == business_ids@,
            all == children.deep_view(),
            cap == per_business_cap as nat,
            indexes(index@, ids),
            groups.len() == n,
            stray(ids, all.take(k as int)) is None,
            forall|p: int| 0 <= p < n ==> (#[trigger] groups[p]).business_id == ids[p],
            forall|p: int|
                0 <= p < n && is_first_at(ids, ids[p], p) ==> (#[trigger] groups[p]).medias.deep_view()
                    == group_of(all.take(k as int), ids[p], cap),
            forall|p: int|
                0 <= p < n && !is_first_at(ids, ids[p], p) ==> (#[trigger] groups[p]).medias@.len()
                    == 0,
        decreases children.len() - k,
    {
        let child = &children[k];
        let owner = child.business_id;
        let ghost before = groups@;
        proof {
            assert(all[k as int] == child@);
            assert(all.take(k + 1).drop_last() =~= all.take(k as int));
            assert(all.take(k + 1).last() == all[k as int]);
        }
        match index.get(&owner) {
            None => {
                proof {
                    assert(!ids.contains(owner));
                    assert(stray(ids, all.take(k + 1)) == Some(owner));
                    lemma_stray_stays(ids, all, k + 1);
                }
                return Err(InternalConsistencyError::UnknownBusiness { business_id: owner });
            },
            Some(place) => {
                let p = *place;
                proof {
                    assert(index@.contains_key(owner));
                    assert(is_first_at(ids, owner, p as int));
                    lemma_group_step(all, k as int, owner, cap);
                }
                if groups[p].medias.len() < per_business_cap {
                    let ghost held = groups[p as int].medias.deep_view();
                    groups[p].medias.push(child.clone());
                    proof {
                        assert(groups[p as int].medias.deep_view() =~= held.push(child@));
                    }
                }
                proof {
                    assert forall|q: int| 0 <= q < n && is_first_at(ids, ids[q], q) implies (
                    #[trigger] groups[q]).medias.deep_view() == group_of(
                        all.take(k + 1),
                        ids[q],
                        cap,
                    ) by {
                        if q != p {
                            assert(groups[q] == before[q]);
                            assert(ids[q] != owner);
                            lemma_group_step(all, k as int, ids[q], cap);
                        }
                    }
                    assert forall|q: int| 0 <= q < n && !is_first_at(ids, ids[q], q) implies (
                    #[trigger] groups[q]).medias@.len() == 0 by {
                        assert(q != p);
                        assert(groups[q] == before[q]);
                    }
                    assert forall|q: int| 0 <= q < n implies (#[trigger] groups[q]).business_id
                        == ids[q] by {
                        if q != p {
                            assert(groups[q] == before[q]);
                        }
                    }
                }
            },
        }
        k += 1;
    }
    assert(all.take(k as int) =~= all);

    let mut i: usize = 0;
    while i < n
        invariant
            i <= n,
            n == business_ids.len(),
            ids == business_ids@,
            indexes(index@, ids),
            groups.len() == n,
            forall|p: int| 0 <= p < n ==> (#[trigger] groups[p]).business_id == ids[p],
            forall|p: int|
                0 <= p < n && (p < i || is_first_at(ids, ids[p], p)) ==> (
                #[trigger] groups[p]).medias.deep_view() == group_of(all, ids[p], cap),
        decreases n - i,
    {
        let ghost before = groups@;
        match index.get(&business_ids[i]) {
            None => {
                proof {
                    assert(ids.contains(ids[i as int]));
                    assert(false);
                }
            },
            Some(place) => {
                let p = *place;
                assert(is_first_at(ids, ids[i as int], p as int));
                if p != i {
                    let copy = copy_medias(&groups[p].medias);
                    groups[i].medias = copy;
                    proof {
                        assert forall|q: int|
                            0 <= q < n && (q < i + 1 || is_first_at(ids, ids[q], q)) implies (
                        #[trigger] groups[q]).medias.deep_view() == group_of(all, ids[q], cap) by {
                            if q != i {
                                assert(groups[q] == before[q]);
                            }
                        }
                        assert forall|q: int| 0 <= q < n implies (#[trigger] groups[q]).business_id
                            == ids[q] by {
                            if q != i {
                                assert(groups[q] == before[q]);
                            }
                        }
                    }
                }
            },
        }
        i += 1;
    }
    assert(groups.deep_view() =~= grouped(ids, all, cap));
    Ok(groups)
}

/// A stray child in a prefix of the children is the stray child of all of them.
pub proof fn lemma_stray_stays(ids: Seq<i32>, children: Seq<MediaView>, n: int)
    requires
        0 <= n <= children.len(),
        stray(ids, children.take(n)) is Some,
    ensures
        stray(ids, children) == stray(ids, children.take(n)),
    decreases children.len() - n,
{
    if n == children.len() {
        assert(children.take(n) =~= children);
    } else {
        assert(children.take(n + 1).drop_last() =~= children.take(n));
        lemma_stray_stays(ids, children, n + 1);
    }
}

/// No child is stray exactly when every child belongs to a business of the batch.
pub proof fn lemma_stray_none(ids: Seq<i32>, children: Seq<MediaView>)
    ensures
        stray(ids, children) is None <==> forall|k: int|
            0 <= k < children.len() ==> ids.contains((#[trigger] children[k]).business_id),
    decreases children.len(),
{
    if children.len() > 0 {
        lemma_stray_none(ids, children.drop_last());
        if stray(ids, children) is None {
            assert forall|k: int| 0 <= k < children.len() implies ids.contains(
                (#[trigger] children[k]).business_id,
            ) by {
                if k < children.len() - 1 {
                    assert(children.drop_last()[k] == children[k]);
                }
            }
        } else {
            if stray(ids, children.drop_last()) is Some {
                let k = choose|k: int|
                    0 <= k < children.drop_last().len() && !ids.contains(
                        (#[trigger] children.drop_last()[k]).business_id,
                    );
                assert(children[k] == children.drop_last()[k]);
            } else {
                assert(children[children.len() - 1] == children.last());
            }
        }
    }
}

/// Among the media that a query for a whole batch gives, those of one business are
/// what a query for that business alone gives.
pub proof fn lemma_belonging_of_batch(medias: Seq<MediaView>, ids: Seq<i32>, source: MediaSoucre, id: i32)
    requires
        ids.contains(id),
    ensures
        belonging(children_of(medias, ids, source), id) == children_of(medias, seq![id], source),
    decreases medias.len(),
{
    reveal(Seq::filter);
    if medias.len() > 0 {
        let x = medias.last();
        let rest = medias.drop_last();
        lemma_belonging_of_batch(rest, ids, source, id);
        assert(seq![id][0] == id);
        assert(seq![id].contains(x.business_id) <==> x.business_id == id);
        if ids.contains(x.business_id) && x.source == source {
            let held = children_of(rest, ids, source);
            assert(held.push(x).drop_last() =~= held);
            assert(held.push(x).last() == x);
        }
    }
}

/// The media that a query for a batch gives all belong to the batch.
pub proof fn lemma_children_of_batch_belong(medias: Seq<MediaView>, ids: Seq<i32>, source: MediaSoucre)
    ensures
        stray(ids, children_of(medias, ids, source)) is None,
{
    broadcast use vstd::seq_lib::group_filter_ensures;

    let found = children_of(medias, ids, source);
    lemma_stray_none(ids, found);
}

/// Loading the media of a batch with one query changes nothing but the number of
/// queries: the group of each business is the group that a query for that business
/// alone would have given.
pub proof fn lemma_batched_load_equivalence(
    medias: Seq<MediaView>,
    ids: Seq<i32>,
    source: MediaSoucre,
    cap: nat,
    i: int,
)
    requires
        0 <= i < ids.len(),
    ensures
        stray(ids, children_of(medias, ids, source)) is None,
        stray(seq![ids[i]], children_of(medias, seq![ids[i]], source)) is None,
        grouped(ids, children_of(medias, ids, source), cap)[i] == grouped(
            seq![ids[i]],
            children_of(medias, seq![ids[i]], source),
            cap,
        )[0],
{
    let id = ids[i];
    lemma_children_of_batch_belong(medias, ids, source);
    lemma_children_of_batch_belong(medias, seq![id], source);
    assert(ids.contains(id));
    assert(seq![id][0] == id);
    assert(seq![id].contains(id));
    lemma_belonging_of_batch(medias, ids, source, id);
    lemma_belonging_of_batch(medias, seq![id], source, id);
}

/// What one more child does to the group of one business.
pub proof fn lemma_group_step(children: Seq<MediaView>, k: int, id: i32, cap: nat)
    requires
        0 <= k < children.len(),
    ensures
        belonging(children.take(k + 1), id) == if children[k].business_id == id {
            belonging(children.take(k), id).push(children[k])
        } else {
            belonging(children.take(k), id)
        },
        group_of(children.take(k + 1), id, cap) == if children[k].business_id == id && group_of(
            children.take(k),
            id,
            cap,
        ).len() < cap {
            group_of(children.take(k), id, cap).push(children[k])
        } else {
            group_of(children.take(k), id, cap)
        },
{
    reveal(Seq::filter);
    assert(children.take(k + 1).drop_last() =~= children.take(k));
    assert(children.take(k + 1).last() == children[k]);
    let held = belonging(children.take(k), id);
    if children[k].business_id == id {
        if held.len() < cap {
            assert(first(held.push(children[k]), cap) =~= first(held, cap).push(children[k]));
        } else {
            assert(first(held.push(children[k]), cap) =~= first(held, cap));
        }
    }
}

} // verus!
