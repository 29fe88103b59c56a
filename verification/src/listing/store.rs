//! What the engine asks of a store, and a store that keeps its rows in memory.

use vstd::prelude::*;
use vstd::std_specs::hash::*;
use crate::database::enum_type::{BusinessStatus, MediaSoucre};
use crate::database::model::{Business, BusinessView, Media, MediaView};
use crate::error::{StoreError, StoreErrorKind};
use crate::listing::loader::{children_of, index_of, indexes};
use crate::listing::predicate::{FilterName, PredicateSetView};
use crate::listing::sampler::{arrange, arranged, lemma_arranged_from_pool, lemma_arranged_map, Order};
use crate::listing::selection::{
    admits,
    composed,
    lemma_absent_filter_admits_more,
    lemma_only_approved,
    ClauseView,
    Selection,
};

verus! {

/// The one question about businesses: which are selected, in what order, and how many
/// at most.
#[derive(Debug, PartialEq, Eq)]
pub struct ParentQuery {
    pub selection: Selection,
    pub order: Order,
    pub limit: u32,
}

/// The one question about media: those of `source` that belong to one of
/// `business_ids`, in the order of the tie-break key, the media's identity ascending.
#[derive(Debug, PartialEq, Eq)]
pub struct ChildQuery {
    pub business_ids: Vec<i32>,
    pub source: MediaSoucre,
}

/// What a store holds, in contracts.
pub struct StoreView {
    pub businesses: Seq<BusinessView>,
    pub medias: Seq<MediaView>,
}

/// The businesses of `store` that `selection` admits, each once, in the store's order.
pub open spec fn admitted(selection: Seq<ClauseView>, store: StoreView) -> Seq<BusinessView> {
    store.businesses.filter(|b: BusinessView| admits(selection, b, store.medias))
}

/// The answer that is owed to a question about businesses.
pub open spec fn parents_of(
    store: StoreView,
    selection: Seq<ClauseView>,
    order: Order,
    limit: nat,
    draws: Seq<u64>,
) -> Seq<BusinessView> {
    arranged(admitted(selection, store), order, limit, draws)
}

/// Whether the identities of `rows` rise strictly.
pub open spec fn businesses_ascend(rows: Seq<BusinessView>) -> bool {
    forall|i: int, j: int| 0 <= i < j < rows.len() ==> rows[i].id < rows[j].id
}

/// Whether the identities of `rows` rise strictly.
pub open spec fn medias_ascend(rows: Seq<MediaView>) -> bool {
    forall|i: int, j: int| 0 <= i < j < rows.len() ==> rows[i].id < rows[j].id
}

/// Whether some business of `rows` has the identity `id`.
pub open spec fn has_business(rows: Seq<BusinessView>, id: i32) -> bool {
    exists|k: int| 0 <= k < rows.len() && (#[trigger] rows[k]).id == id
}

/// Whether some media record of `rows` has the identity `id`.
pub open spec fn has_media_id(rows: Seq<MediaView>, id: i32) -> bool {
    exists|k: int| 0 <= k < rows.len() && (#[trigger] rows[k]).id == id
}

/// Whether a row with the identity `id` belongs at place `p` of `rows`: below all
/// rows with a higher identity, above all with a lower one.
pub open spec fn business_place(rows: Seq<BusinessView>, id: i32, p: int) -> bool {
    &&& 0 <= p <= rows.len()
    &&& forall|q: int| 0 <= q < p ==> (#[trigger] rows[q]).id < id
    &&& forall|q: int| p <= q < rows.len() ==> (#[trigger] rows[q]).id > id
}

/// Whether a row with the identity `id` belongs at place `p` of `rows`.
pub open spec fn media_place(rows: Seq<MediaView>, id: i32, p: int) -> bool {
    &&& 0 <= p <= rows.len()
    &&& forall|q: int| 0 <= q < p ==> (#[trigger] rows[q]).id < id
    &&& forall|q: int| p <= q < rows.len() ==> (#[trigger] rows[q]).id > id
}

/// A store in memory. It keeps businesses and media by identity, lowest first, and
/// no identity twice.
pub struct MemoryStore {
    businesses: Vec<Business>,
    medias: Vec<Media>,
}

impl View for MemoryStore {
    type V = StoreView;

    closed spec fn view(&self) -> StoreView {
        StoreView { businesses: self.businesses.deep_view(), medias: self.medias.deep_view() }
    }
}

impl MemoryStore {
    #[verifier::type_invariant]
    spec fn ordered(self) -> bool {
        businesses_ascend(self.businesses.deep_view()) && medias_ascend(self.medias.deep_view())
    }

    /// The empty store.
    pub fn new() -> (store: MemoryStore)
        ensures
            store@.businesses.len() == 0,
            store@.medias.len() == 0,
    {
        MemoryStore { businesses: Vec::new(), medias: Vec::new() }
    }

    /// How many businesses the store holds.
    pub fn business_count(&self) -> (n: usize)
        ensures
            n == self@.businesses.len(),
    {
        self.businesses.len()
    }

    /// How many media records the store holds.
    pub fn media_count(&self) -> (n: usize)
        ensures
            n == self@.medias.len(),
    {
        self.medias.len()
    }

    /// Puts a business into the store, at its place by identity. An identity that the
    /// store already holds violates a constraint, and leaves the store as it was.
    pub fn insert_business(&mut self, business: Business) -> (r: Result<(), StoreError>)
        ensures
            businesses_ascend(final(self)@.businesses),
            final(self)@.medias == old(self)@.medias,
            has_business(old(self)@.businesses, business.id) ==> r == Err::<(), StoreError>(
                StoreError { kind: StoreErrorKind::ConstraintViolation },
            ) && final(self)@ == old(self)@,
            !has_business(old(self)@.businesses, business.id) ==> r == Ok::<(), StoreError>(())
                && exists|p: int|
                business_place(old(self)@.businesses, business.id, p) && final(self)@.businesses
                    == old(self)@.businesses.insert(p, business@),
    {
        proof {
            use_type_invariant(&*self);
        }
        let ghost rows = self.businesses.deep_view();
        let id = business.id;
        let mut p: usize = 0;
        while p < self.businesses.len() && self.businesses[p].id < id
            invariant
                p <= self.businesses.len(),
                rows == self.businesses.deep_view(),
                forall|q: int| 0 <= q < p ==> (#[trigger] rows[q]).id < id,
            decreases self.businesses.len() - p,
        {
            p += 1;
        }
        if p < self.businesses.len() && self.businesses[p].id == id {
            assert(rows[p as int].id == id);
            return Err(StoreError { kind: StoreErrorKind::ConstraintViolation });
        }
        proof {
            assert forall|q: int| p <= q < rows.len() implies (#[trigger] rows[q]).id > id by {
                if q > p {
                    assert(rows[p as int].id < rows[q].id);
                }
            }
            assert(business_place(rows, id, p as int));
            assert(!has_business(rows, id));
        }
        let ghost row = business@;
        let ghost kept = self.medias.deep_view();
        let mut taken = MemoryStore::new();
        core::mem::swap(self, &mut taken);
        let MemoryStore { businesses: mut businesses, medias } = taken;
        businesses.insert(p, business);
        proof {
            assert(businesses.deep_view() =~= rows.insert(p as int, row));
            assert(medias.deep_view() == kept);
            let after = rows.insert(p as int, row);
            assert forall|i: int, j: int| 0 <= i < j < after.len() implies after[i].id < after[j].id by {
                if i < p && j > p {
                    assert(after[i] == rows[i] && after[j] == rows[j - 1]);
                } else if i == p {
                    assert(after[j] == rows[j - 1]);
                } else if j == p {
                    assert(after[i] == rows[i]);
                } else if j < p {
                    assert(after[i] == rows[i] && after[j] == rows[j]);
                } else {
                    assert(after[i] == rows[i - 1] && after[j] == rows[j - 1]);
                }
            }
        }
        *self = MemoryStore { businesses, medias };
        Ok(())
    }

    /// Puts a media record into the store, at its place by identity. An identity that
    /// the store already holds, or an owner that it does not hold, violates a
    /// constraint, and leaves the store as it was.
    pub fn insert_media(&mut self, media: Media) -> (r: Result<(), StoreError>)
        ensures
            medias_ascend(final(self)@.medias),
            final(self)@.businesses == old(self)@.businesses,
            has_media_id(old(self)@.medias, media.id) || !has_business(
                old(self)@.businesses,
                media.business_id,
            ) ==> r == Err::<(), StoreError>(StoreError { kind: StoreErrorKind::ConstraintViolation })
                && final(self)@ == old(self)@,
            !has_media_id(old(self)@.medias, media.id) && has_business(
                old(self)@.businesses,
                media.business_id,
            ) ==> r == Ok::<(), StoreError>(()) && exists|p: int|
                media_place(old(self)@.medias, media.id, p) && final(self)@.medias == old(
                    self,
                )@.medias.insert(p, media@),
    {
        proof {
            use_type_invariant(&*self);
        }
        let ghost rows = self.medias.deep_view();
        let ghost owners = self.businesses.deep_view();
        let id = media.id;
        let owner = media.business_id;
        let mut b: usize = 0;
        while b < self.businesses.len() && self.businesses[b].id != owner
            invariant
                b <= self.businesses.len(),
                owners == self.businesses.deep_view(),
                forall|q: int| 0 <= q < b ==> (#[trigger] owners[q]).id != owner,
            decreases self.businesses.len() - b,
        {
            b += 1;
        }
        if b >= self.businesses.len() {
            assert(!has_business(owners, owner));
            return Err(StoreError { kind: StoreErrorKind::ConstraintViolation });
        }
        assert(owners[b as int].id == owner);
        let mut p: usize = 0;
        while p < self.medias.len() && self.medias[p].id < id
            invariant
                p <= self.medias.len(),
                rows == self.medias.deep_view(),
                forall|q: int| 0 <= q < p ==> (#[trigger] rows[q]).id < id,
            decreases self.medias.len() - p,
        {
            p += 1;
        }
        if p < self.medias.len() && self.medias[p].id == id {
            assert(rows[p as int].id == id);
            return Err(StoreError { kind: StoreErrorKind::ConstraintViolation });
        }
        proof {
            assert forall|q: int| p <= q < rows.len() implies (#[trigger] rows[q]).id > id by {
                if q > p {
                    assert(rows[p as int].id < rows[q].id);
                }
            }
            assert(media_place(rows, id, p as int));
            assert(!has_media_id(rows, id));
        }
        let ghost row = media@;
        let mut taken = MemoryStore::new();
        core::mem::swap(self, &mut taken);
        let MemoryStore { businesses, medias: mut medias } = taken;
        medias.insert(p, media);
        proof {
            assert(medias.deep_view() =~= rows.insert(p as int, row));
            assert(businesses.deep_view() == owners);
            let after = rows.insert(p as int, row);
            assert forall|i: int, j: int| 0 <= i < j < after.len() implies after[i].id < after[j].id by {
                if i < p && j > p {
                    assert(after[i] == rows[i] && after[j] == rows[j - 1]);
                } else if i == p {
                    assert(after[j] == rows[j - 1]);
                } else if j == p {
                    assert(after[i] == rows[i]);
                } else if j < p {
                    assert(after[i] == rows[i] && after[j] == rows[j]);
                } else {
                    assert(after[i] == rows[i - 1] && after[j] == rows[j - 1]);
                }
            }
        }
        *self = MemoryStore { businesses, medias };
        Ok(())
    }

    /// The businesses that `selection` admits, each once, lowest identity first.
    pub fn select(&self, selection: &Selection) -> (r: Vec<Business>)
        ensures
            r.deep_view() == admitted(selection@, self@),
            businesses_ascend(r.deep_view()),
    {
        proof {
            use_type_invariant(self);
        }
        let ghost rows = self.businesses.deep_view();
        let ghost medias = self.medias.deep_view();
        let ghost keep = |b: BusinessView| admits(selection@, b, medias);
        let mut out: Vec<Business> = Vec::new();
        let mut i: usize = 0;
        proof {
            reveal(Seq::filter);
            assert(rows.take(0) =~= Seq::<BusinessView>::empty());
            assert(out.deep_view() =~= Seq::<BusinessView>::empty());
        }
        while i < self.businesses.len()
            invariant
                i <= self.businesses.len(),
                rows == self.businesses.deep_view(),
                medias == self.medias.deep_view(),
                keep == |b: BusinessView| admits(selection@, b, medias),
                out.deep_view() == rows.take(i as int).filter(keep),
            decreases self.businesses.len() - i,
        {
            let business = &self.businesses[i];
            proof {
                reveal(Seq::filter);
                assert(rows.take(i + 1).drop_last() =~= rows.take(i as int));
                assert(rows.take(i + 1).last() == business@);
            }
            if selection.admits(business, &self.medias) {
                let ghost held = out.deep_view();
                out.push(business.clone());
                assert(out.deep_view() =~= held.push(business@));
            }
            i += 1;
        }
        proof {
            assert(rows.take(i as int) =~= rows);
            lemma_business_filter_ascends(rows, keep);
        }
        out
    }

    /// Answers a question about businesses: those that the selection admits, put in
    /// the order asked for and cut to the limit. The filters come first: a random
    /// listing draws from the businesses that are admitted, and from no others.
    /// `draws` holds the random numbers to draw by.
    pub fn query_parents(&self, query: &ParentQuery, draws: &Vec<u64>) -> (r: Vec<Business>)
        ensures
            r.deep_view() == parents_of(self@, query.selection@, query.order, query.limit as nat, draws@),
            r.len() <= query.limit,
            forall|i: int|
                0 <= i < r.len() ==> admits(query.selection@, (#[trigger] r[i])@, self@.medias),
            forall|i: int, j: int| 0 <= i < j < r.len() ==> r[i].id != r[j].id,
    {
        let pool = self.select(&query.selection);
        let ghost admitted_rows = pool.deep_view();
        let ghost deep = |b: Business| b.deep_view();
        let ghost whole = pool@;
        let out = arrange(pool, query.order, query.limit as usize, draws);
        proof {
            let limit = query.limit as nat;
            assert(admitted_rows =~= whole.map_values(deep));
            lemma_arranged_map(whole, deep, query.order, limit, draws@);
            assert(out.deep_view() =~= out@.map_values(deep));
            lemma_arranged_from_pool(admitted_rows, query.order, limit, draws@);
            lemma_answer_is_clean(self@, query.selection@, query.order, limit, draws@);
            lemma_answer_has_no_twins(admitted_rows, query.order, limit, draws@);
            assert forall|i: int| 0 <= i < out.len() implies admits(
                query.selection@,
                (#[trigger] out[i])@,
                self@.medias,
            ) by {
                assert(out.deep_view()[i] == out[i]@);
            }
            assert forall|i: int, j: int| 0 <= i < j < out.len() implies out[i].id != out[j].id by {
                assert(out.deep_view()[i] == out[i]@);
                assert(out.deep_view()[j] == out[j]@);
            }
        }
        out
    }

    /// Answers a question about media with one pass over the store: the media of
    /// `source` that belong to one of `business_ids`, lowest identity first.
    pub fn query_children(&self, business_ids: &Vec<i32>, source: MediaSoucre) -> (r: Vec<Media>)
        ensures
            r.deep_view() == children_of(self@.medias, business_ids@, source),
            medias_ascend(r.deep_view()),
    {
        broadcast use group_hash_axioms;

        proof {
            use_type_invariant(self);
        }
        let index = index_of(business_ids);
        let ghost ids = business_ids@;
        let ghost rows = self.medias.deep_view();
        let ghost keep = |m: MediaView| ids.contains(m.business_id) && m.source == source;
        let mut out: Vec<Media> = Vec::new();
        let mut i: usize = 0;
        proof {
            reveal(Seq::filter);
            assert(rows.take(0) =~= Seq::<MediaView>::empty());
            assert(out.deep_view() =~= Seq::<MediaView>::empty());
        }
        while i < self.medias.len()
            invariant
                i <= self.medias.len(),
                rows == self.medias.deep_view(),
                ids == business_ids@,
                indexes(index@, ids),
                keep == |m: MediaView| ids.contains(m.business_id) && m.source == source,
                out.deep_view() == rows.take(i as int).filter(keep),
            decreases self.medias.len() - i,
        {
            let media = &self.medias[i];
            proof {
                reveal(Seq::filter);
                assert(rows.take(i + 1).drop_last() =~= rows.take(i as int));
                assert(rows.take(i + 1).last() == media@);
            }
            if media.source == source && index.contains_key(&media.business_id) {
                let ghost held = out.deep_view();
                out.push(media.clone());
                assert(out.deep_view() =~= held.push(media@));
            }
            i += 1;
        }
        proof {
            assert(rows.take(i as int) =~= rows);
            lemma_media_filter_ascends(rows, keep);
        }
        out
    }
}

/// Leaving businesses out keeps the rest in rising order.
pub proof fn lemma_business_filter_ascends(rows: Seq<BusinessView>, keep: spec_fn(BusinessView) -> bool)
    requires
        businesses_ascend(rows),
    ensures
        businesses_ascend(rows.filter(keep)),
        forall|i: int| 0 <= i < rows.filter(keep).len() ==> rows.contains(#[trigger] rows.filter(keep)[i]),
    decreases rows.len(),
{
    reveal(Seq::filter);
    let out = rows.filter(keep);
    if rows.len() > 0 {
        let rest = rows.drop_last();
        lemma_business_filter_ascends(rest, keep);
        let held = rest.filter(keep);
        assert forall|i: int| 0 <= i < out.len() implies rows.contains(#[trigger] out[i]) by {
            if i < held.len() {
                assert(out[i] == held[i]);
                assert(rest.contains(held[i]));
                let k = choose|k: int| 0 <= k < rest.len() && rest[k] == held[i];
                assert(rows[k] == held[i]);
            } else {
                assert(out[i] == rows[rows.len() - 1]);
            }
        }
        assert forall|i: int, j: int| 0 <= i < j < out.len() implies out[i].id < out[j].id by {
            if j < held.len() {
                assert(out[i] == held[i] && out[j] == held[j]);
            } else {
                assert(out[i] == held[i]);
                assert(rest.contains(held[i]));
                let k = choose|k: int| 0 <= k < rest.len() && rest[k] == held[i];
                assert(rows[k].id < rows[rows.len() - 1].id);
            }
        }
    }
}

/// Leaving media out keeps the rest in rising order.
pub proof fn lemma_media_filter_ascends(rows: Seq<MediaView>, keep: spec_fn(MediaView) -> bool)
    requires
        medias_ascend(rows),
    ensures
        medias_ascend(rows.filter(keep)),
        forall|i: int| 0 <= i < rows.filter(keep).len() ==> rows.contains(#[trigger] rows.filter(keep)[i]),
    decreases rows.len(),
{
    reveal(Seq::filter);
    let out = rows.filter(keep);
    if rows.len() > 0 {
        let rest = rows.drop_last();
        lemma_media_filter_ascends(rest, keep);
        let held = rest.filter(keep);
        assert forall|i: int| 0 <= i < out.len() implies rows.contains(#[trigger] out[i]) by {
            if i < held.len() {
                assert(out[i] == held[i]);
                assert(rest.contains(held[i]));
                let k = choose|k: int| 0 <= k < rest.len() && rest[k] == held[i];
                assert(rows[k] == held[i]);
            } else {
                assert(out[i] == rows[rows.len() - 1]);
            }
        }
        assert forall|i: int, j: int| 0 <= i < j < out.len() implies out[i].id < out[j].id by {
            if j < held.len() {
                assert(out[i] == held[i] && out[j] == held[j]);
            } else {
                assert(out[i] == held[i]);
                assert(rest.contains(held[i]));
                let k = choose|k: int| 0 <= k < rest.len() && rest[k] == held[i];
                assert(rows[k].id < rows[rows.len() - 1].id);
            }
        }
    }
}

/// Every business of an answer is one that the selection admits, and one of the
/// store's.
pub proof fn lemma_answer_is_clean(
    store: StoreView,
    selection: Seq<ClauseView>,
    order: Order,
    limit: nat,
    draws: Seq<u64>,
)
    ensures
        forall|i: int|
            0 <= i < parents_of(store, selection, order, limit, draws).len() ==> admits(
                selection,
                #[trigger] parents_of(store, selection, order, limit, draws)[i],
                store.medias,
            ) && store.businesses.contains(parents_of(store, selection, order, limit, draws)[i]),
{
    let keep = |b: BusinessView| admits(selection, b, store.medias);
    let pool = admitted(selection, store);
    let out = parents_of(store, selection, order, limit, draws);
    lemma_arranged_from_pool(pool, order, limit, draws);
    broadcast use vstd::seq_lib::group_filter_ensures;

    assert forall|i: int| 0 <= i < out.len() implies admits(selection, #[trigger] out[i], store.medias)
        && store.businesses.contains(out[i]) by {
        assert(pool.contains(out[i]));
        let k = choose|k: int| 0 <= k < pool.len() && pool[k] == out[i];
        assert(keep(pool[k]));
        store.businesses.lemma_filter_contains_rev(keep, out[i]);
    }
}

/// Where no two businesses of a pool share an identity, no two of an answer drawn
/// from it do.
pub proof fn lemma_answer_has_no_twins(pool: Seq<BusinessView>, order: Order, limit: nat, draws: Seq<u64>)
    requires
        businesses_ascend(pool),
    ensures
        forall|i: int, j: int|
            0 <= i < j < arranged(pool, order, limit, draws).len() ==> arranged(
                pool,
                order,
                limit,
                draws,
            )[i].id != arranged(pool, order, limit, draws)[j].id,
{
    let out = arranged(pool, order, limit, draws);
    match order {
        Order::IdAscending => {
            assert forall|i: int, j: int| 0 <= i < j < out.len() implies out[i].id != out[j].id by {
                assert(out[i] == pool[i] && out[j] == pool[j]);
            }
        },
        Order::Random => {
            crate::listing::sampler::lemma_drawn_is_sample(pool, draws, limit);
            assert(pool.no_duplicates()) by {
                assert forall|a: int, b: int| 0 <= a < pool.len() && 0 <= b < pool.len() && a
                    != b implies pool[a] != pool[b] by {
                    if a < b {
                        assert(pool[a].id < pool[b].id);
                    } else {
                        assert(pool[b].id < pool[a].id);
                    }
                }
            }
            pool.lemma_multiset_has_no_duplicates();
            assert forall|x: BusinessView| out.to_multiset().contains(x) implies out.to_multiset().count(x)
                == 1 by {
                assert(out.to_multiset().count(x) <= pool.to_multiset().count(x));
                assert(pool.to_multiset().contains(x));
            }
            out.lemma_multiset_has_no_duplicates_conv();
            lemma_arranged_from_pool(pool, order, limit, draws);
            assert forall|i: int, j: int| 0 <= i < j < out.len() implies out[i].id != out[j].id by {
                assert(pool.contains(out[i]));
                assert(pool.contains(out[j]));
                let a = choose|a: int| 0 <= a < pool.len() && pool[a] == out[i];
                let b = choose|b: int| 0 <= b < pool.len() && pool[b] == out[j];
                assert(out[i] != out[j]);
                if a < b {
                    assert(pool[a].id < pool[b].id);
                } else if b < a {
                    assert(pool[b].id < pool[a].id);
                }
            }
        },
    }
}

/// Whatever the predicate set holds and however the listing is ordered and cut, every
/// business of the answer is approved.
pub proof fn lemma_listed_are_approved(
    store: StoreView,
    ps: PredicateSetView,
    order: Order,
    limit: nat,
    draws: Seq<u64>,
)
    ensures
        forall|i: int|
            0 <= i < parents_of(store, composed(ps), order, limit, draws).len() ==> (
            #[trigger] parents_of(store, composed(ps), order, limit, draws)[i]).status
                == BusinessStatus::Approved,
{
    let out = parents_of(store, composed(ps), order, limit, draws);
    lemma_answer_is_clean(store, composed(ps), order, limit, draws);
    assert forall|i: int| 0 <= i < out.len() implies (#[trigger] out[i]).status
        == BusinessStatus::Approved by {
        lemma_only_approved(ps, out[i], store.medias);
    }
}

/// A filter without a value is no constraint: the businesses selected under a
/// predicate set, whatever value it gives to a filter, are among those selected
/// under the same set without that filter.
pub proof fn lemma_absent_filter_selects_more(store: StoreView, ps: PredicateSetView, filter: FilterName)
    ensures
        forall|b: BusinessView|
            admitted(composed(ps), store).contains(b) ==> #[trigger] admitted(
                composed(ps.without(filter)),
                store,
            ).contains(b),
{
    broadcast use vstd::seq_lib::group_filter_ensures;

    let narrow = |b: BusinessView| admits(composed(ps), b, store.medias);
    let wide = |b: BusinessView| admits(composed(ps.without(filter)), b, store.medias);
    assert forall|b: BusinessView| admitted(composed(ps), store).contains(b) implies #[trigger] admitted(
        composed(ps.without(filter)),
        store,
    ).contains(b) by {
        store.businesses.lemma_filter_contains_rev(narrow, b);
        let k = choose|k: int|
            0 <= k < admitted(composed(ps), store).len() && admitted(composed(ps), store)[k] == b;
        assert(narrow(admitted(composed(ps), store)[k]));
        lemma_absent_filter_admits_more(ps, filter, b, store.medias);
        let at = choose|at: int| 0 <= at < store.businesses.len() && store.businesses[at] == b;
        assert(wide(store.businesses[at]));
    }
}

} // verus!
