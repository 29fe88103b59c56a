//! The listing request: what to ask the store, in which order, and what to make of
//! its answers.
//!
//! A request asks the store twice at most, whatever the size of the batch: once for
//! the businesses, then once for the media of all of them. The second question
//! depends on the first answer, so whoever talks to the store goes back and forth
//! with `begin` and `advance`; `list` does so against a store in memory.

use vstd::prelude::*;
use crate::database::enum_type::MediaSoucre;
use crate::database::model::{Business, BusinessView, Media, MediaView};
use crate::error::{InternalConsistencyError, ListError, StoreError, ValidationError};
use crate::listing::assembler::{
    assemble,
    batch_ids,
    foreign,
    group_keys,
    lemma_foreign_none,
    lemma_medias_for_first,
    medias_for,
    rows_of,
    shown_business,
    shown_media,
    RandBusiessWithMedias,
    RowView,
};
use crate::listing::loader::{
    children_of,
    group_and_cap,
    group_of,
    grouped,
    is_first_at,
    lemma_belonging_of_batch,
    lemma_children_of_batch_belong,
    stray,
};
use crate::listing::predicate::{entries_view, folded, PredicateSet, PredicateSetView};
use crate::listing::sampler::{first, Order};
use crate::listing::selection::{compose, composed};
use crate::listing::store::{parents_of, ChildQuery, MemoryStore, ParentQuery, StoreView};

verus! {

/// How many media a row of a listing holds at most.
pub const MEDIAS_PER_BUSINESS: usize = 3;

/// Where a request stands.
#[derive(Debug, PartialEq, Eq)]
pub enum ListState {
    /// The businesses were asked for.
    AwaitingParents,
    /// The businesses are here, and their media were asked for.
    AwaitingChildren { parents: Vec<Business> },
    /// The request has ended, with a listing or with a failure.
    Finished,
}

/// What the store said.
#[derive(Debug, PartialEq, Eq)]
pub enum StoreAnswer {
    Parents(Vec<Business>),
    Children(Vec<Media>),
    Failed(StoreError),
}

/// What is to be done next.
#[derive(Debug, PartialEq, Eq)]
pub enum NextStep {
    /// Ask the store for businesses, and come back with its answer.
    AskParents(ParentQuery),
    /// Ask the store for media, and come back with its answer.
    AskChildren(ChildQuery),
    /// Hand the listing to the caller.
    Deliver(Vec<RandBusiessWithMedias>),
    /// Hand the failure to the caller. No part of a listing goes with it.
    Fail(ListError),
}

/// The order that a request asks for.
pub open spec fn order_for(sample: bool) -> Order {
    if sample {
        Order::Random
    } else {
        Order::IdAscending
    }
}

/// The rows that a batch and the answer to its media query make: each business with
/// the first media of its own.
pub open spec fn loaded(parents: Seq<BusinessView>, children: Seq<MediaView>) -> Seq<RowView> {
    Seq::new(
        parents.len(),
        |i: int|
            RowView {
                business: shown_business(parents[i]),
                medias: group_of(children, parents[i].id, MEDIAS_PER_BUSINESS as nat).map_values(
                    |m: MediaView| shown_media(m),
                ),
            },
    )
}

/// The listing that a store owes to a request, stated business by business: the
/// businesses that the store answers with, each with the first photos that a query
/// for that business alone would give.
pub open spec fn listing(
    store: StoreView,
    ps: PredicateSetView,
    order: Order,
    limit: nat,
    draws: Seq<u64>,
) -> Seq<RowView> {
    let parents = parents_of(store, composed(ps), order, limit, draws);
    Seq::new(
        parents.len(),
        |i: int|
            RowView {
                business: shown_business(parents[i]),
                medias: first(
                    children_of(store.medias, seq![parents[i].id], MediaSoucre::Photo),
                    MEDIAS_PER_BUSINESS as nat,
                ).map_values(|m: MediaView| shown_media(m)),
            },
    )
}

/// What `advance` owes for a state and an answer.
pub open spec fn advanced(state: ListState, answer: StoreAnswer, next: ListState, step: NextStep) -> bool {
    match (state, answer) {
        (ListState::Finished, _) => next is Finished && step == NextStep::Fail(
            ListError::Internal(InternalConsistencyError::UnexpectedAnswer),
        ),
        (_, StoreAnswer::Failed(e)) => next is Finished && step == NextStep::Fail(ListError::Store(e)),
        (ListState::AwaitingParents, StoreAnswer::Parents(parents)) => if parents.len() == 0 {
            next is Finished && (step matches NextStep::Deliver(rows) && rows.len() == 0)
        } else {
            &&& next matches ListState::AwaitingChildren { parents: held }
            &&& held.deep_view() == parents.deep_view()
            &&& step matches NextStep::AskChildren(q)
            &&& q.business_ids@ == batch_ids(parents.deep_view())
            &&& q.source == MediaSoucre::Photo
        },
        (ListState::AwaitingChildren { parents }, StoreAnswer::Children(children)) => {
            &&& next is Finished
            &&& match stray(batch_ids(parents.deep_view()), children.deep_view()) {
                Some(id) => step == NextStep::Fail(
                    ListError::Internal(InternalConsistencyError::UnknownBusiness { business_id: id }),
                ),
                None => step matches NextStep::Deliver(rows) && rows.deep_view() == loaded(
                    parents.deep_view(),
                    children.deep_view(),
                ),
            }
        },
        _ => next is Finished && step == NextStep::Fail(
            ListError::Internal(InternalConsistencyError::UnexpectedAnswer),
        ),
    }
}

/// Opens a request. A limit below 1 ends it at once; no default stands in for it.
/// Otherwise the store is asked for the businesses that the composed selection
/// admits, in random order where `sample` is set, and for `limit` of them at most.
pub fn begin(predicate_set: &PredicateSet, limit: u32, sample: bool) -> (r: (ListState, NextStep))
    ensures
        limit < 1 ==> r.0 is Finished && r.1 == NextStep::Fail(
            ListError::Validation(ValidationError::NonPositiveLimit),
        ),
        limit >= 1 ==> {
            &&& r.0 is AwaitingParents
            &&& r.1 matches NextStep::AskParents(q)
            &&& q.selection@ == composed(predicate_set@)
            &&& q.order == order_for(sample)
            &&& q.limit == limit
        },
{
    if limit < 1 {
        return (ListState::Finished, NextStep::Fail(ListError::Validation(ValidationError::NonPositiveLimit)));
    }
    let order = if sample {
        Order::Random
    } else {
        Order::IdAscending
    };
    let query = ParentQuery { selection: compose(predicate_set), order, limit };
    (ListState::AwaitingParents, NextStep::AskParents(query))
}

/// Takes the store's answer and says what comes next.
///
/// A failure of the store ends the request and is handed on unchanged. An empty
/// batch ends it with an empty listing, and the store is not asked for media at all.
/// A batch is followed by one question for the photos of all its businesses. The
/// answer to that is partitioned, capped and assembled; a media record that belongs
/// to no business of the batch fails the request. An answer that was not asked for
/// fails it too.
pub fn advance(state: ListState, answer: StoreAnswer) -> (r: (ListState, NextStep))
    ensures
        advanced(state, answer, r.0, r.1),
{
    match state {
        ListState::Finished => (
            ListState::Finished,
            NextStep::Fail(ListError::Internal(InternalConsistencyError::UnexpectedAnswer)),
        ),
        ListState::AwaitingParents => match answer {
            StoreAnswer::Failed(e) => (ListState::Finished, NextStep::Fail(ListError::Store(e))),
            StoreAnswer::Children(_) => (
                ListState::Finished,
                NextStep::Fail(ListError::Internal(InternalConsistencyError::UnexpectedAnswer)),
            ),
            StoreAnswer::Parents(parents) => {
                if parents.len() == 0 {
                    (ListState::Finished, NextStep::Deliver(Vec::new()))
                } else {
                    let business_ids = ids_of(&parents);
                    let query = ChildQuery { business_ids, source: MediaSoucre::Photo };
                    (ListState::AwaitingChildren { parents }, NextStep::AskChildren(query))
                }
            },
        },
        ListState::AwaitingChildren { parents } => match answer {
            StoreAnswer::Failed(e) => (ListState::Finished, NextStep::Fail(ListError::Store(e))),
            StoreAnswer::Parents(_) => (
                ListState::Finished,
                NextStep::Fail(ListError::Internal(InternalConsistencyError::UnexpectedAnswer)),
            ),
            StoreAnswer::Children(children) => {
                match load(&parents, &children) {
                    Ok(rows) => (ListState::Finished, NextStep::Deliver(rows)),
                    Err(e) => (ListState::Finished, NextStep::Fail(ListError::Internal(e))),
                }
            },
        },
    }
}

/// The identities of a batch, in its order.
pub fn ids_of(parents: &Vec<Business>) -> (ids: Vec<i32>)
    ensures
        ids@ == batch_ids(parents.deep_view()),
{
    let mut ids: Vec<i32> = Vec::new();
    let mut i: usize = 0;
    while i < parents.len()
        invariant
            i <= parents.len(),
            ids.len() == i,
            forall|k: int| 0 <= k < i ==> ids[k] == parents[k].id,
        decreases parents.len() - i,
    {
        ids.push(parents[i].id);
        i += 1;
    }
    assert(ids@ =~= batch_ids(parents.deep_view()));
    ids
}

/// Makes the rows of a batch from the answer to its media query: partitions the
/// media by business, keeps the first `MEDIAS_PER_BUSINESS` of each, and puts each
/// business together with its own.
pub fn load(parents: &Vec<Business>, children: &Vec<Media>) -> (r: Result<
    Vec<RandBusiessWithMedias>,
    InternalConsistencyError,
>)
    ensures
        match stray(batch_ids(parents.deep_view()), children.deep_view()) {
            Some(id) => r == Err::<Vec<RandBusiessWithMedias>, InternalConsistencyError>(
                InternalConsistencyError::UnknownBusiness { business_id: id },
            ),
            None => r matches Ok(rows) && rows.deep_view() == loaded(
                parents.deep_view(),
                children.deep_view(),
            ),
        },
{
    let ids = ids_of(parents);
    match group_and_cap(&ids, children, MEDIAS_PER_BUSINESS) {
        Err(e) => Err(e),
        Ok(groups) => {
            proof {
                lemma_rows_of_grouped(parents.deep_view(), children.deep_view(), MEDIAS_PER_BUSINESS as nat);
            }
            let rows = assemble(parents, &groups);
            proof {
                assert(rows_of(parents.deep_view(), groups.deep_view()) =~= loaded(
                    parents.deep_view(),
                    children.deep_view(),
                ));
            }
            rows
        },
    }
}

/// Lists businesses from a store in memory.
///
/// Fails with a validation error exactly when `limit` is below 1. Otherwise the
/// listing holds the businesses that the composed selection admits, lowest identity
/// first or, where `sample` is set, drawn by `draws`, `limit` of them at most, each
/// once, and each with its first `MEDIAS_PER_BUSINESS` photos by identity.
pub fn list(
    store: &MemoryStore,
    predicate_set: &PredicateSet,
    limit: u32,
    sample: bool,
    draws: &Vec<u64>,
) -> (r: Result<Vec<RandBusiessWithMedias>, ListError>)
    ensures
        limit < 1 ==> r == Err::<Vec<RandBusiessWithMedias>, ListError>(
            ListError::Validation(ValidationError::NonPositiveLimit),
        ),
        limit >= 1 ==> (r matches Ok(rows) && rows.deep_view() == listing(
            store@,
            predicate_set@,
            order_for(sample),
            limit as nat,
            draws@,
        )),
        r matches Ok(rows) ==> {
            &&& rows.len() <= limit
            &&& forall|i: int, j: int|
                0 <= i < j < rows.len() ==> rows[i].business.id != rows[j].business.id
            &&& forall|i: int|
                0 <= i < rows.len() ==> (#[trigger] rows[i]).medias.len() <= MEDIAS_PER_BUSINESS
            &&& forall|i: int, k: int|
                0 <= i < rows.len() && 0 <= k < rows[i].medias.len() ==> (
                #[trigger] rows[i].medias[k]).source == MediaSoucre::Photo
        },
{
    let ghost owed = listing(store@, predicate_set@, order_for(sample), limit as nat, draws@);
    let ghost batch = parents_of(store@, composed(predicate_set@), order_for(sample), limit as nat, draws@);
    let (state, step) = begin(predicate_set, limit, sample);
    let (state, step) = match step {
        NextStep::AskParents(query) => {
            let parents = store.query_parents(&query, draws);
            proof {
                assert forall|i: int, j: int| 0 <= i < j < batch.len() implies batch[i].id
                    != batch[j].id by {
                    assert(batch[i] == parents[i]@ && batch[j] == parents[j]@);
                }
            }
            advance(state, StoreAnswer::Parents(parents))
        },
        other => (state, other),
    };
    let (state, step) = match step {
        NextStep::AskChildren(query) => {
            let children = store.query_children(&query.business_ids, query.source);
            proof {
                lemma_children_of_batch_belong(store@.medias, query.business_ids@, query.source);
                lemma_loaded_is_listing(
                    store@,
                    predicate_set@,
                    order_for(sample),
                    limit as nat,
                    draws@,
                );
            }
            advance(state, StoreAnswer::Children(children))
        },
        other => (state, other),
    };
    match step {
        NextStep::Deliver(rows) => {
            proof {
                assert(rows.deep_view() =~= owed);
                lemma_listing_rows(store@, predicate_set@, order_for(sample), limit as nat, draws@);
                assert forall|i: int| 0 <= i < rows.len() implies (#[trigger] rows[i]).medias.len()
                    <= MEDIAS_PER_BUSINESS by {
                    assert(rows.deep_view()[i] == rows[i]@);
                    assert(rows[i].medias.deep_view().len() == rows[i].medias.len());
                }
                assert forall|i: int, j: int| 0 <= i < j < rows.len() implies rows[i].business.id
                    != rows[j].business.id by {
                    assert(rows.deep_view()[i] == rows[i]@ && rows.deep_view()[j] == rows[j]@);
                    assert(owed[i].business.id == batch[i].id && owed[j].business.id == batch[j].id);
                }
                assert forall|i: int, k: int|
                    0 <= i < rows.len() && 0 <= k < rows[i].medias.len() implies (
                #[trigger] rows[i].medias[k]).source == MediaSoucre::Photo by {
                    assert(rows.deep_view()[i] == rows[i]@);
                    assert(rows[i].medias.deep_view()[k] == rows[i].medias[k]@);
                }
            }
            Ok(rows)
        },
        NextStep::Fail(e) => Err(e),
        _ => Err(ListError::Internal(InternalConsistencyError::UnexpectedAnswer)),
    }
}

/// Lists businesses from a store in memory, with the filters given by name.
///
/// A name that is no filter's fails the request with that name. A limit below 1
/// fails what is left.
pub fn list_named(
    store: &MemoryStore,
    entries: &Vec<(String, Option<String>)>,
    limit: u32,
    sample: bool,
    draws: &Vec<u64>,
) -> (r: Result<Vec<RandBusiessWithMedias>, ListError>)
    ensures
        match folded(entries_view(entries@)) {
            Err(name) => r matches Err(ListError::Validation(ValidationError::UnrecognizedFilter(n)))
                && n@ == name,
            Ok(ps) => if limit < 1 {
                r == Err::<Vec<RandBusiessWithMedias>, ListError>(
                    ListError::Validation(ValidationError::NonPositiveLimit),
                )
            } else {
                r matches Ok(rows) && rows.deep_view() == listing(
                    store@,
                    ps,
                    order_for(sample),
                    limit as nat,
                    draws@,
                )
            },
        },
{
    match PredicateSet::from_pairs(entries) {
        Err(e) => Err(ListError::Validation(e)),
        Ok(predicate_set) => list(store, &predicate_set, limit, sample, draws),
    }
}

/// The groups that the loader makes for a batch hold no foreign group, and the media
/// filed under each business of the batch are that business's group.
pub proof fn lemma_rows_of_grouped(parents: Seq<BusinessView>, children: Seq<MediaView>, cap: nat)
    ensures
        foreign(batch_ids(parents), grouped(batch_ids(parents), children, cap)) is None,
        forall|i: int|
            0 <= i < parents.len() ==> medias_for(
                grouped(batch_ids(parents), children, cap),
                (#[trigger] parents[i]).id,
            ) == group_of(children, parents[i].id, cap),
{
    let ids = batch_ids(parents);
    let groups = grouped(ids, children, cap);
    lemma_foreign_none(ids, groups);
    assert forall|k: int| 0 <= k < groups.len() implies ids.contains(
        (#[trigger] groups[k]).business_id,
    ) by {
        assert(ids[k] == groups[k].business_id);
    }
    assert(group_keys(groups) =~= ids);
    assert forall|i: int| 0 <= i < parents.len() implies medias_for(groups, (#[trigger] parents[i]).id)
        == group_of(children, parents[i].id, cap) by {
        let id = parents[i].id;
        assert(ids[i] == id);
        let p = lemma_first_place(ids, id, i);
        lemma_medias_for_first(groups, id, p);
    }
}

/// An identity that stands at some place stands at a first place.
pub proof fn lemma_first_place(ids: Seq<i32>, id: i32, at: int) -> (p: int)
    requires
        0 <= at < ids.len(),
        ids[at] == id,
    ensures
        is_first_at(ids, id, p),
    decreases at,
{
    if exists|q: int| 0 <= q < at && ids[q] == id {
        let q = choose|q: int| 0 <= q < at && ids[q] == id;
        lemma_first_place(ids, id, q)
    } else {
        at
    }
}

/// The rows made from the answer to one media query for the whole batch are the rows
/// that the listing owes, which are stated by one media query for each business.
pub proof fn lemma_loaded_is_listing(
    store: StoreView,
    ps: PredicateSetView,
    order: Order,
    limit: nat,
    draws: Seq<u64>,
)
    ensures
        loaded(
            parents_of(store, composed(ps), order, limit, draws),
            children_of(
                store.medias,
                batch_ids(parents_of(store, composed(ps), order, limit, draws)),
                MediaSoucre::Photo,
            ),
        ) == listing(store, ps, order, limit, draws),
{
    let parents = parents_of(store, composed(ps), order, limit, draws);
    let ids = batch_ids(parents);
    let children = children_of(store.medias, ids, MediaSoucre::Photo);
    let made = loaded(parents, children);
    let owed = listing(store, ps, order, limit, draws);
    assert forall|i: int| 0 <= i < parents.len() implies made[i] == owed[i] by {
        assert(ids[i] == parents[i].id);
        assert(ids.contains(parents[i].id));
        lemma_belonging_of_batch(store.medias, ids, MediaSoucre::Photo, parents[i].id);
    }
    assert(made =~= owed);
}

/// A listing holds as many rows as the store answers with; no row holds more than
/// `MEDIAS_PER_BUSINESS` media, and every media record that a row holds is a photo.
pub proof fn lemma_listing_rows(
    store: StoreView,
    ps: PredicateSetView,
    order: Order,
    limit: nat,
    draws: Seq<u64>,
)
    ensures
        listing(store, ps, order, limit, draws).len() == parents_of(
            store,
            composed(ps),
            order,
            limit,
            draws,
        ).len(),
        forall|i: int|
            0 <= i < listing(store, ps, order, limit, draws).len() ==> (#[trigger] listing(
                store,
                ps,
                order,
                limit,
                draws,
            )[i]).medias.len() <= MEDIAS_PER_BUSINESS,
        forall|i: int, k: int|
            0 <= i < listing(store, ps, order, limit, draws).len() && 0 <= k < listing(
                store,
                ps,
                order,
                limit,
                draws,
            )[i].medias.len() ==> (#[trigger] listing(store, ps, order, limit, draws)[i].medias[k]).source
                == MediaSoucre::Photo,
{
    broadcast use vstd::seq_lib::group_filter_ensures;

    let rows = listing(store, ps, order, limit, draws);
    let parents = parents_of(store, composed(ps), order, limit, draws);
    assert forall|i: int, k: int| 0 <= i < rows.len() && 0 <= k < rows[i].medias.len() implies (
    #[trigger] rows[i].medias[k]).source == MediaSoucre::Photo by {
        let found = children_of(store.medias, seq![parents[i].id], MediaSoucre::Photo);
        let kept = first(found, MEDIAS_PER_BUSINESS as nat);
        assert(rows[i].medias[k] == shown_media(kept[k]));
        assert(kept[k] == found[k]);
    }
}

/// How many questions a request in `state` may still put to the store.
pub open spec fn questions_left(state: ListState) -> nat {
    match state {
        ListState::AwaitingParents => 1,
        ListState::AwaitingChildren { .. } => 0,
        ListState::Finished => 0,
    }
}

/// A request asks the store twice at most, whatever the size of the batch: once when
/// it begins, and once more, for the media of the whole batch, after the businesses
/// have come. Every answer either ends the request or uses up the one question that
/// was left.
pub proof fn lemma_two_questions_at_most(
    state: ListState,
    answer: StoreAnswer,
    next: ListState,
    step: NextStep,
)
    requires
        advanced(state, answer, next, step),
    ensures
        step !is AskParents,
        step is AskChildren ==> questions_left(state) == 1 && questions_left(next) == 0,
        next is Finished <==> !(step is AskChildren),
        step is AskChildren ==> (answer matches StoreAnswer::Parents(parents) && parents.len() > 0),
{
}

} // verus!
