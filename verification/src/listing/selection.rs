//! The query composer: from a predicate set to one selection over businesses, and what
//! such a selection means.

use vstd::prelude::*;
use crate::database::enum_type::{BusinessStatus, MediaSoucre};
use crate::database::model::{Business, BusinessView, Media, MediaView};
use crate::listing::predicate::{FilterName, PredicateSet, PredicateSetView};

verus! {

/// One condition of a selection.
#[derive(Debug, PartialEq, Eq)]
pub enum Clause {
    /// The business has this status.
    StatusIs(BusinessStatus),
    /// The business's main category is this text.
    CategoryIs(String),
    /// This text is among the business's types or tags.
    HasTag(String),
    /// This text is among the business's chains.
    OnChain(String),
    /// At least one media record of this source belongs to the business. However many
    /// there are, the business is selected once.
    HasMedia(MediaSoucre),
}

/// What a `Clause` is in contracts.
pub enum ClauseView {
    StatusIs(BusinessStatus),
    CategoryIs(Seq<char>),
    HasTag(Seq<char>),
    OnChain(Seq<char>),
    HasMedia(MediaSoucre),
}

impl DeepView for Clause {
    type V = ClauseView;

    open spec fn deep_view(&self) -> ClauseView {
        match self {
            Clause::StatusIs(s) => ClauseView::StatusIs(*s),
            Clause::CategoryIs(c) => ClauseView::CategoryIs(c@),
            Clause::HasTag(t) => ClauseView::HasTag(t@),
            Clause::OnChain(c) => ClauseView::OnChain(c@),
            Clause::HasMedia(m) => ClauseView::HasMedia(*m),
        }
    }
}

impl View for Clause {
    type V = ClauseView;

    open spec fn view(&self) -> ClauseView {
        self.deep_view()
    }
}

/// A selection over businesses: the conjunction of its clauses.
#[derive(Debug, PartialEq, Eq)]
pub struct Selection {
    pub clauses: Vec<Clause>,
}

impl View for Selection {
    type V = Seq<ClauseView>;

    open spec fn view(&self) -> Seq<ClauseView> {
        self.clauses.deep_view()
    }
}

/// Whether `label` is one of `labels`. A missing list holds nothing.
pub open spec fn has_label(labels: Option<Seq<Seq<char>>>, label: Seq<char>) -> bool {
    labels matches Some(l) && l.contains(label)
}

/// Whether some media record of `source` belongs to the business `business_id`.
pub open spec fn has_media(medias: Seq<MediaView>, business_id: i32, source: MediaSoucre) -> bool {
    exists|k: int|
        0 <= k < medias.len() && (#[trigger] medias[k]).business_id == business_id && medias[k].source
            == source
}

/// Whether one clause lets a business through, given all media of the store.
pub open spec fn clause_admits(clause: ClauseView, business: BusinessView, medias: Seq<MediaView>) -> bool {
    match clause {
        ClauseView::StatusIs(s) => business.status == s,
        ClauseView::CategoryIs(c) => business.main_category == c,
        ClauseView::HasTag(t) => has_label(business.types, t) || has_label(business.tags, t),
        ClauseView::OnChain(c) => has_label(business.chains, c),
        ClauseView::HasMedia(m) => has_media(medias, business.id, m),
    }
}

/// Whether a selection lets a business through: every clause does.
pub open spec fn admits(selection: Seq<ClauseView>, business: BusinessView, medias: Seq<MediaView>) -> bool {
    forall|i: int| 0 <= i < selection.len() ==> clause_admits(#[trigger] selection[i], business, medias)
}

/// `clauses` with the clause that `value` asks for, if it has one.
pub open spec fn with_clause(clauses: Seq<ClauseView>, clause: Option<ClauseView>) -> Seq<ClauseView> {
    match clause {
        Some(c) => clauses.push(c),
        None => clauses,
    }
}

/// The clause that a category filter asks for.
pub open spec fn category_clause(ps: PredicateSetView) -> Option<ClauseView> {
    match ps.category {
        Some(c) => Some(ClauseView::CategoryIs(c)),
        None => None,
    }
}

/// The clause that a tag filter asks for.
pub open spec fn tag_clause(ps: PredicateSetView) -> Option<ClauseView> {
    match ps.tag {
        Some(t) => Some(ClauseView::HasTag(t)),
        None => None,
    }
}

/// The clause that a chain filter asks for.
pub open spec fn chain_clause(ps: PredicateSetView) -> Option<ClauseView> {
    match ps.chain {
        Some(c) => Some(ClauseView::OnChain(c)),
        None => None,
    }
}

/// The clause that the photo filter asks for. The filter's presence asks for it,
/// whatever flag it carries.
pub open spec fn photo_clause(ps: PredicateSetView) -> Option<ClauseView> {
    match ps.has_photo {
        Some(_) => Some(ClauseView::HasMedia(MediaSoucre::Photo)),
        None => None,
    }
}

/// The selection that a predicate set asks for: approved businesses only, and then
/// one clause for each filter that has a value, in the order category, tag, chain,
/// photo. A filter without a value leaves no trace.
pub open spec fn composed(ps: PredicateSetView) -> Seq<ClauseView> {
    with_clause(
        with_clause(
            with_clause(
                with_clause(seq![ClauseView::StatusIs(BusinessStatus::Approved)], category_clause(ps)),
                tag_clause(ps),
            ),
            chain_clause(ps),
        ),
        photo_clause(ps),
    )
}

/// What a composed selection comes to, filter by filter.
pub open spec fn meets(ps: PredicateSetView, business: BusinessView, medias: Seq<MediaView>) -> bool {
    &&& business.status == BusinessStatus::Approved
    &&& ps.category matches Some(c) ==> business.main_category == c
    &&& ps.tag matches Some(t) ==> has_label(business.types, t) || has_label(business.tags, t)
    &&& ps.chain matches Some(c) ==> has_label(business.chains, c)
    &&& ps.has_photo is Some ==> has_media(medias, business.id, MediaSoucre::Photo)
}

/// Composes the selection for a predicate set.
pub fn compose(ps: &PredicateSet) -> (selection: Selection)
    ensures
        selection@ == composed(ps@),
        selection@.len() == 1 + ps@.present(),
{
    let mut clauses: Vec<Clause> = Vec::new();
    clauses.push(Clause::StatusIs(BusinessStatus::Approved));
    assert(clauses.deep_view() =~= seq![ClauseView::StatusIs(BusinessStatus::Approved)]);
    let ghost s0 = clauses.deep_view();
    if let Some(c) = &ps.category {
        clauses.push(Clause::CategoryIs(c.clone()));
    }
    assert(clauses.deep_view() =~= with_clause(s0, category_clause(ps@)));
    let ghost s1 = clauses.deep_view();
    if let Some(t) = &ps.tag {
        clauses.push(Clause::HasTag(t.clone()));
    }
    assert(clauses.deep_view() =~= with_clause(s1, tag_clause(ps@)));
    let ghost s2 = clauses.deep_view();
    if let Some(c) = &ps.chain {
        clauses.push(Clause::OnChain(c.clone()));
    }
    assert(clauses.deep_view() =~= with_clause(s2, chain_clause(ps@)));
    let ghost s3 = clauses.deep_view();
    if ps.has_photo.is_some() {
        clauses.push(Clause::HasMedia(MediaSoucre::Photo));
    }
    assert(clauses.deep_view() =~= with_clause(s3, photo_clause(ps@)));
    Selection { clauses }
}

/// Whether `label` is one of `labels`.
pub fn labels_hold(labels: &Option<Vec<String>>, label: &String) -> (r: bool)
    ensures
        r == has_label(labels.deep_view(), label@),
{
    match labels {
        None => false,
        Some(list) => {
            let mut i: usize = 0;
            while i < list.len()
                invariant
                    i <= list.len(),
                    *labels == Some(*list),
                    forall|k: int| 0 <= k < i ==> list[k]@ != label@,
                decreases list.len() - i,
            {
                if list[i] == *label {
                    assert(list.deep_view()[i as int] == label@);
                    assert(list.deep_view().contains(label@));
                    return true;
                }
                i += 1;
            }
            assert forall|k: int| 0 <= k < list.deep_view().len() implies list.deep_view()[k]
                != label@ by {
                assert(list.deep_view()[k] == list[k]@);
            }
            false
        },
    }
}

/// Whether some media record of `source` belongs to the business `business_id`.
pub fn media_exists(medias: &Vec<Media>, business_id: i32, source: MediaSoucre) -> (r: bool)
    ensures
        r == has_media(medias.deep_view(), business_id, source),
{
    let mut i: usize = 0;
    while i < medias.len()
        invariant
            i <= medias.len(),
            forall|k: int|
                0 <= k < i ==> !((#[trigger] medias[k]).business_id == business_id && medias[k].source
                    == source),
        decreases medias.len() - i,
    {
        if medias[i].business_id == business_id && medias[i].source == source {
            assert(medias.deep_view()[i as int] == medias[i as int]@);
            return true;
        }
        i += 1;
    }
    assert forall|k: int| 0 <= k < medias.deep_view().len() implies !((
    #[trigger] medias.deep_view()[k]).business_id == business_id && medias.deep_view()[k].source
        == source) by {
        assert(medias.deep_view()[k] == medias[k]@);
    }
    false
}

impl Clause {
    /// Whether the clause lets `business` through, given all media of the store.
    pub fn admits(&self, business: &Business, medias: &Vec<Media>) -> (r: bool)
        ensures
            r == clause_admits(self@, business@, medias.deep_view()),
    {
        match self {
            Clause::StatusIs(s) => business.status == *s,
            Clause::CategoryIs(c) => business.main_category == *c,
            Clause::HasTag(t) => labels_hold(&business.types, t) || labels_hold(&business.tags, t),
            Clause::OnChain(c) => labels_hold(&business.chains, c),
            Clause::HasMedia(m) => media_exists(medias, business.id, *m),
        }
    }
}

impl Selection {
    /// Whether the selection lets `business` through, given all media of the store.
    pub fn admits(&self, business: &Business, medias: &Vec<Media>) -> (r: bool)
        ensures
            r == admits(self@, business@, medias.deep_view()),
    {
        let mut i: usize = 0;
        while i < self.clauses.len()
            invariant
                i <= self.clauses.len(),
                forall|k: int|
                    0 <= k < i ==> clause_admits(
                        #[trigger] self@[k],
                        business@,
                        medias.deep_view(),
                    ),
            decreases self.clauses.len() - i,
        {
            if !self.clauses[i].admits(business, medias) {
                assert(self@[i as int] == self.clauses[i as int]@);
                return false;
            }
            assert(self@[i as int] == self.clauses[i as int]@);
            i += 1;
        }
        true
    }
}

/// A selection with one more clause admits what both admit.
pub proof fn lemma_admits_push(
    clauses: Seq<ClauseView>,
    clause: ClauseView,
    business: BusinessView,
    medias: Seq<MediaView>,
)
    ensures
        admits(clauses.push(clause), business, medias) <==> admits(clauses, business, medias)
            && clause_admits(clause, business, medias),
{
    if admits(clauses.push(clause), business, medias) {
        assert forall|i: int| 0 <= i < clauses.len() implies clause_admits(
            #[trigger] clauses[i],
            business,
            medias,
        ) by {
            assert(clauses.push(clause)[i] == clauses[i]);
        }
        assert(clauses.push(clause)[clauses.len() as int] == clause);
    }
}

/// A composed selection admits a business exactly when the business is approved and
/// meets each filter that has a value.
pub proof fn lemma_composed_meaning(ps: PredicateSetView, business: BusinessView, medias: Seq<MediaView>)
    ensures
        admits(composed(ps), business, medias) <==> meets(ps, business, medias),
{
    let s0 = seq![ClauseView::StatusIs(BusinessStatus::Approved)];
    let s1 = with_clause(s0, category_clause(ps));
    let s2 = with_clause(s1, tag_clause(ps));
    let s3 = with_clause(s2, chain_clause(ps));
    assert(admits(s0, business, medias) <==> business.status == BusinessStatus::Approved) by {
        assert(s0[0] == ClauseView::StatusIs(BusinessStatus::Approved));
    }
    if let Some(c) = ps.category {
        lemma_admits_push(s0, ClauseView::CategoryIs(c), business, medias);
    }
    if let Some(t) = ps.tag {
        lemma_admits_push(s1, ClauseView::HasTag(t), business, medias);
    }
    if let Some(c) = ps.chain {
        lemma_admits_push(s2, ClauseView::OnChain(c), business, medias);
    }
    if ps.has_photo is Some {
        lemma_admits_push(s3, ClauseView::HasMedia(MediaSoucre::Photo), business, medias);
    }
}

/// Whatever the predicate set holds, a composed selection admits approved businesses
/// only.
pub proof fn lemma_only_approved(ps: PredicateSetView, business: BusinessView, medias: Seq<MediaView>)
    requires
        admits(composed(ps), business, medias),
    ensures
        business.status == BusinessStatus::Approved,
{
    lemma_composed_meaning(ps, business, medias);
}

/// Taking a filter out of a predicate set never excludes a business: what the set
/// admits with any value for the filter, it admits without the filter.
pub proof fn lemma_absent_filter_admits_more(
    ps: PredicateSetView,
    filter: FilterName,
    business: BusinessView,
    medias: Seq<MediaView>,
)
    requires
        admits(composed(ps), business, medias),
    ensures
        admits(composed(ps.without(filter)), business, medias),
{
    lemma_composed_meaning(ps, business, medias);
    lemma_composed_meaning(ps.without(filter), business, medias);
}

/// Each filter that has a value adds exactly one clause.
pub proof fn lemma_composed_len(ps: PredicateSetView)
    ensures
        composed(ps).len() == 1 + ps.present(),
{
}

/// No two predicate sets compose the same selection unless they give the same values
/// to the same filters: a selection shows which filters were present, and with what.
/// The flag of the photo filter is the one thing that a selection does not show.
pub proof fn lemma_composed_tells_filters_apart(a: PredicateSetView, b: PredicateSetView)
    requires
        composed(a) == composed(b),
    ensures
        a.category == b.category,
        a.tag == b.tag,
        a.chain == b.chain,
        a.has_photo is Some <==> b.has_photo is Some,
{
    lemma_composed_shape(a);
    lemma_composed_shape(b);
    let s = composed(a);
    assert(a.category is Some <==> b.category is Some);
    assert(a.tag is Some <==> b.tag is Some);
    assert(a.chain is Some <==> b.chain is Some);
}

/// Where each clause of a composed selection stands.
proof fn lemma_composed_shape(ps: PredicateSetView)
    ensures
        ps.category is Some <==> exists|i: int|
            0 <= i < composed(ps).len() && #[trigger] composed(ps)[i] is CategoryIs,
        ps.tag is Some <==> exists|i: int| 0 <= i < composed(ps).len() && #[trigger] composed(ps)[i] is HasTag,
        ps.chain is Some <==> exists|i: int|
            0 <= i < composed(ps).len() && #[trigger] composed(ps)[i] is OnChain,
        ps.has_photo is Some <==> exists|i: int|
            0 <= i < composed(ps).len() && #[trigger] composed(ps)[i] is HasMedia,
        forall|i: int|
            0 <= i < composed(ps).len() && #[trigger] composed(ps)[i] is CategoryIs ==> ps.category
                == Some(composed(ps)[i]->CategoryIs_0),
        forall|i: int|
            0 <= i < composed(ps).len() && #[trigger] composed(ps)[i] is HasTag ==> ps.tag == Some(
                composed(ps)[i]->HasTag_0,
            ),
        forall|i: int|
            0 <= i < composed(ps).len() && #[trigger] composed(ps)[i] is OnChain ==> ps.chain == Some(
                composed(ps)[i]->OnChain_0,
            ),
{
    let s0 = seq![ClauseView::StatusIs(BusinessStatus::Approved)];
    let s1 = with_clause(s0, category_clause(ps));
    let s2 = with_clause(s1, tag_clause(ps));
    let s3 = with_clause(s2, chain_clause(ps));
    let s = composed(ps);
    assert(s0[0] is StatusIs);
    if ps.category is Some {
        assert(s[1] is CategoryIs);
    }
    if ps.tag is Some {
        assert(s[s1.len() as int] is HasTag);
    }
    if ps.chain is Some {
        assert(s[s2.len() as int] is OnChain);
    }
    if ps.has_photo is Some {
        assert(s[s3.len() as int] is HasMedia);
    }
}

} // verus!
