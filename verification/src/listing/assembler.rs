//! The result assembler: each business of a batch with its media, in the batch's
//! order, in the shape that is handed to the caller.

use vstd::prelude::*;
use vstd::std_specs::hash::*;
use vstd::std_specs::convert::FromSpecImpl;
use crate::database::enum_type::MediaSoucre;
use crate::database::model::{
    copy_labels,
    copy_optional_text,
    Business,
    BusinessView,
    Media,
    MediaView,
};
use crate::error::InternalConsistencyError;
use crate::listing::loader::{index_of, indexes, is_first_at, MediaGroup, MediaGroupView};

verus! {

/// A media record as a listing shows it.
#[derive(Debug, PartialEq, Eq)]
pub struct MediasOnRandBusiness {
    pub url: String,
    pub source: MediaSoucre,
}

/// A business as a listing shows it.
#[derive(Debug, PartialEq, Eq)]
pub struct RandBusiness {
    pub id: i32,
    pub name: String,
    pub overview: String,
    pub token: Option<String>,
    pub logo: Option<String>,
    pub types: Option<Vec<String>>,
    pub main_category: String,
    pub cmc_id: Option<i32>,
}

/// One row of a listing: a business and its media, capped and in the order of the
/// tie-break key.
#[derive(Debug, PartialEq, Eq)]
pub struct RandBusiessWithMedias {
    pub business: RandBusiness,
    pub medias: Vec<MediasOnRandBusiness>,
}

/// What a `MediasOnRandBusiness` is in contracts.
pub struct MediasOnRandBusinessView {
    pub url: Seq<char>,
    pub source: MediaSoucre,
}

/// What a `RandBusiness` is in contracts.
pub struct RandBusinessView {
    pub id: i32,
    pub name: Seq<char>,
    pub overview: Seq<char>,
    pub token: Option<Seq<char>>,
    pub logo: Option<Seq<char>>,
    pub types: Option<Seq<Seq<char>>>,
    pub main_category: Seq<char>,
    pub cmc_id: Option<i32>,
}

/// What a `RandBusiessWithMedias` is in contracts.
pub struct RowView {
    pub business: RandBusinessView,
    pub medias: Seq<MediasOnRandBusinessView>,
}

impl DeepView for MediasOnRandBusiness {
    type V = MediasOnRandBusinessView;

    open spec fn deep_view(&self) -> MediasOnRandBusinessView {
        MediasOnRandBusinessView { url: self.url@, source: self.source }
    }
}

impl View for MediasOnRandBusiness {
    type V = MediasOnRandBusinessView;

    open spec fn view(&self) -> MediasOnRandBusinessView {
        self.deep_view()
    }
}

impl DeepView for RandBusiness {
    type V = RandBusinessView;

    open spec fn deep_view(&self) -> RandBusinessView {
        RandBusinessView {
            id: self.id,
            name: self.name@,
            overview: self.overview@,
            token: self.token.deep_view(),
            logo: self.logo.deep_view(),
            types: self.types.deep_view(),
            main_category: self.main_category@,
            cmc_id: self.cmc_id,
        }
    }
}

impl View for RandBusiness {
    type V = RandBusinessView;

    open spec fn view(&self) -> RandBusinessView {
        self.deep_view()
    }
}

impl DeepView for RandBusiessWithMedias {
    type V = RowView;

    open spec fn deep_view(&self) -> RowView {
        RowView { business: self.business@, medias: self.medias.deep_view() }
    }
}

impl View for RandBusiessWithMedias {
    type V = RowView;

    open spec fn view(&self) -> RowView {
        self.deep_view()
    }
}

/// The part of a business that a listing shows.
pub open spec fn shown_business(b: BusinessView) -> RandBusinessView {
    RandBusinessView {
        id: b.id,
        name: b.name,
        overview: b.overview,
        token: b.token,
        logo: b.logo,
        types: b.types,
        main_category: b.main_category,
        cmc_id: b.cmc_id,
    }
}

/// The part of a media record that a listing shows.
pub open spec fn shown_media(m: MediaView) -> MediasOnRandBusinessView {
    MediasOnRandBusinessView { url: m.url, source: m.source }
}

impl FromSpecImpl<Business> for RandBusiness {
    open spec fn obeys_from_spec() -> bool {
        true
    }

    open spec fn from_spec(bn: Business) -> RandBusiness {
        RandBusiness {
            id: bn.id,
            name: bn.name,
            overview: bn.overview,
            token: bn.token,
            logo: bn.logo,
            types: bn.types,
            main_category: bn.main_category,
            cmc_id: bn.cmc_id,
        }
    }
}

impl From<Business> for RandBusiness {
    fn from(bn: Business) -> (r: RandBusiness) {
        RandBusiness {
            id: bn.id,
            name: bn.name,
            overview: bn.overview,
            token: bn.token,
            logo: bn.logo,
            types: bn.types,
            main_category: bn.main_category,
            cmc_id: bn.cmc_id,
        }
    }
}

impl FromSpecImpl<Media> for MediasOnRandBusiness {
    open spec fn obeys_from_spec() -> bool {
        true
    }

    open spec fn from_spec(media: Media) -> MediasOnRandBusiness {
        MediasOnRandBusiness { url: media.url, source: media.source }
    }
}

impl From<Media> for MediasOnRandBusiness {
    fn from(media: Media) -> (r: MediasOnRandBusiness) {
        MediasOnRandBusiness { url: media.url, source: media.source }
    }
}

impl RandBusiness {
    /// Shows a business that stays with its owner.
    pub fn of(business: &Business) -> (r: RandBusiness)
        ensures
            r@ == shown_business(business@),
    {
        RandBusiness {
            id: business.id,
            name: business.name.clone(),
            overview: business.overview.clone(),
            token: copy_optional_text(&business.token),
            logo: copy_optional_text(&business.logo),
            types: match &business.types {
                Some(l) => Some(copy_labels(l)),
                None => None,
            },
            main_category: business.main_category.clone(),
            cmc_id: business.cmc_id,
        }
    }
}

impl MediasOnRandBusiness {
    /// Shows a media record that stays with its owner.
    pub fn of(media: &Media) -> (r: MediasOnRandBusiness)
        ensures
            r@ == shown_media(media@),
    {
        MediasOnRandBusiness { url: media.url.clone(), source: media.source }
    }
}

/// The businesses that the groups are filed under, group by group.
pub open spec fn group_keys(groups: Seq<MediaGroupView>) -> Seq<i32> {
    Seq::new(groups.len(), |i: int| groups[i].business_id)
}

/// The identities of a batch, business by business.
pub open spec fn batch_ids(parents: Seq<BusinessView>) -> Seq<i32> {
    Seq::new(parents.len(), |i: int| parents[i].id)
}

/// The media filed under `business_id`: those of the first group with that key, or
/// none where there is no such group.
pub open spec fn medias_for(groups: Seq<MediaGroupView>, business_id: i32) -> Seq<MediaView>
    decreases groups.len(),
{
    if groups.len() == 0 {
        Seq::empty()
    } else if groups.first().business_id == business_id {
        groups.first().medias
    } else {
        medias_for(groups.drop_first(), business_id)
    }
}

/// The key of the first group that is filed under no business of the batch.
pub open spec fn foreign(ids: Seq<i32>, groups: Seq<MediaGroupView>) -> Option<i32>
    decreases groups.len(),
{
    if groups.len() == 0 {
        None
    } else {
        match foreign(ids, groups.drop_last()) {
            Some(id) => Some(id),
            None => if ids.contains(groups.last().business_id) {
                None
            } else {
                Some(groups.last().business_id)
            },
        }
    }
}

/// The rows of a listing: each business of the batch, in the batch's order, with
/// the media filed under its identity. Businesses and groups are matched by
/// identity, never by place.
pub open spec fn rows_of(parents: Seq<BusinessView>, groups: Seq<MediaGroupView>) -> Seq<RowView> {
    Seq::new(
        parents.len(),
        |i: int|
            RowView {
                business: shown_business(parents[i]),
                medias: medias_for(groups, parents[i].id).map_values(|m: MediaView| shown_media(m)),
            },
    )
}

/// Shows a list of media.
pub fn show_medias(medias: &Vec<Media>) -> (r: Vec<MediasOnRandBusiness>)
    ensures
        r.deep_view() == medias.deep_view().map_values(|m: MediaView| shown_media(m)),
{
    let mut out: Vec<MediasOnRandBusiness> = Vec::new();
    let mut i: usize = 0;
    while i < medias.len()
        invariant
            i <= medias.len(),
            out.len() == i,
            forall|k: int| 0 <= k < i ==> out[k]@ == shown_media(medias[k]@),
        decreases medias.len() - i,
    {
        out.push(MediasOnRandBusiness::of(&medias[i]));
        i += 1;
    }
    assert(out.deep_view() =~= medias.deep_view().map_values(|m: MediaView| shown_media(m)));
    out
}

/// Puts each business of a batch together with its media.
///
/// The rows come in the order of `parents`. A business without a group has no media.
/// A group that is filed under a business outside the batch is never dropped in
/// silence: the first such group fails the assembly.
pub fn assemble(parents: &Vec<Business>, groups: &Vec<MediaGroup>) -> (r: Result<
    Vec<RandBusiessWithMedias>,
    InternalConsistencyError,
>)
    ensures
        match foreign(batch_ids(parents.deep_view()), groups.deep_view()) {
            Some(id) => r == Err::<Vec<RandBusiessWithMedias>, InternalConsistencyError>(
                InternalConsistencyError::UnknownBusiness { business_id: id },
            ),
            None => r matches Ok(rows) && rows.deep_view() == rows_of(
                parents.deep_view(),
                groups.deep_view(),
            ),
        },
{
    broadcast use group_hash_axioms;

    let ghost batch = parents.deep_view();
    let ghost filed = groups.deep_view();

    let mut ids: Vec<i32> = Vec::new();
    let mut i: usize = 0;
    while i < parents.len()
        invariant
            i <= parents.len(),
            ids.len() == i,
            forall|k: int| 0 <= k < i ==> ids[k] == parents[k].id,
        decreases parents.len() - i,
    {
        ids.push(parents[i].id);
        i += 1;
    }
    assert(ids@ =~= batch_ids(batch));
    let known = index_of(&ids);

    let mut keys: Vec<i32> = Vec::new();
    let mut k: usize = 0;
    assert(filed.take(0) =~= Seq::<MediaGroupView>::empty());
    while k < groups.len()
        invariant
            k <= groups.len(),
            filed == groups.deep_view(),
            ids@ == batch_ids(parents.deep_view()),
            indexes(known@, ids@),
            keys.len() == k,
            forall|q: int| 0 <= q < k ==> keys[q] == groups[q].business_id,
            foreign(ids@, filed.take(k as int)) is None,
        decreases groups.len() - k,
    {
        let key = groups[k].business_id;
        proof {
            assert(filed.take(k + 1).drop_last() =~= filed.take(k as int));
            assert(filed.take(k + 1).last() == groups[k as int]@);
        }
        if !known.contains_key(&key) {
            proof {
                assert(foreign(ids@, filed.take(k + 1)) == Some(key));
                lemma_foreign_stays(ids@, filed, k + 1);
            }
            return Err(InternalConsistencyError::UnknownBusiness { business_id: key });
        }
        keys.push(key);
        k += 1;
    }
    assert(filed.take(k as int) =~= filed);
    assert(keys@ =~= group_keys(filed));
    let places = index_of(&keys);

    let mut rows: Vec<RandBusiessWithMedias> = Vec::new();
    let mut i: usize = 0;
    while i < parents.len()
        invariant
            i <= parents.len(),
            batch == parents.deep_view(),
            filed == groups.deep_view(),
            keys@ == group_keys(filed),
            indexes(places@, keys@),
            rows.len() == i,
            forall|q: int| 0 <= q < i ==> (#[trigger] rows[q])@ == rows_of(batch, filed)[q],
        decreases parents.len() - i,
    {
        let parent = &parents[i];
        let medias = match places.get(&parent.id) {
            Some(place) => {
                proof {
                    assert(places@.contains_key(parent.id));
                    assert(is_first_at(keys@, parent.id, *place as int));
                    lemma_medias_for_first(filed, parent.id, *place as int);
                    assert(filed[*place as int] == groups[*place as int]@);
                }
                show_medias(&groups[*place].medias)
            },
            None => {
                proof {
                    assert(!keys@.contains(parent.id));
                    lemma_medias_for_none(filed, parent.id);
                }
                let none: Vec<MediasOnRandBusiness> = Vec::new();
                assert(none.deep_view() =~= Seq::<MediaView>::empty().map_values(
                    |m: MediaView| shown_media(m),
                ));
                none
            },
        };
        proof {
            assert(batch[i as int] == parent@);
        }
        rows.push(RandBusiessWithMedias { business: RandBusiness::of(parent), medias });
        i += 1;
    }
    assert(rows.deep_view() =~= rows_of(batch, filed));
    Ok(rows)
}

/// A foreign group among the first groups is the foreign group of all of them.
pub proof fn lemma_foreign_stays(ids: Seq<i32>, groups: Seq<MediaGroupView>, n: int)
    requires
        0 <= n <= groups.len(),
        foreign(ids, groups.take(n)) is Some,
    ensures
        foreign(ids, groups) == foreign(ids, groups.take(n)),
    decreases groups.len() - n,
{
    if n == groups.len() {
        assert(groups.take(n) =~= groups);
    } else {
        assert(groups.take(n + 1).drop_last() =~= groups.take(n));
        lemma_foreign_stays(ids, groups, n + 1);
    }
}

/// No group is foreign exactly when every group is filed under a business of the
/// batch.
pub proof fn lemma_foreign_none(ids: Seq<i32>, groups: Seq<MediaGroupView>)
    ensures
        foreign(ids, groups) is None <==> forall|k: int|
            0 <= k < groups.len() ==> ids.contains((#[trigger] groups[k]).business_id),
    decreases groups.len(),
{
    if groups.len() > 0 {
        lemma_foreign_none(ids, groups.drop_last());
        if foreign(ids, groups) is None {
            assert forall|k: int| 0 <= k < groups.len() implies ids.contains(
                (#[trigger] groups[k]).business_id,
            ) by {
                if k < groups.len() - 1 {
                    assert(groups.drop_last()[k] == groups[k]);
                }
            }
        } else {
            if foreign(ids, groups.drop_last()) is Some {
                let k = choose|k: int|
                    0 <= k < groups.drop_last().len() && !ids.contains(
                        (#[trigger] groups.drop_last()[k]).business_id,
                    );
                assert(groups[k] == groups.drop_last()[k]);
            } else {
                assert(groups[groups.len() - 1] == groups.last());
            }
        }
    }
}

/// The media filed under an identity are those of the first group with that key.
pub proof fn lemma_medias_for_first(groups: Seq<MediaGroupView>, business_id: i32, p: int)
    requires
        is_first_at(group_keys(groups), business_id, p),
    ensures
        medias_for(groups, business_id) == groups[p].medias,
    decreases groups.len(),
{
    let keys = group_keys(groups);
    if p == 0 {
        assert(keys[0] == groups.first().business_id);
    } else {
        assert(keys[0] != business_id);
        let rest = groups.drop_first();
        assert(group_keys(rest) =~= keys.drop_first());
        assert forall|q: int| 0 <= q < p - 1 implies group_keys(rest)[q] != business_id by {
            assert(keys[q + 1] != business_id);
        }
        assert(group_keys(rest)[p - 1] == keys[p]);
        lemma_medias_for_first(rest, business_id, p - 1);
    }
}

/// Under an identity that is no group's key, nothing is filed.
pub proof fn lemma_medias_for_none(groups: Seq<MediaGroupView>, business_id: i32)
    requires
        !group_keys(groups).contains(business_id),
    ensures
        medias_for(groups, business_id) == Seq::<MediaView>::empty(),
    decreases groups.len(),
{
    let keys = group_keys(groups);
    if groups.len() > 0 {
        assert(keys[0] == groups.first().business_id);
        let rest = groups.drop_first();
        assert(group_keys(rest) =~= keys.drop_first());
        assert forall|q: int| 0 <= q < rest.len() implies group_keys(rest)[q] != business_id by {
            assert(keys[q + 1] == group_keys(rest)[q]);
            assert(keys.contains(keys[q + 1]));
        }
        lemma_medias_for_none(rest, business_id);
    }
}

} // verus!
