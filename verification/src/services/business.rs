//! The two listings of businesses: a random selection with photos, and the
//! businesses of a category.

use vstd::prelude::*;
use crate::database::model::Business;
use crate::error::{ListError, ValidationError};
use crate::listing::assembler::RandBusiessWithMedias;
use crate::listing::engine::{list, listing};
use crate::listing::predicate::{PredicateSet, PredicateSetView};
use crate::listing::sampler::Order;
use crate::listing::selection::{compose, composed};
use crate::listing::store::{admitted, businesses_ascend, MemoryStore};
use crate::database::model::{copy_optional_text};

verus! {

/// The parameters of a random listing.
#[derive(Debug, PartialEq, Eq)]
pub struct RandomBusinessesQuery {
    /// How many businesses to list at most; at least 1.
    pub limit: u32,
    /// A type or tag that the businesses must carry.
    pub type_: Option<String>,
    /// The main category that the businesses must have.
    pub main_category: Option<String>,
    /// Present where only businesses with a photo are wanted.
    pub banner_only: Option<bool>,
}

/// The parameters of a listing by category.
#[derive(Debug, PartialEq, Eq)]
pub struct BusinessesCategoryQuery {
    /// A type or tag that the businesses must carry.
    pub types: Option<String>,
    /// The main category that the businesses must have. It counts only where no
    /// type is asked for.
    pub main_category: Option<String>,
    /// A chain that the businesses must be on.
    pub chain: Option<String>,
    /// The order wished for.
    pub sort: Option<Sort>,
}

/// The orders that a listing by category can be wished in.
#[derive(Clone, Copy, Debug, PartialEq, Eq, Structural)]
pub enum Sort {
    Lastest,
    BestRating,
    MostReview,
}

impl Default for Sort {
    fn default() -> (r: Self)
        ensures
            r == Sort::Lastest,
    {
        Self::Lastest
    }
}

impl RandomBusinessesQuery {
    /// The filters that the parameters stand for.
    pub open spec fn filters(&self) -> PredicateSetView {
        PredicateSetView {
            category: self.main_category.deep_view(),
            tag: self.type_.deep_view(),
            chain: None,
            has_photo: self.banner_only,
        }
    }

    /// Checks the parameters: the limit must be 1 at least.
    pub fn validate(&self) -> (r: Result<(), ValidationError>)
        ensures
            self.limit >= 1 ==> r == Ok::<(), ValidationError>(()),
            self.limit < 1 ==> r == Err::<(), ValidationError>(ValidationError::NonPositiveLimit),
    {
        if self.limit >= 1 {
            Ok(())
        } else {
            Err(ValidationError::NonPositiveLimit)
        }
    }

    /// Builds the predicate set for the parameters.
    pub fn predicate_set(&self) -> (r: PredicateSet)
        ensures
            r@ == self.filters(),
    {
        PredicateSet {
            category: copy_optional_text(&self.main_category),
            tag: copy_optional_text(&self.type_),
            chain: None,
            has_photo: self.banner_only,
        }
    }
}

impl BusinessesCategoryQuery {
    /// The filters that the parameters stand for. This is where a type takes
    /// precedence over the main category: the composer itself knows no such rule.
    pub open spec fn filters(&self) -> PredicateSetView {
        PredicateSetView {
            category: if self.types is None {
                self.main_category.deep_view()
            } else {
                None
            },
            tag: self.types.deep_view(),
            chain: self.chain.deep_view(),
            has_photo: None,
        }
    }

    /// Builds the predicate set for the parameters.
    pub fn predicate_set(&self) -> (r: PredicateSet)
        ensures
            r@ == self.filters(),
    {
        let category = if self.types.is_none() {
            copy_optional_text(&self.main_category)
        } else {
            None
        };
        PredicateSet {
            category,
            tag: copy_optional_text(&self.types),
            chain: copy_optional_text(&self.chain),
            has_photo: None,
        }
    }
}

/// Lists up to `limit` approved businesses that meet the filters, drawn at random by
/// `draws`, each with its first photos.
pub fn get_rand_businesses(store: &MemoryStore, query: &RandomBusinessesQuery, draws: &Vec<u64>) -> (r:
    Result<Vec<RandBusiessWithMedias>, ListError>)
    ensures
        query.limit < 1 ==> r == Err::<Vec<RandBusiessWithMedias>, ListError>(
            ListError::Validation(ValidationError::NonPositiveLimit),
        ),
        query.limit >= 1 ==> (r matches Ok(rows) && rows.deep_view() == listing(
            store@,
            query.filters(),
            Order::Random,
            query.limit as nat,
            draws@,
        )),
{
    let filters = query.predicate_set();
    list(store, &filters, query.limit, true, draws)
}

/// Lists all approved businesses that meet the filters, lowest identity first.
pub fn get_by_categories(store: &MemoryStore, query: &BusinessesCategoryQuery) -> (r: Vec<Business>)
    ensures
        r.deep_view() == admitted(composed(query.filters()), store@),
        businesses_ascend(r.deep_view()),
{
    let filters = query.predicate_set();
    let selection = compose(&filters);
    store.select(&selection)
}

} // verus!
