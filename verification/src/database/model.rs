//! Rows of the store as the listing engine reads them, and their mathematical views.

use vstd::prelude::*;
use crate::database::enum_type::{BusinessStatus, MediaSoucre};

verus! {

/// A registered account.
#[derive(Debug, PartialEq, Eq)]
pub struct User {
    pub id: i32,
    pub wallet_address: String,
    pub noti_accepted: bool,
    pub spam_accepted: bool,
    pub email: Option<String>,
    pub nickname: Option<String>,
    pub avatar_url: Option<String>,
    pub is_admin: bool,
    pub password: Option<String>,
    pub background_url: Option<String>,
    pub did_id: Option<i32>,
}

/// A listed entity. `types`, `tags` and `chains` are label sets: their order carries no
/// meaning and each may be missing altogether.
#[derive(Debug, PartialEq, Eq)]
pub struct Business {
    pub id: i32,
    pub name: String,
    pub overview: String,
    pub token: Option<String>,
    pub logo: Option<String>,
    pub types: Option<Vec<String>>,
    pub main_category: String,
    pub chains: Option<Vec<String>>,
    pub cmc_id: Option<i32>,
    pub status: BusinessStatus,
    pub tags: Option<Vec<String>>,
}

/// A media record. It belongs to exactly one business, `business_id`.
#[derive(Debug, PartialEq, Eq)]
pub struct Media {
    pub id: i32,
    pub url: String,
    pub business_id: i32,
    pub source: MediaSoucre,
}

/// What a `Business` is in contracts: texts as sequences of characters.
pub struct BusinessView {
    pub id: i32,
    pub name: Seq<char>,
    pub overview: Seq<char>,
    pub token: Option<Seq<char>>,
    pub logo: Option<Seq<char>>,
    pub types: Option<Seq<Seq<char>>>,
    pub main_category: Seq<char>,
    pub chains: Option<Seq<Seq<char>>>,
    pub cmc_id: Option<i32>,
    pub status: BusinessStatus,
    pub tags: Option<Seq<Seq<char>>>,
}

/// What a `Media` is in contracts.
pub struct MediaView {
    pub id: i32,
    pub url: Seq<char>,
    pub business_id: i32,
    pub source: MediaSoucre,
}

impl DeepView for Business {
    type V = BusinessView;

    open spec fn deep_view(&self) -> BusinessView {
        BusinessView {
            id: self.id,
            name: self.name@,
            overview: self.overview@,
            token: self.token.deep_view(),
            logo: self.logo.deep_view(),
            types: self.types.deep_view(),
            main_category: self.main_category@,
            chains: self.chains.deep_view(),
            cmc_id: self.cmc_id,
            status: self.status,
            tags: self.tags.deep_view(),
        }
    }
}

impl View for Business {
    type V = BusinessView;

    open spec fn view(&self) -> BusinessView {
        self.deep_view()
    }
}

impl DeepView for Media {
    type V = MediaView;

    open spec fn deep_view(&self) -> MediaView {
        MediaView { id: self.id, url: self.url@, business_id: self.business_id, source: self.source }
    }
}

impl View for Media {
    type V = MediaView;

    open spec fn view(&self) -> MediaView {
        self.deep_view()
    }
}

/// Copies a text that may be missing.
pub fn copy_optional_text(text: &Option<String>) -> (r: Option<String>)
    ensures
        r.deep_view() == text.deep_view(),
{
    match text {
        Some(t) => Some(t.clone()),
        None => None,
    }
}

/// Copies a list of labels, keeping their order.
pub fn copy_labels(labels: &Vec<String>) -> (r: Vec<String>)
    ensures
        r.deep_view() == labels.deep_view(),
{
    let mut out: Vec<String> = Vec::new();
    let mut i: usize = 0;
    while i < labels.len()
        invariant
            i <= labels.len(),
            out.len() == i,
            forall|k: int| 0 <= k < i ==> out[k]@ == labels[k]@,
        decreases labels.len() - i,
    {
        out.push(labels[i].clone());
        i += 1;
    }
    assert(out.deep_view() =~= labels.deep_view());
    out
}

impl Clone for Media {
    fn clone(&self) -> (r: Self)
        ensures
            r@ == self@,
    {
        Media {
            id: self.id,
            url: self.url.clone(),
            business_id: self.business_id,
            source: self.source,
        }
    }
}

impl Clone for Business {
    fn clone(&self) -> (r: Self)
        ensures
            r@ == self@,
    {
        Business {
            id: self.id,
            name: self.name.clone(),
            overview: self.overview.clone(),
            token: copy_optional_text(&self.token),
            logo: copy_optional_text(&self.logo),
            types: match &self.types {
                Some(l) => Some(copy_labels(l)),
                None => None,
            },
            main_category: self.main_category.clone(),
            chains: match &self.chains {
                Some(l) => Some(copy_labels(l)),
                None => None,
            },
            cmc_id: self.cmc_id,
            status: self.status,
            tags: match &self.tags {
                Some(l) => Some(copy_labels(l)),
                None => None,
            },
        }
    }
}

} // verus!
