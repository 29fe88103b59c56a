//! The optional filters that a caller may put on a listing.

use vstd::prelude::*;
use crate::error::ValidationError;

verus! {

/// The filters that the engine knows.
#[derive(Clone, Copy, Debug, PartialEq, Eq, Structural)]
pub enum FilterName {
    /// The business's main category equals the value.
    Category,
    /// The value is among the business's types or tags.
    Tag,
    /// The value is among the business's chains.
    Chain,
    /// The business has at least one photo.
    HasPhoto,
}

/// The filter that goes by `name`, if there is one.
pub open spec fn filter_named(name: Seq<char>) -> Option<FilterName> {
    if name == "category"@ {
        Some(FilterName::Category)
    } else if name == "tag"@ {
        Some(FilterName::Tag)
    } else if name == "chain"@ {
        Some(FilterName::Chain)
    } else if name == "has_photo"@ {
        Some(FilterName::HasPhoto)
    } else {
        None
    }
}

/// Whether two texts hold the same characters.
pub fn same_text(a: &str, b: &str) -> (r: bool)
    ensures
        r == (a@ == b@),
{
    a.to_owned() == b.to_owned()
}

impl FilterName {
    /// Reads a filter's name. Any name but `category`, `tag`, `chain` and `has_photo`
    /// is refused, and the error carries it.
    pub fn parse(name: &str) -> (r: Result<FilterName, ValidationError>)
        ensures
            match filter_named(name@) {
                Some(f) => r == Ok::<FilterName, ValidationError>(f),
                None => r matches Err(ValidationError::UnrecognizedFilter(n)) && n@ == name@,
            },
    {
        if same_text(name, "category") {
            Ok(FilterName::Category)
        } else if same_text(name, "tag") {
            Ok(FilterName::Tag)
        } else if same_text(name, "chain") {
            Ok(FilterName::Chain)
        } else if same_text(name, "has_photo") {
            Ok(FilterName::HasPhoto)
        } else {
            Err(ValidationError::UnrecognizedFilter(name.to_owned()))
        }
    }
}

/// The filters of one request. A filter without a value puts no constraint on the
/// listing: it neither matches nothing nor stands for a wildcard.
#[derive(Debug, PartialEq, Eq)]
pub struct PredicateSet {
    pub category: Option<String>,
    pub tag: Option<String>,
    pub chain: Option<String>,
    pub has_photo: Option<bool>,
}

/// What a `PredicateSet` is in contracts.
pub struct PredicateSetView {
    pub category: Option<Seq<char>>,
    pub tag: Option<Seq<char>>,
    pub chain: Option<Seq<char>>,
    pub has_photo: Option<bool>,
}

impl PredicateSetView {
    /// The set in which no filter has a value.
    pub open spec fn empty() -> PredicateSetView {
        PredicateSetView { category: None, tag: None, chain: None, has_photo: None }
    }

    /// Whether `filter` has a value.
    pub open spec fn has(self, filter: FilterName) -> bool {
        match filter {
            FilterName::Category => self.category is Some,
            FilterName::Tag => self.tag is Some,
            FilterName::Chain => self.chain is Some,
            FilterName::HasPhoto => self.has_photo is Some,
        }
    }

    /// How many filters have a value.
    pub open spec fn present(self) -> nat {
        let one = |b: bool| if b { 1nat } else { 0nat };
        one(self.category is Some) + one(self.tag is Some) + one(self.chain is Some) + one(
            self.has_photo is Some,
        )
    }

    /// The same set with `filter` taken out.
    pub open spec fn without(self, filter: FilterName) -> PredicateSetView {
        match filter {
            FilterName::Category => PredicateSetView { category: None, ..self },
            FilterName::Tag => PredicateSetView { tag: None, ..self },
            FilterName::Chain => PredicateSetView { chain: None, ..self },
            FilterName::HasPhoto => PredicateSetView { has_photo: None, ..self },
        }
    }

    /// The same set with `filter` given `value`, or taken out where `value` is missing.
    /// The flag `has_photo` is read from the text `true`.
    pub open spec fn with(self, filter: FilterName, value: Option<Seq<char>>) -> PredicateSetView {
        match filter {
            FilterName::Category => PredicateSetView { category: value, ..self },
            FilterName::Tag => PredicateSetView { tag: value, ..self },
            FilterName::Chain => PredicateSetView { chain: value, ..self },
            FilterName::HasPhoto => PredicateSetView {
                has_photo: match value {
                    Some(v) => Some(v == "true"@),
                    None => None,
                },
                ..self
            },
        }
    }
}

impl View for PredicateSet {
    type V = PredicateSetView;

    open spec fn view(&self) -> PredicateSetView {
        PredicateSetView {
            category: self.category.deep_view(),
            tag: self.tag.deep_view(),
            chain: self.chain.deep_view(),
            has_photo: self.has_photo,
        }
    }
}

/// What a list of named values means as a predicate set: the values are applied from
/// first to last, so that a later one replaces an earlier one under the same name. The
/// first name that is no filter's makes the whole list meaningless, and is the error.
pub open spec fn folded(entries: Seq<(Seq<char>, Option<Seq<char>>)>) -> Result<
    PredicateSetView,
    Seq<char>,
>
    decreases entries.len(),
{
    if entries.len() == 0 {
        Ok(PredicateSetView::empty())
    } else {
        match folded(entries.drop_last()) {
            Err(name) => Err(name),
            Ok(set) => match filter_named(entries.last().0) {
                None => Err(entries.last().0),
                Some(filter) => Ok(set.with(filter, entries.last().1)),
            },
        }
    }
}

/// The named values of a request as contracts see them.
pub open spec fn entries_view(entries: Seq<(String, Option<String>)>) -> Seq<
    (Seq<char>, Option<Seq<char>>),
> {
    Seq::new(entries.len(), |i: int| (entries[i].0@, entries[i].1.deep_view()))
}

impl PredicateSet {
    /// The set in which no filter has a value.
    pub fn new() -> (r: PredicateSet)
        ensures
            r@ == PredicateSetView::empty(),
    {
        PredicateSet { category: None, tag: None, chain: None, has_photo: None }
    }

    /// Gives `filter` the value `value`, or takes the filter out where `value` is missing.
    pub fn set(&mut self, filter: FilterName, value: Option<&str>)
        ensures
            final(self)@ == old(self)@.with(
                filter,
                match value {
                    Some(v) => Some(v@),
                    None => None,
                },
            ),
    {
        match filter {
            FilterName::Category => {
                self.category = match value {
                    Some(v) => Some(v.to_owned()),
                    None => None,
                };
            },
            FilterName::Tag => {
                self.tag = match value {
                    Some(v) => Some(v.to_owned()),
                    None => None,
                };
            },
            FilterName::Chain => {
                self.chain = match value {
                    Some(v) => Some(v.to_owned()),
                    None => None,
                };
            },
            FilterName::HasPhoto => {
                self.has_photo = match value {
                    Some(v) => Some(same_text(v, "true")),
                    None => None,
                };
            },
        }
    }

    /// Builds the set from named values, as a query string gives them. Fails exactly
    /// when a name is no filter's, with the first such name.
    pub fn from_pairs(entries: &Vec<(String, Option<String>)>) -> (r: Result<
        PredicateSet,
        ValidationError,
    >)
        ensures
            match folded(entries_view(entries@)) {
                Ok(set) => r matches Ok(built) && built@ == set,
                Err(name) => r matches Err(ValidationError::UnrecognizedFilter(n)) && n@ == name,
            },
    {
        let mut set = PredicateSet::new();
        let mut i: usize = 0;
        while i < entries.len()
            invariant
                i <= entries.len(),
                folded(entries_view(entries@).take(i as int)) == Ok::<PredicateSetView, Seq<char>>(
                    set@,
                ),
            decreases entries.len() - i,
        {
            let ghost all = entries_view(entries@);
            proof {
                assert(all.take(i + 1).drop_last() =~= all.take(i as int));
                assert(all.take(i + 1).last() == all[i as int]);
            }
            let entry = &entries[i];
            match FilterName::parse(entry.0.as_str()) {
                Err(e) => {
                    proof {
                        lemma_folded_error_stays(all, i + 1);
                    }
                    return Err(e);
                },
                Ok(filter) => {
                    let value: Option<&str> = match &entry.1 {
                        Some(v) => Some(v.as_str()),
                        None => None,
                    };
                    set.set(filter, value);
                },
            }
            i += 1;
        }
        proof {
            assert(entries_view(entries@).take(i as int) =~= entries_view(entries@));
        }
        Ok(set)
    }

    /// Whether a category is asked for.
    pub fn has_category(&self) -> (r: bool)
        ensures
            r == self@.has(FilterName::Category),
    {
        self.category.is_some()
    }

    /// Whether a tag is asked for.
    pub fn has_tag(&self) -> (r: bool)
        ensures
            r == self@.has(FilterName::Tag),
    {
        self.tag.is_some()
    }

    /// Whether a chain is asked for.
    pub fn has_chain(&self) -> (r: bool)
        ensures
            r == self@.has(FilterName::Chain),
    {
        self.chain.is_some()
    }

    /// Whether the photo filter is asked for.
    pub fn has_has_photo(&self) -> (r: bool)
        ensures
            r == self@.has(FilterName::HasPhoto),
    {
        self.has_photo.is_some()
    }

    /// The category asked for, if any.
    pub fn category(&self) -> (r: Option<&String>)
        ensures
            match r {
                Some(c) => self@.category == Some(c@),
                None => self@.category is None,
            },
    {
        self.category.as_ref()
    }

    /// The tag asked for, if any.
    pub fn tag(&self) -> (r: Option<&String>)
        ensures
            match r {
                Some(t) => self@.tag == Some(t@),
                None => self@.tag is None,
            },
    {
        self.tag.as_ref()
    }

    /// The chain asked for, if any.
    pub fn chain(&self) -> (r: Option<&String>)
        ensures
            match r {
                Some(c) => self@.chain == Some(c@),
                None => self@.chain is None,
            },
    {
        self.chain.as_ref()
    }

    /// The flag of the photo filter, if the filter is asked for.
    pub fn has_photo(&self) -> (r: Option<bool>)
        ensures
            r == self@.has_photo,
    {
        self.has_photo
    }
}

/// An error in a prefix of the entries is the error of the whole list.
pub proof fn lemma_folded_error_stays(entries: Seq<(Seq<char>, Option<Seq<char>>)>, n: int)
    requires
        0 <= n <= entries.len(),
        folded(entries.take(n)) is Err,
    ensures
        folded(entries) == folded(entries.take(n)),
    decreases entries.len() - n,
{
    if n == entries.len() {
        assert(entries.take(n) =~= entries);
    } else {
        assert(entries.take(n + 1).drop_last() =~= entries.take(n));
        lemma_folded_error_stays(entries, n + 1);
    }
}

} // verus!
