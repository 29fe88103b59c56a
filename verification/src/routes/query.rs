//! Paging parameters.

use vstd::prelude::*;

verus! {

/// The smallest page that can be asked for.
pub const MIN_PAGE: usize = 1;

/// The most rows that a page can hold.
pub const MAX_PER_PAGE: usize = 100;

/// Paging parameters. Each may be missing.
#[derive(Clone, Copy, Debug, PartialEq, Eq, Structural)]
pub struct Pagination {
    pub page: Option<usize>,
    pub per_page: Option<usize>,
}

/// What is wrong with paging parameters.
#[derive(Clone, Copy, Debug, PartialEq, Eq, Structural)]
pub struct PaginationErrors {
    /// The page is below `MIN_PAGE`.
    pub page: bool,
    /// The page holds more than `MAX_PER_PAGE` rows.
    pub per_page: bool,
}

impl Pagination {
    /// Whether the page, where there is one, is `MIN_PAGE` at least.
    pub open spec fn page_in_range(&self) -> bool {
        self.page matches Some(p) ==> p >= MIN_PAGE
    }

    /// Whether the rows of a page, where they are given, are `MAX_PER_PAGE` at most.
    pub open spec fn per_page_in_range(&self) -> bool {
        self.per_page matches Some(n) ==> n <= MAX_PER_PAGE
    }

    /// Checks the parameters, and says of each whether it is out of range. A
    /// missing parameter is in range.
    pub fn validate(&self) -> (r: Result<(), PaginationErrors>)
        ensures
            self.page_in_range() && self.per_page_in_range() ==> r == Ok::<(), PaginationErrors>(()),
            !(self.page_in_range() && self.per_page_in_range()) ==> r == Err::<(), PaginationErrors>(
                PaginationErrors {
                    page: !self.page_in_range(),
                    per_page: !self.per_page_in_range(),
                },
            ),
    {
        let page = match self.page {
            Some(p) => p < MIN_PAGE,
            None => false,
        };
        let per_page = match self.per_page {
            Some(n) => n > MAX_PER_PAGE,
            None => false,
        };
        if page || per_page {
            Err(PaginationErrors { page, per_page })
        } else {
            Ok(())
        }
    }
}

} // verus!
