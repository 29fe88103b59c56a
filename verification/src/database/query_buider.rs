//! A builder of the condition part of a query text.

use vstd::prelude::*;
use vstd::string::StringExecFns;

verus! {

/// The condition part of a query: empty, or `WHERE` followed by conditions that
/// are joined by `AND`.
#[derive(Debug, PartialEq, Eq)]
pub struct QueryBuider {
    query: String,
}

impl View for QueryBuider {
    type V = Seq<char>;

    closed spec fn view(&self) -> Seq<char> {
        self.query@
    }
}

/// The text that starts a query's conditions with `conditon`.
pub open spec fn first_condition(conditon: Seq<char>) -> Seq<char> {
    "WHERE "@ + conditon
}

/// The text `query` with `conditon` as one more condition.
pub open spec fn one_more_condition(query: Seq<char>, conditon: Seq<char>) -> Seq<char> {
    query + " AND "@ + conditon
}

impl QueryBuider {
    /// A builder without any condition.
    pub fn new() -> (r: Self)
        ensures
            r@ == Seq::<char>::empty(),
    {
        Self { query: String::new() }
    }

    /// The text built so far.
    pub fn get_query(&self) -> (r: String)
        ensures
            r@ == self@,
    {
        self.query.clone()
    }

    /// Makes `conditon` the only condition, whatever was built before.
    pub fn where_(&mut self, conditon: &str)
        ensures
            final(self)@ == first_condition(conditon@),
    {
        let mut text = String::from_str("WHERE ");
        text.append(conditon);
        self.query = text;
    }

    /// Adds `conditon` to the conditions: as the first one where there is none yet,
    /// and behind `AND` otherwise.
    pub fn and_where(&mut self, conditon: &str)
        ensures
            final(self)@ == if old(self)@.len() == 0 {
                first_condition(conditon@)
            } else {
                one_more_condition(old(self)@, conditon@)
            },
    {
        if self.query.as_str().unicode_len() == 0 {
            self.where_(conditon);
        } else {
            let mut text = self.query.clone();
            text.append(" AND ");
            text.append(conditon);
            self.query = text;
        }
    }
}

} // verus!
