//! A sample request body.

use vstd::prelude::*;

verus! {

/// The fewest characters that a name can have.
pub const MIN_NAME_LENGTH: usize = 3;

/// The lowest age that is accepted.
pub const MIN_AGE: usize = 18;

/// The categories of the sample body.
#[derive(Clone, Copy, Debug, PartialEq, Eq, Structural)]
pub enum Category {
    All,
    Dex,
    Cex,
}

/// A sample request body.
#[derive(Debug, PartialEq, Eq)]
pub struct MokeBody {
    pub name: String,
    pub age: usize,
    pub category: Category,
}

/// What is wrong with a sample body.
#[derive(Clone, Copy, Debug, PartialEq, Eq, Structural)]
pub struct MokeBodyErrors {
    /// The name has fewer than `MIN_NAME_LENGTH` characters.
    pub name: bool,
    /// The age is below `MIN_AGE`.
    pub age: bool,
}

/// The text under which a category travels.
pub open spec fn category_text(category: Category) -> Seq<char> {
    match category {
        Category::All => "all"@,
        Category::Dex => "dev"@,
        Category::Cex => "cex"@,
    }
}

impl Category {
    /// The text under which the category travels.
    pub fn as_str(&self) -> (r: &'static str)
        ensures
            r@ == category_text(*self),
    {
        match self {
            Category::All => "all",
            Category::Dex => "dev",
            Category::Cex => "cex",
        }
    }
}

impl MokeBody {
    /// Checks the body, and says of each field whether it breaks its rule. The
    /// name's length is counted in characters.
    pub fn validate(&self) -> (r: Result<(), MokeBodyErrors>)
        ensures
            self.name@.len() >= MIN_NAME_LENGTH && self.age >= MIN_AGE ==> r == Ok::<
                (),
                MokeBodyErrors,
            >(()),
            !(self.name@.len() >= MIN_NAME_LENGTH && self.age >= MIN_AGE) ==> r == Err::<
                (),
                MokeBodyErrors,
            >(MokeBodyErrors { name: self.name@.len() < MIN_NAME_LENGTH, age: self.age < MIN_AGE }),
    {
        let name = self.name.as_str().unicode_len() < MIN_NAME_LENGTH;
        let age = self.age < MIN_AGE;
        if name || age {
            Err(MokeBodyErrors { name, age })
        } else {
            Ok(())
        }
    }
}

} // verus!
