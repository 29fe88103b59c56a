//! The crawl of token prices: businesses are read page by page, and the price
//! service is asked once for each page.

use vstd::prelude::*;
use vstd::string::StringExecFns;

verus! {

/// How many businesses one page holds.
pub const CHUNK_SIZE: i64 = 50;

/// The character of a digit.
pub open spec fn digit(d: nat) -> char
    recommends
        d < 10,
{
    (0x30 + d) as char
}

/// A number in decimal writing, without a sign.
pub open spec fn digits(n: nat) -> Seq<char>
    decreases n,
{
    if n < 10 {
        seq![digit(n)]
    } else {
        digits(n / 10).push(digit(n % 10))
    }
}

/// A number in decimal writing, with `-` in front of a negative one.
pub open spec fn decimal(n: int) -> Seq<char> {
    if n < 0 {
        seq!['-'] + digits((-n) as nat)
    } else {
        digits(n as nat)
    }
}

/// The identities in decimal writing, with a comma between each two.
pub open spec fn joined(ids: Seq<i32>) -> Seq<char>
    decreases ids.len(),
{
    if ids.len() == 0 {
        Seq::empty()
    } else if ids.len() == 1 {
        decimal(ids[0] as int)
    } else {
        joined(ids.drop_last()) + seq![','] + decimal(ids.last() as int)
    }
}

/// How many businesses come before page `page`; pages are counted from 1.
pub open spec fn skipped(page: int) -> int {
    (page - 1) * CHUNK_SIZE
}

/// The text of one digit.
fn digit_text(d: u8) -> (r: &'static str)
    requires
        d < 10,
    ensures
        r@ == seq![digit(d as nat)],
{
    proof {
        reveal_strlit("0");
        reveal_strlit("1");
        reveal_strlit("2");
        reveal_strlit("3");
        reveal_strlit("4");
        reveal_strlit("5");
        reveal_strlit("6");
        reveal_strlit("7");
        reveal_strlit("8");
        reveal_strlit("9");
    }
    let r = if d == 0 {
        "0"
    } else if d == 1 {
        "1"
    } else if d == 2 {
        "2"
    } else if d == 3 {
        "3"
    } else if d == 4 {
        "4"
    } else if d == 5 {
        "5"
    } else if d == 6 {
        "6"
    } else if d == 7 {
        "7"
    } else if d == 8 {
        "8"
    } else {
        "9"
    };
    assert(r@ =~= seq![digit(d as nat)]);
    r
}

/// Writes a number in decimal.
pub fn decimal_text(n: i32) -> (r: String)
    ensures
        r@ == decimal(n as int),
{
    let wide: i64 = n as i64;
    let size: u64 = if wide < 0 {
        (-wide) as u64
    } else {
        wide as u64
    };
    let mut left: u64 = size / 10;
    let mut text = String::from_str(digit_text((size % 10) as u8));
    while left > 0
        invariant
            left > 0 ==> digits(size as nat) == digits(left as nat) + text@,
            left == 0 ==> digits(size as nat) == text@,
        decreases left,
    {
        let d = digit_text((left % 10) as u8);
        let ghost before = text@;
        text = String::from_str(d).concat(text.as_str());
        proof {
            assert(text@ == seq![digit((left % 10) as nat)] + before);
            if left < 10 {
                assert(digits(left as nat) + before =~= text@);
            } else {
                assert(digits(left as nat) + before =~= digits((left / 10) as nat) + text@);
            }
        }
        left = left / 10;
    }
    if wide < 0 {
        proof {
            reveal_strlit("-");
            assert("-"@ =~= seq!['-']);
        }
        String::from_str("-").concat(text.as_str())
    } else {
        text
    }
}

/// Joins the identities of one page for the price service: in decimal, with a comma
/// between each two.
pub fn joined_ids(cmc_ids: &Vec<i32>) -> (r: String)
    ensures
        r@ == joined(cmc_ids@),
{
    let mut text = String::new();
    let mut i: usize = 0;
    assert(cmc_ids@.take(0) =~= Seq::<i32>::empty());
    while i < cmc_ids.len()
        invariant
            i <= cmc_ids.len(),
            text@ == joined(cmc_ids@.take(i as int)),
        decreases cmc_ids.len() - i,
    {
        proof {
            assert(cmc_ids@.take(i + 1).drop_last() =~= cmc_ids@.take(i as int));
            assert(cmc_ids@.take(i + 1).last() == cmc_ids[i as int]);
            reveal_strlit(",");
            assert(","@ =~= seq![',']);
        }
        if i > 0 {
            text.append(",");
        }
        let number = decimal_text(cmc_ids[i]);
        text.append(number.as_str());
        proof {
            if i == 0 {
                assert(cmc_ids@.take(1)[0] == cmc_ids[0]);
                assert(Seq::<char>::empty() + decimal(cmc_ids[0] as int) =~= decimal(
                    cmc_ids[0] as int,
                ));
            }
        }
        i += 1;
    }
    assert(cmc_ids@.take(i as int) =~= cmc_ids@);
    text
}

/// What the crawl does with one page of businesses.
#[derive(Debug, PartialEq, Eq)]
pub enum CrawlStep {
    /// The page is empty: the crawl is over.
    Stop,
    /// Ask the price service for the quotes of these identities.
    Quote { id: String },
}

/// The place of page `page` among the businesses: how many to take, and how many to
/// skip. Nothing where the page is not 1 at least, or lies beyond what can be
/// counted.
pub fn page_window(page: i64) -> (r: Option<(i64, i64)>)
    ensures
        page >= 1 && skipped(page as int) <= i64::MAX ==> r == Some((CHUNK_SIZE, skipped(page as int) as i64)),
        !(page >= 1 && skipped(page as int) <= i64::MAX) ==> r is None,
{
    if page < 1 {
        return None;
    }
    match (page - 1).checked_mul(CHUNK_SIZE) {
        Some(skip) => Some((CHUNK_SIZE, skip)),
        None => None,
    }
}

/// Decides what to do with one page of businesses, given by their identities at
/// the price service.
pub fn crawl_page(cmc_ids: &Vec<i32>) -> (r: CrawlStep)
    ensures
        cmc_ids.len() == 0 ==> r == CrawlStep::Stop,
        cmc_ids.len() > 0 ==> (r matches CrawlStep::Quote { id } && id@ == joined(cmc_ids@)),
{
    if cmc_ids.len() == 0 {
        CrawlStep::Stop
    } else {
        CrawlStep::Quote { id: joined_ids(cmc_ids) }
    }
}

} // verus!
