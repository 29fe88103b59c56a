//! Bearer credentials: the token in a header, the claims in a token, and the guard
//! that lets a caller in.

use vstd::prelude::*;
use vstd::string::StringExecFns;
use crate::error::AuthError;
use crate::services::auth::UserClaims;

verus! {

/// How many seconds a day has.
pub const SECONDS_PER_DAY: i64 = 86400;

/// How many days an access token lasts.
pub const ACCESS_DAYS: i64 = 3;

/// How many days a refresh token lasts.
pub const REFRESH_DAYS: i64 = 60;

/// What a token says of its bearer.
#[derive(Debug, PartialEq, Eq)]
pub struct Claims {
    /// The second, counted from 1970, at which the token ends.
    pub exp: u32,
    pub id: i32,
    pub wallet_address: String,
    pub is_admin: bool,
}

/// What a `Claims` is in contracts.
pub struct ClaimsView {
    pub exp: u32,
    pub id: i32,
    pub wallet_address: Seq<char>,
    pub is_admin: bool,
}

impl View for Claims {
    type V = ClaimsView;

    open spec fn view(&self) -> ClaimsView {
        ClaimsView {
            exp: self.exp,
            id: self.id,
            wallet_address: self.wallet_address@,
            is_admin: self.is_admin,
        }
    }
}

/// A caller whose token was accepted.
#[derive(Debug, PartialEq, Eq)]
pub struct Guard(pub Claims);

/// Why a token was not accepted.
#[derive(Clone, Copy, Debug, PartialEq, Eq, Structural)]
pub enum TokenFailure {
    /// The token was sound, and has ended.
    Expired,
    /// Anything else: a wrong signature, a wrong shape, wrong claims.
    Invalid,
}

/// Whether a character is white space.
pub open spec fn is_white(c: char) -> bool {
    let n = c as u32;
    ||| 0x09 <= n <= 0x0D
    ||| n == 0x20
    ||| n == 0x85
    ||| n == 0xA0
    ||| n == 0x1680
    ||| 0x2000 <= n <= 0x200A
    ||| n == 0x2028
    ||| n == 0x2029
    ||| n == 0x202F
    ||| n == 0x205F
    ||| n == 0x3000
}

/// How many times in a row `word` stands at the start of `text`, counted in characters
/// of `text` that these copies cover.
pub open spec fn scheme_len(text: Seq<char>, word: Seq<char>) -> nat
    decreases text.len(),
{
    if word.len() > 0 && word.is_prefix_of(text) {
        word.len() + scheme_len(text.skip(word.len() as int), word)
    } else {
        0
    }
}

/// How many characters of white space stand at the start of `text`.
pub open spec fn leading_white(text: Seq<char>) -> nat
    decreases text.len(),
{
    if text.len() > 0 && is_white(text.first()) {
        1 + leading_white(text.drop_first())
    } else {
        0
    }
}

/// How many characters of white space stand at the end of `text`.
pub open spec fn trailing_white(text: Seq<char>) -> nat
    decreases text.len(),
{
    if text.len() > 0 && is_white(text.last()) {
        1 + trailing_white(text.drop_last())
    } else {
        0
    }
}

/// `text` without the white space at its two ends.
pub open spec fn trimmed(text: Seq<char>) -> Seq<char> {
    let rest = text.skip(leading_white(text) as int);
    rest.take(rest.len() - trailing_white(rest))
}

/// The token in the text of an authorization header: what is left once every
/// `Bearer` at the start, and then the white space at both ends, is taken away.
pub open spec fn token_in(header: Seq<char>) -> Seq<char> {
    trimmed(header.skip(scheme_len(header, "Bearer"@) as int))
}

/// The expiry of a token issued at the second `now` for `days` days, as the 32 bits
/// that a token holds.
pub open spec fn expiry(now: i64, days: i64) -> u32 {
    (now + days * SECONDS_PER_DAY) as u32
}

/// The claims of a token for `id`, issued at the second `now` for `days` days.
pub open spec fn claims_at(id: i32, wallet_address: Seq<char>, is_admin: bool, now: i64, days: i64) -> ClaimsView {
    ClaimsView { exp: expiry(now, days), id, wallet_address, is_admin }
}

/// Whether a character is white space.
pub fn is_white_char(c: char) -> (r: bool)
    ensures
        r == is_white(c),
{
    let n: u32 = c as u32;
    (0x09 <= n && n <= 0x0D) || n == 0x20 || n == 0x85 || n == 0xA0 || n == 0x1680 || (0x2000 <= n
        && n <= 0x200A) || n == 0x2028 || n == 0x2029 || n == 0x202F || n == 0x205F || n == 0x3000
}

/// Whether `word` stands in `text` at the place `at`.
pub fn stands_at(text: &str, at: usize, word: &str) -> (r: bool)
    ensures
        r == (at <= text@.len() && word@.is_prefix_of(text@.skip(at as int))),
{
    let n = text.unicode_len();
    let m = word.unicode_len();
    if at > n || m > n - at {
        return false;
    }
    let mut i: usize = 0;
    while i < m
        invariant
            i <= m,
            m == word@.len(),
            n == text@.len(),
            at + m <= n,
            forall|k: int| 0 <= k < i ==> word@[k] == text@[at + k],
        decreases m - i,
    {
        if word.get_char(i) != text.get_char(at + i) {
            assert(text@.skip(at as int)[i as int] == text@[at + i]);
            return false;
        }
        i += 1;
    }
    assert(word@ =~= text@.skip(at as int).subrange(0, m as int));
    true
}

/// Reads the token from the text of an authorization header.
pub fn bearer_token(header: &str) -> (token: String)
    ensures
        token@ == token_in(header@),
{
    let word = "Bearer";
    let n = header.unicode_len();
    let m = word.unicode_len();
    let ghost text = header@;
    let mut start: usize = 0;
    proof {
        assert(text.skip(0) =~= text);
    }
    while m > 0 && stands_at(header, start, word)
        invariant
            start <= n,
            n == text.len(),
            text == header@,
            m == word@.len(),
            scheme_len(text, word@) == start + scheme_len(text.skip(start as int), word@),
        decreases n - start,
    {
        proof {
            assert(text.skip(start as int).skip(m as int) =~= text.skip(start + m));
        }
        start += m;
    }
    assert(scheme_len(text, word@) == start);
    let ghost body = text.skip(start as int);
    let mut a: usize = start;
    proof {
        assert(body.skip(0) =~= body);
    }
    while a < n && is_white_char(header.get_char(a))
        invariant
            start <= a <= n,
            n == text.len(),
            text == header@,
            body == text.skip(start as int),
            leading_white(body) == (a - start) + leading_white(body.skip(a - start)),
        decreases n - a,
    {
        proof {
            let here = body.skip(a - start);
            assert(here.first() == text[a as int]);
            assert(here.drop_first() =~= body.skip(a - start + 1));
        }
        a += 1;
    }
    proof {
        let here = body.skip(a - start);
        if a < n {
            assert(here.first() == text[a as int]);
        }
        assert(leading_white(body) == a - start);
    }
    let ghost rest = body.skip(a - start);
    let mut b: usize = n;
    proof {
        assert(rest.take(rest.len() as int) =~= rest);
    }
    while b > a && is_white_char(header.get_char(b - 1))
        invariant
            a <= b <= n,
            start <= a,
            n == text.len(),
            text == header@,
            rest == text.skip(start as int).skip(a - start),
            trailing_white(rest) == (n - b) + trailing_white(rest.take(b - a)),
        decreases b,
    {
        proof {
            let here = rest.take(b - a);
            assert(here.last() == text[b - 1]);
            assert(here.drop_last() =~= rest.take(b - a - 1));
        }
        b -= 1;
    }
    proof {
        let here = rest.take(b - a);
        if b > a {
            assert(here.last() == text[b - 1]);
        }
        assert(trailing_white(rest) == n - b);
        assert(text.subrange(a as int, b as int) =~= rest.take(rest.len() - trailing_white(rest)));
    }
    String::from_str(header.substring_char(a, b))
}

/// The current second, counted from 1970, as `chrono::Utc::now` and
/// `DateTime::timestamp` give it. Nothing is claimed of it: it is the clock's. The
/// call fails where the clock stands before 1970.
#[verifier::external_body]
fn unix_now() -> (now: i64) {
    chrono::Utc::now().timestamp()
}

impl Claims {
    /// The claims of a token for `user_claims`, issued at the second `now` for
    /// `days` days.
    pub fn issued_at(user_claims: &UserClaims, now: i64, days: i64) -> (r: Claims)
        ensures
            r@ == claims_at(
                user_claims.id,
                user_claims.wallet_address@,
                user_claims.is_admin,
                now,
                days,
            ),
    {
        let end: i128 = now as i128 + days as i128 * 86400;
        Claims {
            exp: #[verifier::truncate]
            (end as u32),
            id: user_claims.id,
            wallet_address: user_claims.wallet_address.clone(),
            is_admin: user_claims.is_admin,
        }
    }

    /// The claims of an access token issued now: it lasts `ACCESS_DAYS` days.
    pub fn new_access(user_claims: &UserClaims) -> (r: Claims)
        ensures
            exists|now: i64|
                r@ == #[trigger] claims_at(
                    user_claims.id,
                    user_claims.wallet_address@,
                    user_claims.is_admin,
                    now,
                    ACCESS_DAYS,
                ),
    {
        let now = unix_now();
        Claims::issued_at(user_claims, now, ACCESS_DAYS)
    }

    /// The claims of a refresh token issued now: it lasts `REFRESH_DAYS` days.
    pub fn new_refresh(user_claims: &UserClaims) -> (r: Claims)
        ensures
            exists|now: i64|
                r@ == #[trigger] claims_at(
                    user_claims.id,
                    user_claims.wallet_address@,
                    user_claims.is_admin,
                    now,
                    REFRESH_DAYS,
                ),
    {
        let now = unix_now();
        Claims::issued_at(user_claims, now, REFRESH_DAYS)
    }
}

impl Guard {
    /// Reads the token of a caller who must present one. A missing header and an
    /// empty one are both missing credentials.
    pub fn token_of(header: Option<&str>) -> (r: Result<String, AuthError>)
        ensures
            match header {
                Some(h) if h@.len() > 0 => r matches Ok(token) && token@ == token_in(h@),
                _ => r == Err::<String, AuthError>(AuthError::MissingCredentials),
            },
    {
        match header {
            None => Err(AuthError::MissingCredentials),
            Some(h) => {
                if h.unicode_len() == 0 {
                    Err(AuthError::MissingCredentials)
                } else {
                    Ok(bearer_token(h))
                }
            },
        }
    }

    /// Lets the caller in whose token was accepted, and says why another is not.
    pub fn from_decoded(decoded: Result<Claims, TokenFailure>) -> (r: Result<Guard, AuthError>)
        ensures
            match decoded {
                Ok(claims) => r == Ok::<Guard, AuthError>(Guard(claims)),
                Err(TokenFailure::Expired) => r == Err::<Guard, AuthError>(
                    AuthError::ExpriedCredentials,
                ),
                Err(TokenFailure::Invalid) => r == Err::<Guard, AuthError>(AuthError::WrongCredentials),
            },
    {
        match decoded {
            Ok(claims) => Ok(Guard(claims)),
            Err(TokenFailure::Expired) => Err(AuthError::ExpriedCredentials),
            Err(TokenFailure::Invalid) => Err(AuthError::WrongCredentials),
        }
    }
}

} // verus!
