//! Signing in with a wallet: the proof that a caller holds a wallet, the account that
//! goes with the wallet, and the tokens that the account gets.

use vstd::prelude::*;
use crate::error::{AuthError, StoreError};
use crate::intercept::sercurity::{claims_at, Claims, ACCESS_DAYS, REFRESH_DAYS};

verus! {

/// The account that a token is issued for.
#[derive(Debug, PartialEq, Eq)]
pub struct UserClaims {
    pub id: i32,
    pub wallet_address: String,
    pub is_admin: bool,
}

/// What a `UserClaims` is in contracts.
pub struct UserClaimsView {
    pub id: i32,
    pub wallet_address: Seq<char>,
    pub is_admin: bool,
}

impl View for UserClaims {
    type V = UserClaimsView;

    open spec fn view(&self) -> UserClaimsView {
        UserClaimsView { id: self.id, wallet_address: self.wallet_address@, is_admin: self.is_admin }
    }
}

/// What a caller gets for signing in.
#[derive(Debug, PartialEq, Eq)]
pub struct Tokens {
    pub access_token: String,
    pub refresh_token: String,
    pub user: UserClaims,
}

/// What a caller presents to sign in: a sign-in message and the wallet's signature
/// under it, in hexadecimal.
#[derive(Debug, PartialEq, Eq)]
pub struct AuthPayload {
    pub message: String,
    pub signature: String,
}

/// The address in a sign-in message, as `siwe` reads the message; nothing where
/// `siwe` refuses the message.
pub uninterp spec fn siwe_address(message: Seq<char>) -> Option<Seq<u8>>;

/// The 65 bytes of a signature written in hexadecimal, as `ethers-core` reads it;
/// nothing where `ethers-core` refuses the text.
pub uninterp spec fn signature_bytes(text: Seq<char>) -> Option<Seq<u8>>;

/// Whether, by `ethers-core`, the signature is one that the wallet at `address` made
/// under the message.
pub uninterp spec fn signed_by(signature: Seq<u8>, message: Seq<char>, address: Seq<u8>) -> bool;

/// The text of an address with the mixed-case checksum, as `siwe` writes it.
pub uninterp spec fn eip55_text(address: Seq<u8>) -> Seq<char>;

/// Parses a sign-in message with `siwe::Message::from_str` and hands out its
/// address. The address is a function of the text alone; it is named, not stated.
#[verifier::external_body]
fn read_address(message: &str) -> (r: Option<[u8; 20]>)
    ensures
        match r {
            Some(address) => siwe_address(message@) == Some(address@),
            None => siwe_address(message@) is None,
        },
{
    match message.parse::<siwe::Message>() {
        Ok(parsed) => Some(parsed.address),
        Err(_) => None,
    }
}

/// Parses a signature with `ethers_core::types::Signature::from_str` and hands out
/// its 65 bytes: r, s and the recovery byte. The bytes are a function of the text
/// alone; they are named, not stated.
#[verifier::external_body]
fn read_signature(text: &str) -> (r: Option<[u8; 65]>)
    ensures
        match r {
            Some(bytes) => signature_bytes(text@) == Some(bytes@),
            None => signature_bytes(text@) is None,
        },
{
    match text.parse::<ethers_core::types::Signature>() {
        Ok(signature) => Some(<[u8; 65]>::from(signature)),
        Err(_) => None,
    }
}

/// Checks a signature with `ethers_core::types::Signature::verify`: the message is
/// hashed as a personal message, the signer's address is recovered and held
/// against `address`. The outcome is a function of the three arguments alone; it is
/// named, not stated.
#[verifier::external_body]
fn check_signature(signature: &[u8; 65], message: &str, address: &[u8; 20]) -> (r: bool)
    ensures
        r == signed_by(signature@, message@, address@),
{
    match ethers_core::types::Signature::try_from(&signature[..]) {
        Ok(parsed) => parsed.verify(message.to_owned(), *address).is_ok(),
        Err(_) => false,
    }
}

/// Writes an address with `siwe::eip55`. The text is a function of the address
/// alone; it is named, not stated.
#[verifier::external_body]
fn write_address(address: &[u8; 20]) -> (r: String)
    ensures
        r@ == eip55_text(address@),
{
    siwe::eip55(address)
}

/// A fresh nonce from `siwe::generate_nonce`: 17 characters, drawn at random.
#[verifier::external_body]
fn fresh_nonce() -> (r: String)
    ensures
        r@.len() == 17,
{
    siwe::generate_nonce()
}

/// The address that a sign-in is good for: the one in the message, where the message
/// reads, the signature reads, and the signature is the address's own.
pub open spec fn proven_address(
    address: Option<Seq<u8>>,
    signature: Option<Seq<u8>>,
    message: Seq<char>,
) -> Option<Seq<u8>> {
    match (address, signature) {
        (Some(a), Some(s)) => if signed_by(s, message, a) {
            Some(a)
        } else {
            None
        },
        _ => None,
    }
}

/// Decides a sign-in from what was read of it: the address in the message, and
/// whether the signature read and was found to be the address's own.
pub fn verdict(address: Option<[u8; 20]>, signature_holds: Option<bool>) -> (r: Result<
    [u8; 20],
    AuthError,
>)
    ensures
        match (address, signature_holds) {
            (Some(a), Some(true)) => r == Ok::<[u8; 20], AuthError>(a),
            _ => r == Err::<[u8; 20], AuthError>(AuthError::WrongSignature),
        },
{
    match (address, signature_holds) {
        (Some(a), Some(true)) => Ok(a),
        _ => Err(AuthError::WrongSignature),
    }
}

/// Checks that a caller holds the wallet that the sign-in message names, and hands
/// out the wallet's address in its checksummed writing. Whatever fails, the message,
/// the signature's text or the signature itself, the caller learns only that the
/// signature is wrong.
pub fn wallet_of(payload: &AuthPayload) -> (r: Result<String, AuthError>)
    ensures
        match proven_address(
            siwe_address(payload.message@),
            signature_bytes(payload.signature@),
            payload.message@,
        ) {
            Some(a) => r matches Ok(wallet) && wallet@ == eip55_text(a),
            None => r == Err::<String, AuthError>(AuthError::WrongSignature),
        },
{
    let address = read_address(payload.message.as_str());
    let holds = match &address {
        None => None,
        Some(a) => match read_signature(payload.signature.as_str()) {
            None => None,
            Some(s) => Some(check_signature(&s, payload.message.as_str(), a)),
        },
    };
    match verdict(address, holds) {
        Ok(a) => Ok(write_address(&a)),
        Err(e) => Err(e),
    }
}

/// Hands out a nonce for a sign-in message.
pub fn get_nonce() -> (r: String)
    ensures
        r@.len() == 17,
{
    fresh_nonce()
}

/// Why no account could be had for a wallet.
#[derive(Clone, Copy, Debug, PartialEq, Eq, Structural)]
pub enum AccountError {
    /// The store failed.
    Store(StoreError),
    /// The store answered what was not asked.
    UnexpectedAnswer,
}

/// Where the search for a wallet's account stands.
#[derive(Debug, PartialEq, Eq)]
pub enum AccountState {
    /// The account of the wallet was asked for.
    AwaitingUser { wallet_address: String },
    /// There was none, and a new account was asked for.
    AwaitingNewUser { wallet_address: String },
    /// The new account is there, and its social record was asked for.
    AwaitingSocial { user: UserClaims },
    /// The search has ended.
    Finished,
}

/// What the store said.
#[derive(Debug, PartialEq, Eq)]
pub enum AccountAnswer {
    /// The account of the wallet, if there is one.
    User(Option<UserClaims>),
    /// A new account was made, with this identity.
    UserInserted { id: i32 },
    /// The social record was made.
    SocialInserted,
    /// The store failed.
    Failed(StoreError),
}

/// What is to be done next.
#[derive(Debug, PartialEq, Eq)]
pub enum AccountStep {
    /// Ask the store for the account of this wallet.
    FindUser { wallet_address: String },
    /// Have the store make an account for this wallet.
    InsertUser { wallet_address: String },
    /// Have the store make the social record of this account.
    InsertSocial { user_id: i32 },
    /// The wallet's account is this.
    Done(UserClaims),
    /// No account could be had.
    Fail(AccountError),
}

/// What `handle_address_advance` owes for a state and an answer.
pub open spec fn account_advanced(
    state: AccountState,
    answer: AccountAnswer,
    next: AccountState,
    step: AccountStep,
) -> bool {
    match (state, answer) {
        (AccountState::Finished, _) => next is Finished && step == AccountStep::Fail(
            AccountError::UnexpectedAnswer,
        ),
        (_, AccountAnswer::Failed(e)) => next is Finished && step == AccountStep::Fail(
            AccountError::Store(e),
        ),
        (AccountState::AwaitingUser { wallet_address }, AccountAnswer::User(Some(user))) => next
            is Finished && step == AccountStep::Done(user),
        (AccountState::AwaitingUser { wallet_address }, AccountAnswer::User(None)) => {
            &&& next matches AccountState::AwaitingNewUser { wallet_address: kept }
            &&& kept@ == wallet_address@
            &&& step matches AccountStep::InsertUser { wallet_address: asked }
            &&& asked@ == wallet_address@
        },
        (AccountState::AwaitingNewUser { wallet_address }, AccountAnswer::UserInserted { id }) => {
            &&& next matches AccountState::AwaitingSocial { user }
            &&& user@ == (UserClaimsView { id, wallet_address: wallet_address@, is_admin: false })
            &&& step == (AccountStep::InsertSocial { user_id: id })
        },
        (AccountState::AwaitingSocial { user }, AccountAnswer::SocialInserted) => next is Finished
            && step == AccountStep::Done(user),
        _ => next is Finished && step == AccountStep::Fail(AccountError::UnexpectedAnswer),
    }
}

/// Opens the search for the account of a wallet: the store is asked for it.
pub fn handle_address(wallet_address: String) -> (r: (AccountState, AccountStep))
    ensures
        r.0 matches AccountState::AwaitingUser { wallet_address: kept } && kept@ == wallet_address@,
        r.1 matches AccountStep::FindUser { wallet_address: asked } && asked@ == wallet_address@,
{
    let asked = wallet_address.clone();
    (AccountState::AwaitingUser { wallet_address }, AccountStep::FindUser { wallet_address: asked })
}

/// Takes the store's answer and says what comes next.
///
/// A wallet that has an account gets that account. A wallet without one gets a new
/// account, then the social record of that account, and then stands as an account
/// that is no administrator's. A failure of the store ends the search.
pub fn handle_address_advance(state: AccountState, answer: AccountAnswer) -> (r: (
    AccountState,
    AccountStep,
))
    ensures
        account_advanced(state, answer, r.0, r.1),
{
    match state {
        AccountState::Finished => (
            AccountState::Finished,
            AccountStep::Fail(AccountError::UnexpectedAnswer),
        ),
        AccountState::AwaitingUser { wallet_address } => match answer {
            AccountAnswer::Failed(e) => (
                AccountState::Finished,
                AccountStep::Fail(AccountError::Store(e)),
            ),
            AccountAnswer::User(Some(user)) => (AccountState::Finished, AccountStep::Done(user)),
            AccountAnswer::User(None) => {
                let asked = wallet_address.clone();
                (
                    AccountState::AwaitingNewUser { wallet_address },
                    AccountStep::InsertUser { wallet_address: asked },
                )
            },
            _ => (AccountState::Finished, AccountStep::Fail(AccountError::UnexpectedAnswer)),
        },
        AccountState::AwaitingNewUser { wallet_address } => match answer {
            AccountAnswer::Failed(e) => (
                AccountState::Finished,
                AccountStep::Fail(AccountError::Store(e)),
            ),
            AccountAnswer::UserInserted { id } => {
                let user = UserClaims { id, wallet_address, is_admin: false };
                (AccountState::AwaitingSocial { user }, AccountStep::InsertSocial { user_id: id })
            },
            _ => (AccountState::Finished, AccountStep::Fail(AccountError::UnexpectedAnswer)),
        },
        AccountState::AwaitingSocial { user } => match answer {
            AccountAnswer::Failed(e) => (
                AccountState::Finished,
                AccountStep::Fail(AccountError::Store(e)),
            ),
            AccountAnswer::SocialInserted => (AccountState::Finished, AccountStep::Done(user)),
            _ => (AccountState::Finished, AccountStep::Fail(AccountError::UnexpectedAnswer)),
        },
    }
}

/// The claims of the two tokens that an account gets now: those of the access token
/// and those of the refresh token.
pub fn token_claims(user_claims: &UserClaims) -> (r: (Claims, Claims))
    ensures
        exists|now: i64|
            r.0@ == #[trigger] claims_at(
                user_claims.id,
                user_claims.wallet_address@,
                user_claims.is_admin,
                now,
                ACCESS_DAYS,
            ),
        exists|now: i64|
            r.1@ == #[trigger] claims_at(
                user_claims.id,
                user_claims.wallet_address@,
                user_claims.is_admin,
                now,
                REFRESH_DAYS,
            ),
{
    (Claims::new_access(user_claims), Claims::new_refresh(user_claims))
}

/// Puts the two signed tokens together with the account that they are for.
pub fn generate_tokens(user_claims: UserClaims, access_token: String, refresh_token: String) -> (r:
    Tokens)
    ensures
        r.access_token == access_token,
        r.refresh_token == refresh_token,
        r.user == user_claims,
{
    Tokens { access_token, refresh_token, user: user_claims }
}

} // verus!
