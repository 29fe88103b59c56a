//! The accounts behind a caller: a token names one account, and the identity that
//! the account is linked to may control more.

use vstd::prelude::*;
use crate::error::StoreError;
use crate::intercept::sercurity::{bearer_token, token_in, Claims, TokenFailure};

verus! {

/// A caller and all the accounts that the caller's identity controls.
#[derive(Debug, PartialEq, Eq)]
pub struct UserIdentifier {
    pub controller_address: String,
    pub ids: Vec<i32>,
    pub id: i32,
    pub wallet_address: String,
}

/// What a `UserIdentifier` is in contracts.
pub struct UserIdentifierView {
    pub controller_address: Seq<char>,
    pub ids: Seq<i32>,
    pub id: i32,
    pub wallet_address: Seq<char>,
}

impl View for UserIdentifier {
    type V = UserIdentifierView;

    open spec fn view(&self) -> UserIdentifierView {
        UserIdentifierView {
            controller_address: self.controller_address@,
            ids: self.ids@,
            id: self.id,
            wallet_address: self.wallet_address@,
        }
    }
}

/// A caller who may be anonymous.
#[derive(Debug, PartialEq, Eq)]
pub struct OptionalGuard(pub Option<UserIdentifier>);

/// Where the resolution of a caller stands.
#[derive(Debug, PartialEq, Eq)]
pub enum IdentityState {
    /// The token was handed out to be decoded.
    AwaitingClaims,
    /// The identity that the account is linked to was asked for.
    AwaitingDid { claims: Claims },
    /// The accounts of that identity were asked for.
    AwaitingUsers { claims: Claims, controller: String },
    /// The caller is resolved.
    Finished,
}

/// What came back from outside.
#[derive(Debug, PartialEq, Eq)]
pub enum IdentityAnswer {
    /// What decoding the token gave.
    Decoded(Result<Claims, TokenFailure>),
    /// The identity that the account is linked to, with its controller, if any.
    Did(Option<(i32, String)>),
    /// The accounts of the identity.
    Users(Vec<i32>),
    /// The store failed.
    Failed(StoreError),
}

/// What is to be done next.
#[derive(Debug, PartialEq, Eq)]
pub enum IdentityStep {
    /// Decode this token, and come back with the outcome.
    Decode { token: String },
    /// Ask the store for the identity that this account is linked to.
    FindDid { user_id: i32 },
    /// Ask the store for the accounts of this identity.
    FindUsers { did_id: i32 },
    /// The caller is this.
    Done(OptionalGuard),
    /// The store's failure goes to the caller.
    Fail(StoreError),
}

/// The caller that stands alone: the account controls itself and nothing else.
pub open spec fn alone(claims: Claims) -> UserIdentifierView {
    UserIdentifierView {
        controller_address: claims.wallet_address@,
        ids: seq![claims.id],
        id: claims.id,
        wallet_address: claims.wallet_address@,
    }
}

/// The caller whose identity has `controller` and the accounts `ids`.
pub open spec fn linked(claims: Claims, controller: Seq<char>, ids: Seq<i32>) -> UserIdentifierView {
    UserIdentifierView {
        controller_address: controller,
        ids,
        id: claims.id,
        wallet_address: claims.wallet_address@,
    }
}

/// What `advance` owes for a state and an answer.
pub open spec fn resolved(
    state: IdentityState,
    answer: IdentityAnswer,
    next: IdentityState,
    step: IdentityStep,
) -> bool {
    match (state, answer) {
        (IdentityState::AwaitingClaims, IdentityAnswer::Decoded(Err(_))) => next is Finished && step
            == IdentityStep::Done(OptionalGuard(None)),
        (IdentityState::AwaitingClaims, IdentityAnswer::Decoded(Ok(claims))) => next
            == (IdentityState::AwaitingDid { claims }) && step == (IdentityStep::FindDid {
            user_id: claims.id,
        }),
        (IdentityState::AwaitingDid { claims }, IdentityAnswer::Did(Some(found))) => {
            &&& next matches IdentityState::AwaitingUsers { claims: kept, controller }
            &&& kept == claims
            &&& controller == found.1
            &&& step == (IdentityStep::FindUsers { did_id: found.0 })
        },
        (IdentityState::AwaitingDid { claims }, IdentityAnswer::Did(None)) => {
            &&& next is Finished
            &&& step matches IdentityStep::Done(OptionalGuard(Some(who)))
            &&& who@ == alone(claims)
        },
        (IdentityState::AwaitingUsers { claims, controller }, IdentityAnswer::Users(ids)) => {
            &&& next is Finished
            &&& step matches IdentityStep::Done(OptionalGuard(Some(who)))
            &&& who@ == linked(claims, controller@, ids@)
        },
        (IdentityState::AwaitingDid { .. }, IdentityAnswer::Failed(e)) => next is Finished && step
            == IdentityStep::Fail(e),
        (IdentityState::AwaitingUsers { .. }, IdentityAnswer::Failed(e)) => next is Finished && step
            == IdentityStep::Fail(e),
        _ => next is Finished && step == IdentityStep::Done(OptionalGuard(None)),
    }
}

impl OptionalGuard {
    /// Opens the resolution of a caller from the text of the authorization header. A
    /// caller without a header, or with an empty one, is anonymous. Any other
    /// header holds a token to decode.
    pub fn begin(header: Option<&str>) -> (r: (IdentityState, IdentityStep))
        ensures
            match header {
                Some(h) if h@.len() > 0 => {
                    &&& r.0 is AwaitingClaims
                    &&& r.1 matches IdentityStep::Decode { token }
                    &&& token@ == token_in(h@)
                },
                _ => r.0 is Finished && r.1 == IdentityStep::Done(OptionalGuard(None)),
            },
    {
        match header {
            None => (IdentityState::Finished, IdentityStep::Done(OptionalGuard(None))),
            Some(h) => {
                if h.unicode_len() == 0 {
                    (IdentityState::Finished, IdentityStep::Done(OptionalGuard(None)))
                } else {
                    (IdentityState::AwaitingClaims, IdentityStep::Decode { token: bearer_token(h) })
                }
            },
        }
    }

    /// Takes what came back and says what comes next.
    ///
    /// A token that does not decode leaves the caller anonymous. A token that does
    /// names an account; the store is asked for the identity that the account is
    /// linked to. Without one the caller stands alone. With one, the store is asked
    /// for all accounts of the identity, and the caller controls them all. A failure
    /// of the store ends the resolution and is handed on. An answer that nothing
    /// asked for leaves the caller anonymous.
    pub fn advance(state: IdentityState, answer: IdentityAnswer) -> (r: (IdentityState, IdentityStep))
        ensures
            resolved(state, answer, r.0, r.1),
    {
        match state {
            IdentityState::AwaitingClaims => match answer {
                IdentityAnswer::Decoded(Ok(claims)) => {
                    let user_id = claims.id;
                    (IdentityState::AwaitingDid { claims }, IdentityStep::FindDid { user_id })
                },
                _ => (IdentityState::Finished, IdentityStep::Done(OptionalGuard(None))),
            },
            IdentityState::AwaitingDid { claims } => match answer {
                IdentityAnswer::Did(Some((did_id, controller))) => (
                    IdentityState::AwaitingUsers { claims, controller },
                    IdentityStep::FindUsers { did_id },
                ),
                IdentityAnswer::Did(None) => {
                    let mut ids: Vec<i32> = Vec::new();
                    ids.push(claims.id);
                    assert(ids@ =~= seq![claims.id]);
                    let who = UserIdentifier {
                        controller_address: claims.wallet_address.clone(),
                        ids,
                        id: claims.id,
                        wallet_address: claims.wallet_address,
                    };
                    (IdentityState::Finished, IdentityStep::Done(OptionalGuard(Some(who))))
                },
                IdentityAnswer::Failed(e) => (IdentityState::Finished, IdentityStep::Fail(e)),
                _ => (IdentityState::Finished, IdentityStep::Done(OptionalGuard(None))),
            },
            IdentityState::AwaitingUsers { claims, controller } => match answer {
                IdentityAnswer::Users(ids) => {
                    let who = UserIdentifier {
                        controller_address: controller,
                        ids,
                        id: claims.id,
                        wallet_address: claims.wallet_address,
                    };
                    (IdentityState::Finished, IdentityStep::Done(OptionalGuard(Some(who))))
                },
                IdentityAnswer::Failed(e) => (IdentityState::Finished, IdentityStep::Fail(e)),
                _ => (IdentityState::Finished, IdentityStep::Done(OptionalGuard(None))),
            },
            IdentityState::Finished => (IdentityState::Finished, IdentityStep::Done(OptionalGuard(None))),
        }
    }
}

} // verus!
