//! Enumerated column types, with the text under which the store keeps each value.

use vstd::prelude::*;

verus! {

/// What a user did to earn activity points.
#[derive(Clone, Copy, Debug, PartialEq, Eq, Structural, Hash)]
pub enum ActivityKind {
    Reviewapproved,
    Reacthelpful,
    Reactdownful,
    Reply,
    Share,
    JoinDiscord,
    JoinTelegram,
    Reward,
}

/// Moderation state of a business. Only `Approved` businesses are ever listed.
#[derive(Clone, Copy, Debug, PartialEq, Eq, Structural, Hash)]
pub enum BusinessStatus {
    Approved,
    Pending,
    Rejected,
}

/// Where a media record came from.
#[derive(Clone, Copy, Debug, PartialEq, Eq, Structural, Hash)]
pub enum MediaSoucre {
    Photo,
    Telegram,
    Discord,
    Twitter,
    Blog,
}

/// Moderation state of a review.
#[derive(Clone, Copy, Debug, PartialEq, Eq, Structural, Hash)]
pub enum ReviewStatus {
    Approved,
    Pending,
    Rejected,
}

/// Role of a back-office account.
#[derive(Clone, Copy, Debug, PartialEq, Eq, Structural, Hash)]
pub enum SuperUserRole {
    Admin,
    Editor,
}

} // verus!
