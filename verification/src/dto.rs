use vstd::prelude::*;

verus! {

/// Successful login: the raw bearer token, handed to the caller exactly
/// once and never persisted.
#[derive(Debug)]
pub struct LoginResponse {
    pub session_token: String,
}

/// The identity behind a session, as shown to its owner.
#[derive(Debug)]
pub struct MeResponse {
    pub id: i64,
    pub username: String,
    pub role: String,
}

/// Input of both card submission paths. The category arrives in its
/// stored string form (`"BONES"` or `"ORGANS"`).
#[allow(non_snake_case)]
#[derive(Debug)]
pub struct CreateCardInput {
    pub sessionToken: String,
    pub category: String,
    pub english: String,
    pub latin: String,
    pub imagePath: String,
}

/// Outcome of a card submission: the new id and the status it was stored
/// with.
#[derive(Debug)]
pub struct CardResponse {
    pub id: i64,
    pub status: String,
}

/// A card awaiting moderation, as listed to an administrator.
#[derive(Debug)]
pub struct PendingCard {
    pub id: i64,
    pub category: String,
    pub english: String,
    pub latin: String,
    pub image_path: String,
    pub status: String,
    pub created_by: i64,
    pub created_at: i64,
}

/// Input of the administrative card update.
#[allow(non_snake_case)]
#[derive(Debug)]
pub struct UpdateCardInput {
    pub sessionToken: String,
    pub id: i64,
    pub english: String,
    pub latin: String,
    pub imagePath: String,
}

/// One card of the administrative listing, regardless of status.
#[derive(Debug)]
pub struct CardAdminItem {
    pub id: i64,
    pub category: String,
    pub english: String,
    pub latin: String,
    pub image_path: String,
    pub status: String,
}

/// One day of attempt counts, for the analytics read path.
#[derive(Debug)]
pub struct DailyPoint {
    pub day: String,
    pub attempts: i64,
    pub wins: i64,
    pub losses: i64,
}

/// A labelled count, for the analytics read path.
#[derive(Debug)]
pub struct LabelValue {
    pub label: String,
    pub value: i64,
}

} // verus!
