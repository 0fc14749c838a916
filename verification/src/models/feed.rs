//! The social feed: who poked whom and who became friends.

use vstd::prelude::*;

verus! {

/// Socket.IO initialization response
pub struct SocketInitResponse {
    pub sid: String,
    pub upgrades: Vec<String>,
    pub ping_interval: u32,
    pub ping_timeout: u32,
    pub max_payload: u64,
}

/// User representation in feed activities
pub struct FeedUser {
    pub username: String,
    pub avatar: String,
}

/// Feed activity types
pub enum FeedActivity {
    Poke { id: String, timestamp: String, from: FeedUser, to: FeedUser },
    Friendship { id: String, timestamp: String, users: Vec<FeedUser> },
}

} // verus!
