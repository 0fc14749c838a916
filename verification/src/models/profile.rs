//! The social profile: what the profile endpoint answers, friends lists,
//! achievements, and the requests that change a profile or reach another.

use vstd::prelude::*;
use crate::text::{parse_u64_spec, parse_u64_chars, chars_of};

verus! {

/// Profile pfp information
#[derive(Clone)]
pub struct Pfp {
    pub project: String,
    pub id: Option<String>,
}

/// Profile pfp for updates (requires id)
pub struct ProfilePfp {
    pub project: String,
    pub id: String,
}

/// Profile response from the API
pub struct ProfileResponse {
    pub user: UserProfile,
    pub is_authenticated: bool,
    pub is_own_profile: bool,
    pub current_username: Option<String>,
    pub extra_context: Option<ExtraContext>,
}

/// The social-credit score.
pub struct SocialCredit {
    pub score: i64,
    pub last_calculated: Option<String>,
}

/// User profile information: the fields the bot and the leaderboard read.
/// The profile's remaining fields, which the site sends as free-form JSON,
/// are not held here.
pub struct UserProfile {
    pub username: String,
    pub display_name: String,
    pub pfp: Pfp,
    pub pfp_url: String,
    pub bio: Option<String>,
    pub friend_count: u32,
    pub pokes: u32,
    pub beetles: u32,
    pub theme: String,
    pub cover: String,
    pub color: Option<u32>,
    pub location: Option<String>,
    pub social_credit: SocialCredit,
}

/// Extra context when viewing other profiles (its free-form remainder is
/// not held here).
pub struct ExtraContext {
    pub are_friends: bool,
    pub pending_request_from: bool,
    pub pending_request_to: bool,
    pub can_poke: bool,
    pub poke_cooldown_seconds: u32,
    pub mutual_count: u32,
}

/// Friend information
#[derive(Clone)]
pub struct Friend {
    pub display_username: String,
    pub display_name: String,
    pub pfp: Option<Pfp>,
    pub pfp_url: Option<String>,
}

/// Friends list response
pub struct FriendsListResponse {
    pub page: u32,
    pub limit: u32,
    pub friends: Vec<Friend>,
    pub total: u32,
}

/// Achievement information
pub struct Achievement {
    pub id: u32,
    pub granted_at: String,
    pub _id: String,
    pub title: String,
    pub description: String,
    pub grant_message: String,
    pub achievement_type: String,
    pub trigger: String,
    pub season: u32,
}

/// Achievement context
pub struct AchievementContext {
    pub viewer_owns: bool,
    pub ownership_percentage: u32,
    pub season: u32,
}

/// Twitter mutuals information
pub struct TwitterMutuals {
    pub display: Vec<String>,
    pub count: u32,
}

/// Request to update theme
pub struct UpdateThemeRequest {
    pub theme: String,
    pub color: u32,
    pub cover: String,
    pub pfp: ProfilePfp,
    pub display_name: String,
    pub username: String,
}

/// Response from theme update
pub struct UpdateThemeResponse {
    pub success: bool,
}

/// Poke request
pub struct PokeRequest {
    pub poke_username: String,
}

/// Poke response
pub struct PokeResponse {
    pub success: bool,
}

/// Friend request
pub struct FriendsRequest {
    pub friend_username: String,
}

/// Friend request response
pub struct FriendsResponse {
    pub success: bool,
}

/// The shapes a profile's colour arrives in: text, a number, a list, or
/// something unreadable.
pub enum RawColor {
    Text(String),
    Number(i32),
    List,
    Unreadable,
}

/// The colour a raw value stands for: text holding an unsigned number is
/// that number (other text is an error, `None` here); a number is itself, or
/// zero when negative; a list is zero; an unreadable value is no colour.
pub open spec fn color_spec(raw: RawColor) -> Option<Option<u32>> {
    match raw {
        RawColor::Text(s) => match parse_u64_spec(s@) {
            Some(v) => if v <= u32::MAX { Some(Some(v as u32)) } else { None },
            None => None,
        },
        RawColor::Number(i) => Some(Some(if i >= 0 { i as u32 } else { 0 })),
        RawColor::List => Some(Some(0)),
        RawColor::Unreadable => Some(None),
    }
}

/// Reads a profile's colour; `Err` when it is text that is not an unsigned
/// 32-bit number.
pub fn color_from_raw(raw: RawColor) -> (r: Result<Option<u32>, ()>)
    ensures
        r is Ok <==> color_spec(raw) is Some,
        r matches Ok(c) ==> color_spec(raw) == Some(c),
{
    match raw {
        RawColor::Text(s) => {
            let cs = chars_of(s.as_str());
            match parse_u64_chars(&cs, 0, cs.len()) {
                Some(v) => {
                    assert(cs@.subrange(0, cs@.len() as int) == s@);
                    if v <= 4294967295u64 { Ok(Some(v as u32)) } else { Err(()) }
                },
                None => {
                    assert(cs@.subrange(0, cs@.len() as int) == s@);
                    Err(())
                },
            }
        },
        RawColor::Number(i) => Ok(Some(if i >= 0 { i as u32 } else { 0 })),
        RawColor::List => Ok(Some(0)),
        RawColor::Unreadable => Ok(None),
    }
}

} // verus!
