//! The sign-in status of the social site and the cookies saved from a
//! browser session.

use vstd::prelude::*;
use crate::models::profile::Pfp;

verus! {

/// Response from the auth status endpoint
pub struct AuthStatusResponse {
    pub authenticated: bool,
    pub user: Option<AuthUser>,
    pub token: Option<String>,
}

/// User information from auth endpoint
pub struct AuthUser {
    pub sub: String,
    pub username: String,
    pub email: String,
    pub token_expiration: u64,
    pub pfp: Pfp,
    pub pfp_url: String,
    pub display_name: String,
    pub theme: String,
    pub cover: String,
    pub color: u32,
    pub onboarded: bool,
    pub pokes: u32,
    pub page_views: u32,
    pub friend_count: u32,
}

/// A browser cookie as saved to JSON.
pub struct Cookie {
    pub name: String,
    pub value: String,
    pub domain: String,
    pub path: String,
    pub secure: bool,
    pub http_only: Option<bool>,
    pub same_site: String,
    pub expiry: u64,
}

} // verus!
