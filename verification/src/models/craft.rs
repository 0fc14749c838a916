//! The crafting request and its answer.

use vstd::prelude::*;
use crate::models::beetle::{BeetleCard, User};

verus! {

/// What goes into a craft: the recipe type, the four slots, the sacrifice
/// and the hammer.
#[allow(non_snake_case)]
pub struct CraftRequest {
    pub typeName: u32,
    pub slot1: String,
    pub slot2: String,
    pub slot3: String,
    pub slot4: String,
    pub sacrifice: String,
    pub hammer: String,
}

/// What a craft gave.
pub struct CraftResponse {
    pub success: bool,
    pub message: String,
    pub hammer_broke: bool,
    pub user: User,
    pub result: BeetleCard,
}

} // verus!
