//! Data shapes of the API and the option types that requests are built from.
pub mod fields;
pub mod options;

use vstd::prelude::*;

verus! {

/// The user's list entry for a show, as the API returns it after an update.
#[derive(Debug)]
pub struct ListStatus {
    pub status: String,
    pub num_episodes_watched: u32,
    pub score: u8,
    pub updated_at: String,
    pub is_rewatching: bool,
}

} // verus!
