//! Core of a browser startpage: a reactive value store, a bookmark list with
//! validated add/remove, a JSON storage codec, a keyed-identity/epoch scheme
//! for resetting text inputs, a single-slot notification scheduler, and the
//! pure composition logic that ties them together.

pub mod bookmarks;
pub mod codec;
pub mod keys;
pub mod layout;
pub mod search;
pub mod signal;
pub mod snackbar;
pub mod state;
pub mod text;
pub mod urls;

use vstd::prelude::*;

verus! {

} // verus!
