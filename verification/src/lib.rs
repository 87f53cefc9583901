//! Finds tracks that occur more than once in a user's playlists.
//!
//! The crate holds the rules of the tool: when an access token must be
//! renewed, which request comes next, how a reply is classified, how the
//! pages of a playlist are joined, and which tracks count as duplicates.
//! Sending a request is left to the caller, which hands each reply back.

pub mod duplicates;
pub mod playlist;
pub mod spotify;
pub mod trackmap;
