pub mod client;
pub mod token;
pub mod track;
pub mod transport;
pub mod walk;

pub use client::{Spotify, Step};
pub use token::{Instant, Token, TokenData};
pub use track::{Track, TrackData, TrackResponse};
pub use transport::{classify, ApiError, Method, Outcome, Request};
pub use walk::TrackWalk;
