use vstd::prelude::*;

verus! {

/// A playlist as the service lists it.
#[derive(Debug, Clone, PartialEq, Eq)]
pub struct Playlist {
    pub id: String,
    pub name: String,
}

/// The body of the reply that lists a user's playlists.
#[derive(Debug, Clone, PartialEq, Eq)]
pub struct PlaylistResponse {
    pub items: Vec<Playlist>,
}

/// What a playlist is: its identifier and its display name, as text.
pub struct PlaylistView {
    pub id: Seq<char>,
    pub name: Seq<char>,
}

impl View for Playlist {
    type V = PlaylistView;

    open spec fn view(&self) -> PlaylistView {
        PlaylistView { id: self.id@, name: self.name@ }
    }
}

/// The playlists of a list, each by its view, in order.
pub open spec fn playlist_views(items: Seq<Playlist>) -> Seq<PlaylistView> {
    Seq::new(items.len(), |i: int| items[i]@)
}

impl View for PlaylistResponse {
    type V = Seq<PlaylistView>;

    open spec fn view(&self) -> Seq<PlaylistView> {
        playlist_views(self.items@)
    }
}

} // verus!
