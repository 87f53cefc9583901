use vstd::prelude::*;

verus! {

/// A track of a playlist.
#[derive(Debug, Clone, PartialEq, Eq)]
pub struct Track {
    pub id: String,
    pub name: String,
}

/// One slot of a page of tracks. The service leaves the slot of a track
/// that it no longer offers empty.
#[derive(Debug, Clone, PartialEq, Eq)]
pub struct TrackData {
    pub track: Option<Track>,
}

/// One page of a playlist's tracks, with the address of the page after it.
#[derive(Debug, Clone, PartialEq, Eq)]
pub struct TrackResponse {
    pub items: Vec<TrackData>,
    pub next: Option<String>,
}

/// What a track is: its identifier and its display name, as text.
pub struct TrackView {
    pub id: Seq<char>,
    pub name: Seq<char>,
}

/// What a page is: its slots in order, and where the next page is, if any.
pub struct PageView {
    pub slots: Seq<Option<TrackView>>,
    pub next: Option<Seq<char>>,
}

impl View for Track {
    type V = TrackView;

    open spec fn view(&self) -> TrackView {
        TrackView { id: self.id@, name: self.name@ }
    }
}

impl View for TrackData {
    type V = Option<TrackView>;

    open spec fn view(&self) -> Option<TrackView> {
        match self.track {
            Some(t) => Some(t@),
            None => None,
        }
    }
}

/// The tracks of a list, each by its view, in order.
pub open spec fn track_views(tracks: Seq<Track>) -> Seq<TrackView> {
    Seq::new(tracks.len(), |i: int| tracks[i]@)
}

/// The slots of a list, each by its view, in order.
pub open spec fn slot_views(items: Seq<TrackData>) -> Seq<Option<TrackView>> {
    Seq::new(items.len(), |i: int| items[i]@)
}

/// An optional string as optional text.
pub open spec fn text_of(s: Option<String>) -> Option<Seq<char>> {
    match s {
        Some(s) => Some(s@),
        None => None,
    }
}

impl View for TrackResponse {
    type V = PageView;

    open spec fn view(&self) -> PageView {
        PageView { slots: slot_views(self.items@), next: text_of(self.next) }
    }
}

/// The tracks that are present among `slots`, in the order of their slots.
pub open spec fn present_tracks(slots: Seq<Option<TrackView>>) -> Seq<TrackView>
    decreases slots.len(),
{
    if slots.len() == 0 {
        Seq::empty()
    } else {
        let before = present_tracks(slots.drop_last());
        match slots.last() {
            Some(t) => before.push(t),
            None => before,
        }
    }
}

impl Track {
    /// A copy of this track.
    pub fn duplicate(&self) -> (copy: Track)
        ensures
            copy@ == self@,
    {
        Track { id: self.id.clone(), name: self.name.clone() }
    }
}

impl TrackResponse {
    /// Takes the page apart: the tracks present in it, in page order, and
    /// the address of the next page.
    pub fn into_tracks(self) -> (parts: (Vec<Track>, Option<String>))
        ensures
            track_views(parts.0@) == present_tracks(self@.slots),
            text_of(parts.1) == self@.next,
    {
        let TrackResponse { items, next } = self;
        let mut tracks: Vec<Track> = Vec::new();
        let mut i: usize = 0;
        while i < items.len()
            invariant
                i <= items.len(),
                track_views(tracks@) == present_tracks(slot_views(items@).take(i as int)),
            decreases items.len() - i,
        {
            proof {
                let s = slot_views(items@);
                assert(s.take(i + 1).drop_last() == s.take(i as int));
            }
            match &items[i].track {
                Some(t) => tracks.push(t.duplicate()),
                None => {},
            }
            i += 1;
        }
        proof {
            let s = slot_views(items@);
            assert(s.take(i as int) == s);
        }
        (tracks, next)
    }
}

} // verus!
