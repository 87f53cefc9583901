use crate::spotify::track::{present_tracks, text_of, track_views, PageView, Track, TrackResponse, TrackView};
use crate::spotify::transport::{classified, classify, ApiError, Outcome};
use vstd::prelude::*;

verus! {

/// The reading of one playlist's tracks, page after page: the tracks read so
/// far, where the next page is, and whether the last page has been read.
#[derive(Debug, Clone, PartialEq, Eq)]
pub struct TrackWalk {
    pub tracks: Vec<Track>,
    pub next: Option<String>,
    pub finished: bool,
}

/// What a walk is: its tracks in order, the address of the page that is due,
/// and whether it has come to its end.
pub struct WalkView {
    pub tracks: Seq<TrackView>,
    pub next: Option<Seq<char>>,
    pub finished: bool,
}

impl View for TrackWalk {
    type V = WalkView;

    open spec fn view(&self) -> WalkView {
        WalkView {
            tracks: track_views(self.tracks@),
            next: text_of(self.next),
            finished: self.finished,
        }
    }
}

/// A walk before its first page: the page that is due is the first one.
pub open spec fn started() -> WalkView {
    WalkView { tracks: Seq::empty(), next: None, finished: false }
}

/// The walk `walk` once `page` has been read: the page's present tracks
/// follow those read before, and the walk goes on where the page points, or
/// ends where it points nowhere.
pub open spec fn absorbed(walk: WalkView, page: PageView) -> WalkView {
    WalkView {
        tracks: walk.tracks + present_tracks(page.slots),
        next: page.next,
        finished: page.next is None,
    }
}

/// The walk once `pages` have been read in order.
pub open spec fn walked(pages: Seq<PageView>) -> WalkView
    decreases pages.len(),
{
    if pages.len() == 0 {
        started()
    } else {
        absorbed(walked(pages.drop_last()), pages.last())
    }
}

/// The present tracks of `pages`, page after page.
pub open spec fn tracks_of(pages: Seq<PageView>) -> Seq<TrackView>
    decreases pages.len(),
{
    if pages.len() == 0 {
        Seq::empty()
    } else {
        tracks_of(pages.drop_last()) + present_tracks(pages.last().slots)
    }
}

/// Whether `pages` is a whole listing: each page but the last points to a
/// next page, and the last one to none.
pub open spec fn is_listing(pages: Seq<PageView>) -> bool {
    &&& pages.len() > 0
    &&& forall|i: int| 0 <= i < pages.len() - 1 ==> (#[trigger] pages[i]).next is Some
    &&& pages.last().next is None
}

/// The present tracks of a page keep their order: each comes from a slot,
/// and a track that comes later comes from a later slot.
pub proof fn present_tracks_keep_order(slots: Seq<Option<TrackView>>) -> (from: Seq<int>)
    ensures
        from.len() == present_tracks(slots).len(),
        present_tracks(slots).len() <= slots.len(),
        forall|k: int|
            0 <= k < from.len() ==> 0 <= #[trigger] from[k] < slots.len() && slots[from[k]]
                == Some(present_tracks(slots)[k]),
        forall|j: int, k: int| 0 <= j < k < from.len() ==> from[j] < from[k],
        forall|i: int|
            0 <= i < slots.len() && (#[trigger] slots[i]) is Some ==> from.contains(i),
    decreases slots.len(),
{
    if slots.len() == 0 {
        Seq::empty()
    } else {
        let front = slots.drop_last();
        let before = present_tracks_keep_order(front);
        let last = slots.len() - 1;
        let from = if slots.last() is Some {
            before.push(last)
        } else {
            before
        };
        assert forall|i: int| 0 <= i < slots.len() && (#[trigger] slots[i]) is Some implies from.contains(
            i,
        ) by {
            if i < last {
                assert(front[i] is Some);
                let k = choose|k: int| 0 <= k < before.len() && before[k] == i;
                assert(from[k] == i);
            } else {
                assert(from[from.len() - 1] == i);
            }
        }
        from
    }
}

/// Reading the pages of a listing in order gathers the present tracks of
/// all of them, page after page. The walk is unfinished before each of the
/// pages and finished after the last, so that each page is read once and no
/// other; and the page that is due after one page is the one that this page
/// points to.
pub proof fn walk_reads_whole_listing(pages: Seq<PageView>)
    requires
        is_listing(pages),
    ensures
        walked(pages).tracks == tracks_of(pages),
        walked(pages).finished,
        forall|k: int| 0 <= k < pages.len() ==> !(#[trigger] walked(pages.take(k))).finished,
        forall|k: int|
            0 < k <= pages.len() ==> (#[trigger] walked(pages.take(k))).next == pages[k - 1].next,
{
    walk_gathers_tracks(pages);
    assert(pages.take(pages.len() as int) == pages);
    assert forall|k: int| 0 <= k < pages.len() implies !(#[trigger] walked(
        pages.take(k),
    )).finished by {
        if k > 0 {
            assert(pages.take(k).last() == pages[k - 1]);
        }
    }
    assert forall|k: int| 0 < k <= pages.len() implies (#[trigger] walked(pages.take(k))).next
        == pages[k - 1].next by {
        assert(pages.take(k).last() == pages[k - 1]);
    }
}

/// Whatever the pages point to, the walk holds their present tracks.
pub proof fn walk_gathers_tracks(pages: Seq<PageView>)
    ensures
        walked(pages).tracks == tracks_of(pages),
    decreases pages.len(),
{
    if pages.len() > 0 {
        walk_gathers_tracks(pages.drop_last());
    }
}

impl TrackWalk {
    /// A walk before its first page.
    pub fn new() -> (walk: TrackWalk)
        ensures
            walk@ == started(),
    {
        let walk = TrackWalk { tracks: Vec::new(), next: None, finished: false };
        assert(track_views(walk.tracks@) == Seq::<TrackView>::empty());
        walk
    }

    /// Reads `page`: its present tracks are added in page order, and the
    /// walk goes on where the page points, or ends.
    pub fn absorb(&mut self, page: TrackResponse)
        ensures
            final(self)@ == absorbed(old(self)@, page@),
    {
        let ghost before = track_views(self.tracks@);
        let (mut tracks, next) = page.into_tracks();
        let ghost added = track_views(tracks@);
        self.tracks.append(&mut tracks);
        self.finished = next.is_none();
        self.next = next;
        assert(track_views(self.tracks@) == before + added);
    }

    /// Takes the outcome of the request for the page that is due. A page is
    /// read; a failure ends the walk, and what was read is given up.
    pub fn accept(self, outcome: Outcome<TrackResponse>) -> (walk: Result<TrackWalk, ApiError>)
        ensures
            match classified(outcome) {
                Ok(page) => walk is Ok && walk.unwrap()@ == absorbed(self@, page@),
                Err(error) => walk == Err::<TrackWalk, ApiError>(error),
            },
    {
        match classify(outcome) {
            Ok(page) => {
                let mut walk = self;
                walk.absorb(page);
                Ok(walk)
            },
            Err(error) => Err(error),
        }
    }

    /// The tracks that were read.
    pub fn into_tracks(self) -> (tracks: Vec<Track>)
        ensures
            track_views(tracks@) == self@.tracks,
    {
        self.tracks
    }
}

} // verus!
