//! The playlist: an orderable queue of tracks.
//!
//! Tracks are kept ordered by playback position.  Equal positions are
//! accepted; the relative order among ties is unspecified, so the contracts
//! pin the contents as a multiset and the order only up to position.

use vstd::prelude::*;
use vstd::seq_lib::group_to_multiset_ensures;

verus! {

/// What the playlist knows about one track.
#[derive(Clone, Debug)]
pub struct TrackMetadata {
    /// Where the track's audio lives.
    pub path: String,
}

/// Song in a [`Playlist`].
#[derive(Clone, Debug)]
pub struct PlaylistItem {
    /// Current position in the playlist.
    pub pos: u32,
    /// The track queued at that position.
    pub song: TrackMetadata,
}

impl PlaylistItem {
    /// An owned copy, equal to `self` in every field.
    pub fn duplicate(&self) -> (r: PlaylistItem)
        ensures
            r == *self,
    {
        PlaylistItem { pos: self.pos, song: TrackMetadata { path: self.song.path.clone() } }
    }
}

/// Playlist items compare by position alone: two items at the same position
/// are equal for ordering purposes, whatever their tracks.
impl PartialEq for PlaylistItem {
    fn eq(&self, other: &Self) -> (r: bool) {
        self.pos == other.pos
    }
}

impl vstd::std_specs::cmp::PartialEqSpecImpl for PlaylistItem {
    open spec fn obeys_eq_spec() -> bool {
        true
    }

    open spec fn eq_spec(&self, other: &Self) -> bool {
        self.pos == other.pos
    }
}

impl Eq for PlaylistItem {

}

impl PartialOrd for PlaylistItem {
    fn partial_cmp(&self, other: &Self) -> (r: Option<core::cmp::Ordering>) {
        if self.pos < other.pos {
            Some(core::cmp::Ordering::Less)
        } else if self.pos == other.pos {
            Some(core::cmp::Ordering::Equal)
        } else {
            Some(core::cmp::Ordering::Greater)
        }
    }
}

impl vstd::std_specs::cmp::PartialOrdSpecImpl for PlaylistItem {
    open spec fn obeys_partial_cmp_spec() -> bool {
        true
    }

    open spec fn partial_cmp_spec(&self, other: &Self) -> Option<core::cmp::Ordering> {
        if self.pos < other.pos {
            Some(core::cmp::Ordering::Less)
        } else if self.pos == other.pos {
            Some(core::cmp::Ordering::Equal)
        } else {
            Some(core::cmp::Ordering::Greater)
        }
    }
}

/// A sequence of items whose positions never decrease.
pub open spec fn sorted_by_pos(s: Seq<PlaylistItem>) -> bool {
    forall|i: int, j: int| 0 <= i <= j < s.len() ==> s[i].pos <= s[j].pos
}

/// An orderable queue of tracks.
///
/// The queue is kept sorted by position between mutations, so a snapshot
/// never has to mutate it.
#[derive(Clone, Debug)]
pub struct Playlist {
    queue: Vec<PlaylistItem>,
}

impl View for Playlist {
    type V = Seq<PlaylistItem>;

    closed spec fn view(&self) -> Seq<PlaylistItem> {
        self.queue@
    }
}

impl Default for Playlist {
    /// An empty playlist.
    fn default() -> (r: Self)
        ensures
            r@ == Seq::<PlaylistItem>::empty(),
            r.wf(),
    {
        Playlist { queue: Vec::new() }
    }
}

impl Playlist {
    /// The queue's standing invariant: ordered by playback position.
    pub open spec fn wf(&self) -> bool {
        sorted_by_pos(self@)
    }

    /// Queue one track.  The playlist gains exactly that item — as a
    /// multiset, nothing else changes — and stays ordered by position.
    pub fn insert(&mut self, track: PlaylistItem)
        requires
            old(self).wf(),
        ensures
            final(self).wf(),
            final(self)@.len() == old(self)@.len() + 1,
            final(self)@.to_multiset() == old(self)@.to_multiset().insert(track),
    {
        let ghost s = self.queue@;
        let n = self.queue.len();
        let mut k: usize = 0;
        while k < n && self.queue[k].pos <= track.pos
            invariant
                n == self.queue.len(),
                k <= n,
                self.queue@ == s,
                forall|i: int| 0 <= i < k ==> s[i].pos <= track.pos,
            decreases n - k,
        {
            k += 1;
        }
        self.queue.insert(k, track);
        proof {
            broadcast use group_to_multiset_ensures;

            let t = self.queue@;
            assert(t == s.insert(k as int, track));
            assert forall|i: int, j: int| 0 <= i <= j < t.len() implies t[i].pos <= t[j].pos by {
                if j < k {
                    assert(t[i] == s[i] && t[j] == s[j]);
                } else if i < k && j == k {
                    assert(t[i] == s[i] && t[j] == track);
                } else if i < k && j > k {
                    assert(t[i] == s[i] && t[j] == s[j - 1]);
                    assert(s[k as int].pos > track.pos);
                    assert(s[i].pos <= track.pos);
                } else if i == k && j > k {
                    assert(t[i] == track && t[j] == s[j - 1]);
                    assert(s[k as int].pos > track.pos);
                } else if i == k && j == k {
                } else {
                    assert(t[i] == s[i - 1] && t[j] == s[j - 1]);
                }
            }
        }
    }

    /// Return tracks in the order in which they will be played, without
    /// mutating the queue: the materialized snapshot is exactly the queue's
    /// contents, position-ordered by the invariant.
    pub fn ordered_tracks(&self) -> (r: Vec<PlaylistItem>)
        ensures
            r@ == self@,
    {
        let mut out: Vec<PlaylistItem> = Vec::new();
        let mut i: usize = 0;
        while i < self.queue.len()
            invariant
                i <= self.queue.len(),
                out@ == self@.take(i as int),
            decreases self.queue.len() - i,
        {
            let item = self.queue[i].duplicate();
            out.push(item);
            proof {
                assert(out@ =~= self@.take(i as int + 1));
            }
            i += 1;
        }
        proof {
            assert(self@.take(self@.len() as int) =~= self@);
        }
        out
    }
}

/// Playlist ordering: whatever sequence of tracks was inserted, a playlist
/// holding exactly those insertions — as each insert ensures — snapshots to
/// a sequence that is non-decreasing by position and has exactly one entry
/// per insertion.
pub proof fn lemma_playlist_ordering(p: Playlist, inserted: Seq<PlaylistItem>)
    requires
        p.wf(),
        p@.to_multiset() == inserted.to_multiset(),
    ensures
        sorted_by_pos(p@),
        p@.len() == inserted.len(),
{
    broadcast use group_to_multiset_ensures;

    assert(p@.to_multiset().len() == p@.len());
    assert(inserted.to_multiset().len() == inserted.len());
}

/// Playlist idempotence: two snapshots with no insert between them are the
/// same sequence.  `ordered_tracks` ensures its result equals the queue's
/// view, so any two results over one unchanged playlist coincide.
pub proof fn lemma_snapshot_idempotent(p: Playlist, first: Seq<PlaylistItem>, second: Seq<
    PlaylistItem,
>)
    requires
        first == p@,
        second == p@,
    ensures
        first == second,
{
}

} // verus!
