//! A cursor over a frozen playlist snapshot.
//!
//! Independent readers traverse the snapshot they were built from; inserts
//! made to the playlist after the snapshot was taken are invisible to the
//! cursor — a fresh cursor is required to see them.

use vstd::prelude::*;

use crate::playlist::PlaylistItem;

verus! {

/// Forward iterator over one playlist snapshot with an advancing position.
pub struct PlaylistIter {
    current_tracks: Vec<PlaylistItem>,
    index: usize,
}

impl PlaylistIter {
    /// The frozen snapshot this cursor walks.
    pub closed spec fn tracks(&self) -> Seq<PlaylistItem> {
        self.current_tracks@
    }

    /// The position of the track the cursor currently stands on.
    pub closed spec fn position(&self) -> usize {
        self.index
    }

    /// What the cursor yields at its position: the track there, or nothing
    /// past the snapshot's end.
    pub open spec fn spec_current(&self) -> Option<PlaylistItem> {
        if self.position() < self.tracks().len() {
            Some(self.tracks()[self.position() as int])
        } else {
            None
        }
    }

    /// Build a cursor over a snapshot, starting at the given position.
    pub fn new(tracks: Vec<PlaylistItem>, pos: usize) -> (it: Self)
        ensures
            it.tracks() == tracks@,
            it.position() == pos,
    {
        PlaylistIter { current_tracks: tracks, index: pos }
    }

    /// The track under the cursor, without advancing.
    pub fn current(&self) -> (r: Option<PlaylistItem>)
        ensures
            r == self.spec_current(),
    {
        if self.index < self.current_tracks.len() {
            let track = self.current_tracks[self.index].duplicate();
            Some(track)
        } else {
            None
        }
    }

    /// The track under the cursor, advancing past it.
    ///
    /// The snapshot itself never changes: only the position moves, by one.
    pub fn next(&mut self) -> (r: Option<PlaylistItem>)
        requires
            old(self).position() < usize::MAX,
        ensures
            final(self).tracks() == old(self).tracks(),
            final(self).position() == old(self).position() + 1,
            r == old(self).spec_current(),
    {
        let r = self.current();
        self.index = self.index + 1;
        r
    }
}

/// Cursor isolation: whatever position a cursor has reached, what it
/// yields is a track of the snapshot it was built from, at that position —
/// never a track the snapshot lacks, whatever was inserted into the
/// playlist meanwhile.
pub proof fn lemma_cursor_isolation(it: PlaylistIter)
    ensures
        match it.spec_current() {
            Some(track) => {
                &&& it.position() < it.tracks().len()
                &&& track == it.tracks()[it.position() as int]
                &&& it.tracks().contains(track)
            },
            None => it.position() >= it.tracks().len(),
        },
{
}

} // verus!
