use kasumin::playlist::{Playlist, PlaylistItem, TrackMetadata};
use kasumin::playlistiter::PlaylistIter;

fn empty_track(pos: u32) -> PlaylistItem {
    PlaylistItem { pos, song: TrackMetadata { path: String::new() } }
}

fn named_track(pos: u32, path: &str) -> PlaylistItem {
    PlaylistItem { pos, song: TrackMetadata { path: path.to_string() } }
}

#[test]
fn proper_playlist_ordering_simple() {
    let mut playlist = Playlist::default();
    for pos in 0..10 {
        playlist.insert(empty_track(pos));
    }
    assert!(
        playlist.ordered_tracks().iter().map(|track| track.pos).eq(0..10),
        "playlist should be in order",
    );
}

#[test]
fn proper_playlist_ordering_complex() {
    // Inserts out of order, with duplicate positions among them.
    let positions: [u32; 12] = [5, 3, 9, 3, 7, 0, 5, 2, 9, 1, 4, 3];
    let mut playlist = Playlist::default();
    for (k, pos) in positions.iter().enumerate() {
        playlist.insert(named_track(*pos, &format!("track-{}", k)));
    }
    let snapshot = playlist.ordered_tracks();
    assert_eq!(snapshot.len(), positions.len(), "every insertion appears exactly once");
    for window in snapshot.windows(2) {
        assert!(window[0].pos <= window[1].pos, "playlist should be in order");
    }
    let mut seen: Vec<u32> = snapshot.iter().map(|track| track.pos).collect();
    let mut expected = positions.to_vec();
    seen.sort();
    expected.sort();
    assert_eq!(seen, expected, "the snapshot holds exactly the inserted positions");
    let mut paths: Vec<String> = snapshot.iter().map(|track| track.song.path.clone()).collect();
    paths.sort();
    let mut expected_paths: Vec<String> = (0..positions.len()).map(|k| format!("track-{}", k)).collect();
    expected_paths.sort();
    assert_eq!(paths, expected_paths, "every inserted track is kept");
}

#[test]
fn snapshot_is_idempotent() {
    let mut playlist = Playlist::default();
    for pos in [4u32, 1, 3, 1, 2] {
        playlist.insert(empty_track(pos));
    }
    let first = playlist.ordered_tracks();
    let second = playlist.ordered_tracks();
    assert_eq!(first.len(), second.len());
    for (a, b) in first.iter().zip(second.iter()) {
        assert_eq!(a.pos, b.pos);
        assert_eq!(a.song.path, b.song.path);
    }
}

#[test]
fn cursor_yields_only_snapshot_tracks() {
    let mut playlist = Playlist::default();
    for pos in 0..3 {
        playlist.insert(named_track(pos, &format!("song-{}", pos)));
    }
    let snapshot = playlist.ordered_tracks();
    let mut cursor = PlaylistIter::new(snapshot, 0);

    // Inserts after the snapshot was taken are invisible to the cursor.
    playlist.insert(named_track(0, "late-arrival"));
    playlist.insert(named_track(99, "even-later"));

    let mut yielded = Vec::new();
    while let Some(track) = cursor.next() {
        assert_ne!(track.song.path, "late-arrival");
        assert_ne!(track.song.path, "even-later");
        yielded.push(track.song.path);
    }
    assert_eq!(yielded, vec!["song-0", "song-1", "song-2"]);
    assert!(cursor.next().is_none(), "an exhausted cursor stays exhausted");
}

#[test]
fn cursor_current_does_not_advance() {
    let mut playlist = Playlist::default();
    playlist.insert(named_track(1, "only"));
    let cursor = PlaylistIter::new(playlist.ordered_tracks(), 0);
    let a = cursor.current().expect("a track is under the cursor");
    let b = cursor.current().expect("current does not advance");
    assert_eq!(a.song.path, "only");
    assert_eq!(b.song.path, "only");
}

#[test]
fn cursor_starting_past_the_end_yields_nothing() {
    let mut playlist = Playlist::default();
    playlist.insert(empty_track(1));
    let cursor = PlaylistIter::new(playlist.ordered_tracks(), 5);
    assert!(cursor.current().is_none());
}

#[test]
fn items_compare_by_position_alone() {
    let a = named_track(3, "a");
    let b = named_track(3, "b");
    let c = named_track(4, "c");
    assert!(a == b);
    assert!(a < c);
    assert!(c > b);
}
