use kasumin::library::{Album, Artist, Library, Track};

fn track(title: &str, link: &str) -> Track {
    Track { title: title.to_string(), link: link.to_string() }
}

fn album(title: &str, date: &str, tracks: Vec<Track>) -> Album {
    Album { title: title.to_string(), date: date.to_string(), tracks }
}

fn artist(name: &str, albums: Vec<Album>) -> Artist {
    Artist { name: name.to_string(), albums }
}

#[test]
fn library_indexes_albums_and_tracks_by_title() {
    let artists = vec![
        artist(
            "alice",
            vec![album("Shared Title", "2020", vec![track("Common Song", "a1")])],
        ),
        artist(
            "bob",
            vec![
                album("Shared Title", "2021", vec![track("Common Song", "b1")]),
                album("Solo", "2022", vec![track("Only Here", "b2")]),
            ],
        ),
    ];
    let lib = Library::new(artists);

    assert_eq!(lib.artists.len(), 2);
    assert_eq!(lib.artists[0].name, "alice");
    assert_eq!(lib.artists[1].name, "bob");

    // Two albums share a title; they sit in one bucket, in artist order.
    assert_eq!(lib.albums.len(), 2);
    assert_eq!(lib.albums[0].title, "Shared Title");
    let shared = &lib.albums[0].entries.inner;
    assert_eq!(shared.len(), 2);
    assert_eq!(shared[0].date, "2020");
    assert_eq!(shared[1].date, "2021");
    assert_eq!(lib.albums[1].title, "Solo");
    assert_eq!(lib.albums[1].entries.inner.len(), 1);

    // Two tracks share a title as well.
    assert_eq!(lib.tracks.len(), 2);
    assert_eq!(lib.tracks[0].title, "Common Song");
    let common = &lib.tracks[0].entries.inner;
    assert_eq!(common.len(), 2);
    assert_eq!(common[0].link, "a1");
    assert_eq!(common[1].link, "b1");
    assert_eq!(lib.tracks[1].title, "Only Here");
    assert_eq!(lib.tracks[1].entries.inner[0].link, "b2");
}

#[test]
fn library_replaces_a_duplicate_artist_in_place() {
    let artists = vec![
        artist("dup", vec![album("Old", "1999", vec![track("Old Song", "o")])]),
        artist("other", vec![]),
        artist("dup", vec![album("New", "2024", vec![track("New Song", "n")])]),
    ];
    let lib = Library::new(artists);

    assert_eq!(lib.artists.len(), 2);
    assert_eq!(lib.artists[0].name, "dup");
    assert_eq!(lib.artists[0].albums[0].title, "New");
    assert_eq!(lib.artists[1].name, "other");

    // Only the kept artist's albums and tracks are indexed.
    assert_eq!(lib.albums.len(), 1);
    assert_eq!(lib.albums[0].title, "New");
    assert_eq!(lib.tracks.len(), 1);
    assert_eq!(lib.tracks[0].title, "New Song");
}

#[test]
fn library_of_nothing_is_empty() {
    let lib = Library::new(Vec::new());
    assert!(lib.artists.is_empty());
    assert!(lib.albums.is_empty());
    assert!(lib.tracks.is_empty());
}

#[test]
fn duplicating_an_album_copies_every_field() {
    let al = album("T", "2000", vec![track("s1", "l1"), track("s2", "l2")]);
    let copy = al.duplicate();
    assert_eq!(copy.title, al.title);
    assert_eq!(copy.date, al.date);
    assert_eq!(copy.tracks.len(), 2);
    assert_eq!(copy.tracks[1].link, "l2");
}
