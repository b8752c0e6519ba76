//! The library index: artists, with reverse indices by album title and by
//! track title.
//!
//! Titles are not unique keys, so each reverse index maps a title to a
//! small list of entries; the common case is a single entry, and the
//! buckets are small vectors optimized for it.  Artist names are unique
//! keys: a later artist under an already-seen name replaces the earlier
//! one, in place.

use vstd::prelude::*;
use vstd::seq_lib::*;

use smallvec::SmallVec;

verus! {

/// One track: its title and where its audio lives.
#[derive(Debug)]
pub struct Track {
    pub title: String,
    pub link: String,
}

/// One album: its title, its release date, and its tracks.
#[derive(Debug)]
pub struct Album {
    pub title: String,
    pub date: String,
    pub tracks: Vec<Track>,
}

/// One artist and every album of theirs the library knows.
#[derive(Debug)]
pub struct Artist {
    pub name: String,
    pub albums: Vec<Album>,
}

/// An album reduced to plain values: title, date, tracks.
pub type AlbumView = (Seq<char>, Seq<char>, Seq<Track>);

/// An artist reduced to plain values: name, albums.
pub type ArtistView = (Seq<char>, Seq<AlbumView>);

/// One album, reduced.
pub open spec fn album_view(a: Album) -> AlbumView {
    (a.title@, a.date@, a.tracks@)
}

/// A list of albums, reduced.
pub open spec fn albums_views(s: Seq<Album>) -> Seq<AlbumView> {
    s.map_values(|a: Album| album_view(a))
}

/// One artist, reduced.
pub open spec fn artist_view(a: Artist) -> ArtistView {
    (a.name@, albums_views(a.albums@))
}

/// A list of artists, reduced.
pub open spec fn artist_views(s: Seq<Artist>) -> Seq<ArtistView> {
    s.map_values(|a: Artist| artist_view(a))
}

impl Track {
    /// An owned copy, equal to `self` in every field.
    pub fn duplicate(&self) -> (r: Track)
        ensures
            r == *self,
    {
        Track { title: self.title.clone(), link: self.link.clone() }
    }
}

impl Album {
    /// An owned copy with the same title, date and tracks.
    pub fn duplicate(&self) -> (r: Album)
        ensures
            album_view(r) == album_view(*self),
    {
        let mut tracks: Vec<Track> = Vec::new();
        let mut i: usize = 0;
        while i < self.tracks.len()
            invariant
                i <= self.tracks.len(),
                tracks@ == self.tracks@.take(i as int),
            decreases self.tracks.len() - i,
        {
            tracks.push(self.tracks[i].duplicate());
            proof {
                assert(tracks@ =~= self.tracks@.take(i as int + 1));
            }
            i += 1;
        }
        proof {
            assert(self.tracks@.take(self.tracks@.len() as int) =~= self.tracks@);
        }
        Album { title: self.title.clone(), date: self.date.clone(), tracks }
    }
}

/// No two artists share a name.
pub open spec fn unique_names(list: Seq<ArtistView>) -> bool {
    forall|i: int, j: int| 0 <= i < j < list.len() ==> list[i].0 != list[j].0
}

/// Insert one artist into a keyed list: replace the artist already under
/// that name, in place, or append a new entry.
pub open spec fn spec_upsert(list: Seq<ArtistView>, a: ArtistView) -> Seq<ArtistView> {
    if exists|i: int| 0 <= i < list.len() && list[i].0 == a.0 {
        let i = choose|i: int| 0 <= i < list.len() && list[i].0 == a.0;
        list.update(i, a)
    } else {
        list.push(a)
    }
}

/// The artist map the library holds: each given artist upserted in order.
pub open spec fn spec_artist_fold(artists: Seq<ArtistView>) -> Seq<ArtistView>
    decreases artists.len(),
{
    if artists.len() == 0 {
        Seq::<ArtistView>::empty()
    } else {
        spec_upsert(spec_artist_fold(artists.drop_last()), artists.last())
    }
}

/// Upserting keeps artist names unique.
proof fn lemma_upsert_unique(list: Seq<ArtistView>, a: ArtistView)
    requires
        unique_names(list),
    ensures
        unique_names(spec_upsert(list, a)),
{
    if exists|i: int| 0 <= i < list.len() && list[i].0 == a.0 {
        let i = choose|i: int| 0 <= i < list.len() && list[i].0 == a.0;
        assert forall|p: int, q: int|
            0 <= p < q < spec_upsert(list, a).len() implies spec_upsert(list, a)[p].0
            != spec_upsert(list, a)[q].0 by {
            assert(spec_upsert(list, a)[p].0 == list[p].0);
            assert(spec_upsert(list, a)[q].0 == list[q].0);
        }
    }
}

/// The folded artist map always has unique names.
proof fn lemma_fold_unique(artists: Seq<ArtistView>)
    ensures
        unique_names(spec_artist_fold(artists)),
    decreases artists.len(),
{
    if artists.len() > 0 {
        lemma_fold_unique(artists.drop_last());
        lemma_upsert_unique(spec_artist_fold(artists.drop_last()), artists.last());
    }
}

/// An album bucket's storage: a small vector that inlines the common
/// single-entry case.  Held opaquely: the element parameter of
/// `smallvec::SmallVec` is bound by a trait the verifier cannot read, so
/// the contents are tracked through [`album_bucket_elems`] alone.
#[verifier::external_body]
pub struct AlbumSmallVec {
    pub inner: SmallVec<[Album; 1]>,
}

/// A track bucket's storage, held as the album one is.
#[verifier::external_body]
pub struct TrackSmallVec {
    pub inner: SmallVec<[Track; 1]>,
}

/// What an album bucket holds, in insertion order.
pub uninterp spec fn album_bucket_elems(v: AlbumSmallVec) -> Seq<Album>;

/// What a track bucket holds, in insertion order.
pub uninterp spec fn track_bucket_elems(v: TrackSmallVec) -> Seq<Track>;

/// Relies on smallvec::SmallVec::new: a freshly created vector is empty.
#[verifier::external_body]
fn album_bucket_new() -> (r: AlbumSmallVec)
    ensures
        album_bucket_elems(r) == Seq::<Album>::empty(),
{
    AlbumSmallVec { inner: SmallVec::new() }
}

/// Relies on smallvec::SmallVec::push: appends the value at the end.
#[verifier::external_body]
fn album_bucket_push(bucket: &mut AlbumSmallVec, album: Album)
    ensures
        album_bucket_elems(*final(bucket)) == album_bucket_elems(*old(bucket)).push(album),
{
    bucket.inner.push(album)
}

/// Relies on smallvec::SmallVec::new: a freshly created vector is empty.
#[verifier::external_body]
fn track_bucket_new() -> (r: TrackSmallVec)
    ensures
        track_bucket_elems(r) == Seq::<Track>::empty(),
{
    TrackSmallVec { inner: SmallVec::new() }
}

/// Relies on smallvec::SmallVec::push: appends the value at the end.
#[verifier::external_body]
fn track_bucket_push(bucket: &mut TrackSmallVec, track: Track)
    ensures
        track_bucket_elems(*final(bucket)) == track_bucket_elems(*old(bucket)).push(track),
{
    bucket.inner.push(track)
}

/// One reverse-index entry for albums: a title and every album bearing it.
pub struct AlbumBucket {
    pub title: String,
    pub entries: AlbumSmallVec,
}

/// One reverse-index entry for tracks: a title and every track bearing it.
pub struct TrackBucket {
    pub title: String,
    pub entries: TrackSmallVec,
}

/// An album bucket reduced to plain values.
pub type AlbumGroup = (Seq<char>, Seq<AlbumView>);

/// A track bucket reduced to plain values.
pub type TrackGroup = (Seq<char>, Seq<Track>);

/// The album index, reduced.
pub open spec fn albums_index_view(bs: Seq<AlbumBucket>) -> Seq<AlbumGroup> {
    bs.map_values(|b: AlbumBucket| (b.title@, albums_views(album_bucket_elems(b.entries))))
}

/// The track index, reduced.
pub open spec fn tracks_index_view(bs: Seq<TrackBucket>) -> Seq<TrackGroup> {
    bs.map_values(|b: TrackBucket| (b.title@, track_bucket_elems(b.entries)))
}

/// File one value into a keyed list of buckets: into the bucket already
/// under its key, or into a fresh bucket appended at the end.
pub open spec fn spec_file_under<T>(
    groups: Seq<(Seq<char>, Seq<T>)>,
    key: Seq<char>,
    x: T,
) -> Seq<(Seq<char>, Seq<T>)> {
    if exists|i: int| 0 <= i < groups.len() && groups[i].0 == key {
        let i = choose|i: int| 0 <= i < groups.len() && groups[i].0 == key;
        groups.update(i, (groups[i].0, groups[i].1.push(x)))
    } else {
        groups.push((key, seq![x]))
    }
}

/// Group values by key: every value filed in order.
pub open spec fn spec_group_by<T>(
    items: Seq<T>,
    keyfn: spec_fn(T) -> Seq<char>,
) -> Seq<(Seq<char>, Seq<T>)>
    decreases items.len(),
{
    if items.len() == 0 {
        Seq::<(Seq<char>, Seq<T>)>::empty()
    } else {
        spec_file_under(
            spec_group_by(items.drop_last(), keyfn),
            keyfn(items.last()),
            items.last(),
        )
    }
}

/// An album's reverse-index key: its title.
pub open spec fn album_key_fn() -> spec_fn(AlbumView) -> Seq<char> {
    |al: AlbumView| al.0
}

/// A track's reverse-index key: its title.
pub open spec fn track_key_fn() -> spec_fn(Track) -> Seq<char> {
    |t: Track| t.title@
}

/// File one album under its title.
pub open spec fn spec_group_albums_add(groups: Seq<AlbumGroup>, al: AlbumView) -> Seq<AlbumGroup> {
    spec_file_under(groups, al.0, al)
}

/// The reverse index by album title: every album filed in order.
pub open spec fn spec_group_albums(albums: Seq<AlbumView>) -> Seq<AlbumGroup> {
    spec_group_by(albums, album_key_fn())
}

/// File one track under its title.
pub open spec fn spec_group_tracks_add(groups: Seq<TrackGroup>, t: Track) -> Seq<TrackGroup> {
    spec_file_under(groups, t.title@, t)
}

/// The reverse index by track title: every track filed in order.
pub open spec fn spec_group_tracks(tracks: Seq<Track>) -> Seq<TrackGroup> {
    spec_group_by(tracks, track_key_fn())
}

/// No two buckets share a key.
pub open spec fn unique_keys<T>(groups: Seq<(Seq<char>, Seq<T>)>) -> bool {
    forall|i: int, j: int| 0 <= i < j < groups.len() ==> groups[i].0 != groups[j].0
}

/// No two album buckets share a title.
pub open spec fn unique_album_keys(groups: Seq<AlbumGroup>) -> bool {
    unique_keys(groups)
}

/// No two track buckets share a title.
pub open spec fn unique_track_keys(groups: Seq<TrackGroup>) -> bool {
    unique_keys(groups)
}

/// Filing keeps bucket keys unique.
proof fn lemma_file_under_unique<T>(groups: Seq<(Seq<char>, Seq<T>)>, key: Seq<char>, x: T)
    requires
        unique_keys(groups),
    ensures
        unique_keys(spec_file_under(groups, key, x)),
{
    let out = spec_file_under(groups, key, x);
    if exists|i: int| 0 <= i < groups.len() && groups[i].0 == key {
        assert forall|p: int, q: int| 0 <= p < q < out.len() implies out[p].0 != out[q].0 by {
            assert(out[p].0 == groups[p].0);
            assert(out[q].0 == groups[q].0);
        }
    }
}

/// Grouping always yields unique bucket keys.
pub proof fn lemma_group_by_unique<T>(items: Seq<T>, keyfn: spec_fn(T) -> Seq<char>)
    ensures
        unique_keys(spec_group_by(items, keyfn)),
    decreases items.len(),
{
    if items.len() > 0 {
        lemma_group_by_unique(items.drop_last(), keyfn);
        lemma_file_under_unique(
            spec_group_by(items.drop_last(), keyfn),
            keyfn(items.last()),
            items.last(),
        );
    }
}

/// The predicate "bears this key".
pub open spec fn has_key<T>(keyfn: spec_fn(T) -> Seq<char>, key: Seq<char>) -> spec_fn(T) -> bool {
    |x: T| keyfn(x) == key
}

/// One unfolding of a filter, from the back.
proof fn lemma_filter_step<A>(s: Seq<A>, pred: spec_fn(A) -> bool)
    requires
        s.len() > 0,
    ensures
        pred(s.last()) ==> s.filter(pred) == s.drop_last().filter(pred).push(s.last()),
        !pred(s.last()) ==> s.filter(pred) == s.drop_last().filter(pred),
{
    reveal(Seq::filter);
}

/// Keeping nothing yields nothing.
proof fn lemma_filter_none<A>(s: Seq<A>, pred: spec_fn(A) -> bool)
    requires
        forall|i: int| 0 <= i < s.len() ==> !pred(#[trigger] s[i]),
    ensures
        s.filter(pred) == Seq::<A>::empty(),
    decreases s.len(),
{
    reveal(Seq::filter);
    if s.len() == 0 {
        assert(s =~= Seq::<A>::empty());
    } else {
        lemma_filter_none(s.drop_last(), pred);
        assert(!pred(s.last()));
    }
}

/// The grouped buckets carry exactly the keys of the grouped values: every
/// value's key has a bucket, and every bucket's key is borne by a value.
pub proof fn lemma_group_by_keys<T>(items: Seq<T>, keyfn: spec_fn(T) -> Seq<char>)
    ensures
        forall|k: int|
            0 <= k < items.len() ==> exists|i: int|
                0 <= i < spec_group_by(items, keyfn).len() && spec_group_by(items, keyfn)[i].0
                    == keyfn(#[trigger] items[k]),
        forall|i: int|
            0 <= i < spec_group_by(items, keyfn).len() ==> exists|k: int|
                0 <= k < items.len() && keyfn(items[k]) == (#[trigger] spec_group_by(
                    items,
                    keyfn,
                )[i]).0,
    decreases items.len(),
{
    if items.len() > 0 {
        let s0 = items.drop_last();
        let x = items.last();
        let key = keyfn(x);
        lemma_group_by_keys(s0, keyfn);
        let g0 = spec_group_by(s0, keyfn);
        let g = spec_group_by(items, keyfn);
        assert(g == spec_file_under(g0, key, x));
        let fresh = !exists|i: int| 0 <= i < g0.len() && g0[i].0 == key;
        assert forall|k: int| 0 <= k < items.len() implies exists|i: int|
            0 <= i < g.len() && g[i].0 == keyfn(#[trigger] items[k]) by {
            if k < s0.len() {
                assert(items[k] == s0[k]);
                let i0 = choose|i: int| 0 <= i < g0.len() && g0[i].0 == keyfn(s0[k]);
                assert(g[i0].0 == g0[i0].0);
            } else {
                assert(items[k] == x);
                if fresh {
                    assert(g[g0.len() as int].0 == key);
                } else {
                    let ci = choose|i: int| 0 <= i < g0.len() && g0[i].0 == key;
                    assert(g[ci].0 == key);
                }
            }
        }
        assert forall|i: int| 0 <= i < g.len() implies exists|k: int|
            0 <= k < items.len() && keyfn(items[k]) == (#[trigger] g[i]).0 by {
            if i < g0.len() {
                let k0 = choose|k: int| 0 <= k < s0.len() && keyfn(s0[k]) == g0[i].0;
                assert(g[i].0 == g0[i].0);
                assert(items[k0] == s0[k0]);
            } else {
                assert(g[i].0 == key);
                assert(keyfn(items[items.len() - 1]) == g[i].0);
            }
        }
    }
}

/// A grouped index is exactly a reverse index: each bucket holds, in
/// order, exactly the values bearing its key.  With [`lemma_group_by_keys`]
/// this pins the album and track indices completely: a title's bucket is
/// the filter of all albums (or tracks) by that title.
#[verifier::rlimit(50)]
pub proof fn lemma_group_by_reverse_index<T>(items: Seq<T>, keyfn: spec_fn(T) -> Seq<char>)
    ensures
        forall|i: int|
            0 <= i < spec_group_by(items, keyfn).len() ==> (#[trigger] spec_group_by(
                items,
                keyfn,
            )[i]).1 == items.filter(has_key(keyfn, spec_group_by(items, keyfn)[i].0)),
    decreases items.len(),
{
    if items.len() > 0 {
        let s0 = items.drop_last();
        let x = items.last();
        let key = keyfn(x);
        lemma_group_by_reverse_index(s0, keyfn);
        lemma_group_by_unique(s0, keyfn);
        lemma_group_by_keys(s0, keyfn);
        let g0 = spec_group_by(s0, keyfn);
        let g = spec_group_by(items, keyfn);
        assert(g == spec_file_under(g0, key, x));
        if exists|i: int| 0 <= i < g0.len() && g0[i].0 == key {
            let ci = choose|i: int| 0 <= i < g0.len() && g0[i].0 == key;
            assert(g == g0.update(ci, (g0[ci].0, g0[ci].1.push(x))));
            assert forall|i: int| 0 <= i < g.len() implies (#[trigger] g[i]).1 == items.filter(
                has_key(keyfn, g[i].0),
            ) by {
                lemma_filter_step(items, has_key(keyfn, g[i].0));
                assert(items.drop_last() == s0);
                if i == ci {
                    assert(has_key(keyfn, key)(x));
                } else {
                    assert(g[i] == g0[i]);
                    assert(g0[i].0 != key);
                    assert(!has_key(keyfn, g0[i].0)(x));
                }
            }
        } else {
            assert(g == g0.push((key, seq![x])));
            assert forall|j: int| 0 <= j < s0.len() implies !has_key(keyfn, key)(
                #[trigger] s0[j],
            ) by {
                if keyfn(s0[j]) == key {
                    let i0 = choose|i: int| 0 <= i < g0.len() && g0[i].0 == keyfn(s0[j]);
                    assert(g0[i0].0 == key);
                }
            }
            lemma_filter_none(s0, has_key(keyfn, key));
            assert forall|i: int| 0 <= i < g.len() implies (#[trigger] g[i]).1 == items.filter(
                has_key(keyfn, g[i].0),
            ) by {
                lemma_filter_step(items, has_key(keyfn, g[i].0));
                assert(items.drop_last() == s0);
                if i < g0.len() {
                    assert(g[i] == g0[i]);
                    assert(g0[i].0 != key);
                    assert(!has_key(keyfn, g0[i].0)(x));
                } else {
                    assert(g[i] == (key, seq![x]));
                    assert(has_key(keyfn, key)(x));
                    assert(s0.filter(has_key(keyfn, key)).push(x) =~= seq![x]);
                }
            }
        }
    }
}

/// Filing keeps album bucket titles unique.
proof fn lemma_group_albums_add_unique(groups: Seq<AlbumGroup>, al: AlbumView)
    requires
        unique_album_keys(groups),
    ensures
        unique_album_keys(spec_group_albums_add(groups, al)),
{
    lemma_file_under_unique(groups, al.0, al);
}

/// Filing keeps track bucket titles unique.
proof fn lemma_group_tracks_add_unique(groups: Seq<TrackGroup>, t: Track)
    requires
        unique_track_keys(groups),
    ensures
        unique_track_keys(spec_group_tracks_add(groups, t)),
{
    lemma_file_under_unique(groups, t.title@, t);
}

/// The library index: the artist map and the two reverse indices.
pub struct Library {
    /// All artists in the library, names unique, in first-seen order; a
    /// duplicate name replaced the earlier artist in place.
    pub artists: Vec<Artist>,
    /// Every album, filed by title.
    pub albums: Vec<AlbumBucket>,
    /// Every track, filed by title.
    pub tracks: Vec<TrackBucket>,
}

impl Library {
    /// Build the index: dedupe the artists by name, then file every album
    /// and every track of the kept artists under its title.  Albums and
    /// tracks are taken in the order they appear across the artist list.
    pub fn new(artists: Vec<Artist>) -> (lib: Library)
        ensures
            artist_views(lib.artists@) == spec_artist_fold(artist_views(artists@)),
            unique_names(artist_views(lib.artists@)),
            albums_index_view(lib.albums@) == spec_group_albums(
                spec_all_albums(spec_artist_fold(artist_views(artists@))),
            ),
            unique_album_keys(albums_index_view(lib.albums@)),
            tracks_index_view(lib.tracks@) == spec_group_tracks(
                spec_all_tracks(spec_all_albums(spec_artist_fold(artist_views(artists@)))),
            ),
            unique_track_keys(tracks_index_view(lib.tracks@)),
    {
        let ghost orig = artists@;
        let mut rest = artists;
        let mut deduped: Vec<Artist> = Vec::new();
        let ghost mut k: int = 0;
        proof {
            assert(artist_views(orig.take(0)) =~= Seq::<ArtistView>::empty());
            assert(orig.skip(0) =~= orig);
        }
        while rest.len() > 0
            invariant
                0 <= k <= orig.len(),
                rest@ == orig.skip(k),
                artist_views(deduped@) == spec_artist_fold(artist_views(orig.take(k))),
                unique_names(artist_views(deduped@)),
            decreases rest@.len(),
        {
            let a = rest.remove(0);
            proof {
                assert(orig.skip(k).remove(0) =~= orig.skip(k + 1));
                assert(a == orig[k]);
            }
            Library::upsert_artist(&mut deduped, a);
            proof {
                assert(artist_views(orig.take(k + 1)).drop_last() =~= artist_views(orig.take(k)));
                assert(artist_views(orig.take(k + 1)).last() == artist_view(orig[k]));
                k = k + 1;
            }
        }
        proof {
            assert(orig.take(orig.len() as int) =~= orig);
        }
        let ghost arts_v = artist_views(deduped@);

        // Every album of the kept artists, flattened in artist order.
        let mut flat_albums: Vec<Album> = Vec::new();
        let mut ai: usize = 0;
        proof {
            assert(arts_v.take(0) =~= Seq::<ArtistView>::empty());
            lemma_flat_map_empty(arts_v.take(0), albums_of_fn());
            assert(albums_views(flat_albums@) =~= spec_all_albums(arts_v.take(0)));
        }
        while ai < deduped.len()
            invariant
                ai <= deduped.len(),
                arts_v == artist_views(deduped@),
                albums_views(flat_albums@) == spec_all_albums(arts_v.take(ai as int)),
            decreases deduped.len() - ai,
        {
            let artist = &deduped[ai];
            let mut bi: usize = 0;
            proof {
                assert(arts_v[ai as int] == artist_view(deduped@[ai as int]));
                assert(arts_v[ai as int].1.take(0) =~= Seq::<AlbumView>::empty());
                assert(albums_views(flat_albums@) + arts_v[ai as int].1.take(0) =~= albums_views(
                    flat_albums@,
                ));
            }
            while bi < artist.albums.len()
                invariant
                    bi <= artist.albums.len(),
                    ai < deduped.len(),
                    artist == &deduped[ai as int],
                    arts_v == artist_views(deduped@),
                    arts_v[ai as int].1.len() == artist.albums@.len(),
                    albums_views(flat_albums@) == spec_all_albums(arts_v.take(ai as int))
                        + arts_v[ai as int].1.take(bi as int),
                decreases artist.albums.len() - bi,
            {
                let ghost before_push = flat_albums@;
                let dup = artist.albums[bi].duplicate();
                let ghost dv = album_view(dup);
                flat_albums.push(dup);
                proof {
                    assert(arts_v[ai as int].1 == albums_views(deduped@[ai as int].albums@));
                    assert(dv == arts_v[ai as int].1[bi as int]);
                    assert(albums_views(flat_albums@) =~= albums_views(before_push).push(dv));
                    assert(albums_views(flat_albums@) =~= spec_all_albums(arts_v.take(ai as int))
                        + arts_v[ai as int].1.take(bi as int + 1));
                }
                bi += 1;
            }
            proof {
                assert(arts_v[ai as int].1.take(arts_v[ai as int].1.len() as int) =~= arts_v[
                    ai as int
                ].1);
                arts_v.lemma_flat_map_take_append(albums_of_fn(), ai as int);
            }
            ai += 1;
        }
        proof {
            assert(arts_v.take(arts_v.len() as int) =~= arts_v);
        }
        let ghost fa_views = albums_views(flat_albums@);

        // Every track of those albums, flattened in the same order.
        let mut flat_tracks: Vec<Track> = Vec::new();
        let mut ci: usize = 0;
        proof {
            assert(fa_views.take(0) =~= Seq::<AlbumView>::empty());
            lemma_flat_map_empty(fa_views.take(0), tracks_of_fn());
            assert(flat_tracks@ =~= spec_all_tracks(fa_views.take(0)));
        }
        while ci < flat_albums.len()
            invariant
                ci <= flat_albums.len(),
                fa_views == albums_views(flat_albums@),
                flat_tracks@ == spec_all_tracks(fa_views.take(ci as int)),
            decreases flat_albums.len() - ci,
        {
            let album = &flat_albums[ci];
            let mut ti: usize = 0;
            proof {
                assert(fa_views[ci as int] == album_view(flat_albums@[ci as int]));
                assert(fa_views[ci as int].2.take(0) =~= Seq::<Track>::empty());
                assert(flat_tracks@ + fa_views[ci as int].2.take(0) =~= flat_tracks@);
            }
            let ghost before = flat_tracks@;
            while ti < album.tracks.len()
                invariant
                    ti <= album.tracks.len(),
                    ci < flat_albums.len(),
                    album == &flat_albums[ci as int],
                    fa_views == albums_views(flat_albums@),
                    fa_views[ci as int].2.len() == album.tracks@.len(),
                    before == spec_all_tracks(fa_views.take(ci as int)),
                    flat_tracks@ == before + fa_views[ci as int].2.take(ti as int),
                decreases album.tracks.len() - ti,
            {
                let dup = album.tracks[ti].duplicate();
                flat_tracks.push(dup);
                proof {
                    assert(fa_views[ci as int] == album_view(flat_albums@[ci as int]));
                    assert(fa_views[ci as int].2[ti as int] == album.tracks@[ti as int]);
                    assert(flat_tracks@ =~= before + fa_views[ci as int].2.take(ti as int + 1));
                }
                ti += 1;
            }
            proof {
                assert(fa_views[ci as int].2.take(fa_views[ci as int].2.len() as int) =~= fa_views[
                    ci as int
                ].2);
                fa_views.lemma_flat_map_take_append(tracks_of_fn(), ci as int);
            }
            ci += 1;
        }
        proof {
            assert(fa_views.take(fa_views.len() as int) =~= fa_views);
        }

        // File the albums by title.
        let mut album_index: Vec<AlbumBucket> = Vec::new();
        let mut gi: usize = 0;
        proof {
            assert(fa_views.take(0) =~= Seq::<AlbumView>::empty());
            assert(albums_index_view(album_index@) =~= spec_group_albums(fa_views.take(0)));
        }
        while gi < flat_albums.len()
            invariant
                gi <= flat_albums.len(),
                fa_views == albums_views(flat_albums@),
                albums_index_view(album_index@) == spec_group_albums(fa_views.take(gi as int)),
                unique_album_keys(albums_index_view(album_index@)),
            decreases flat_albums.len() - gi,
        {
            let al = flat_albums[gi].duplicate();
            proof {
                assert(album_view(al) == fa_views[gi as int]);
                assert(fa_views.take(gi as int + 1).drop_last() =~= fa_views.take(gi as int));
                assert(fa_views.take(gi as int + 1).last() == fa_views[gi as int]);
            }
            Library::file_album(&mut album_index, al);
            gi += 1;
        }

        // File the tracks by title.
        let ghost ft = flat_tracks@;
        let mut track_index: Vec<TrackBucket> = Vec::new();
        let mut hi: usize = 0;
        proof {
            assert(ft.take(0) =~= Seq::<Track>::empty());
            assert(tracks_index_view(track_index@) =~= spec_group_tracks(ft.take(0)));
        }
        while hi < flat_tracks.len()
            invariant
                hi <= flat_tracks.len(),
                ft == flat_tracks@,
                tracks_index_view(track_index@) == spec_group_tracks(ft.take(hi as int)),
                unique_track_keys(tracks_index_view(track_index@)),
            decreases flat_tracks.len() - hi,
        {
            let t = flat_tracks[hi].duplicate();
            proof {
                assert(ft.take(hi as int + 1).drop_last() =~= ft.take(hi as int));
                assert(ft.take(hi as int + 1).last() == ft[hi as int]);
            }
            Library::file_track(&mut track_index, t);
            hi += 1;
        }
        proof {
            assert(fa_views.take(flat_albums@.len() as int) =~= fa_views);
            assert(ft.take(flat_tracks@.len() as int) =~= ft);
        }

        Library { artists: deduped, albums: album_index, tracks: track_index }
    }

    /// Replace the artist already under this name, in place, or append.
    fn upsert_artist(list: &mut Vec<Artist>, a: Artist)
        requires
            unique_names(artist_views(old(list)@)),
        ensures
            artist_views(final(list)@) == spec_upsert(artist_views(old(list)@), artist_view(a)),
            unique_names(artist_views(final(list)@)),
    {
        let ghost views = artist_views(list@);
        let ghost av = artist_view(a);
        let n = list.len();
        let mut j: usize = 0;
        loop
            invariant
                j <= n,
                n == list.len(),
                *list == *old(list),
                forall|p: int| 0 <= p < j ==> (#[trigger] artist_views(list@)[p]).0 != a.name@,
            ensures
                *list == *old(list),
                j <= n,
                n == list.len(),
                j < n ==> artist_views(list@)[j as int].0 == a.name@,
                forall|p: int| 0 <= p < j ==> (#[trigger] artist_views(list@)[p]).0 != a.name@,
            decreases n - j,
        {
            if j >= n {
                break ;
            }
            let candidate = &list[j];
            proof {
                assert(artist_views(list@)[j as int] == artist_view(list@[j as int]));
            }
            if candidate.name == a.name {
                break ;
            }
            j += 1;
        }
        proof {
            lemma_upsert_unique(views, av);
        }
        if j < n {
            proof {
                let ci = choose|i: int| 0 <= i < views.len() && views[i].0 == av.0;
                if ci != j {
                    assert(views[ci].0 == views[j as int].0);
                }
            }
            list.remove(j);
            list.insert(j, a);
            proof {
                assert(artist_views(list@) =~= views.update(j as int, av));
            }
        } else {
            list.push(a);
            proof {
                assert(artist_views(list@) =~= views.push(av));
            }
        }
    }

    /// File one album into the index: into its title's bucket, or into a
    /// fresh bucket at the end.
    fn file_album(index: &mut Vec<AlbumBucket>, al: Album)
        requires
            unique_album_keys(albums_index_view(old(index)@)),
        ensures
            albums_index_view(final(index)@) == spec_group_albums_add(
                albums_index_view(old(index)@),
                album_view(al),
            ),
            unique_album_keys(albums_index_view(final(index)@)),
    {
        let ghost groups = albums_index_view(index@);
        let ghost av = album_view(al);
        let n = index.len();
        let mut j: usize = 0;
        loop
            invariant
                j <= n,
                n == index.len(),
                *index == *old(index),
                forall|p: int|
                    0 <= p < j ==> (#[trigger] albums_index_view(index@)[p]).0 != al.title@,
            ensures
                *index == *old(index),
                j <= n,
                n == index.len(),
                j < n ==> albums_index_view(index@)[j as int].0 == al.title@,
                forall|p: int|
                    0 <= p < j ==> (#[trigger] albums_index_view(index@)[p]).0 != al.title@,
            decreases n - j,
        {
            if j >= n {
                break ;
            }
            let candidate = &index[j];
            proof {
                assert(albums_index_view(index@)[j as int].0 == index@[j as int].title@);
            }
            if candidate.title == al.title {
                break ;
            }
            j += 1;
        }
        proof {
            lemma_group_albums_add_unique(groups, av);
        }
        if j < n {
            proof {
                let ci = choose|i: int| 0 <= i < groups.len() && groups[i].0 == av.0;
                if ci != j {
                    assert(groups[ci].0 == groups[j as int].0);
                }
            }
            let mut bucket = index.remove(j);
            album_bucket_push(&mut bucket.entries, al);
            proof {
                assert(albums_views(album_bucket_elems(bucket.entries)) =~= groups[j as int].1.push(
                    av,
                ));
            }
            index.insert(j, bucket);
            proof {
                assert(albums_index_view(index@) =~= groups.update(
                    j as int,
                    (groups[j as int].0, groups[j as int].1.push(av)),
                ));
            }
        } else {
            let mut entries = album_bucket_new();
            let title = al.title.clone();
            album_bucket_push(&mut entries, al);
            proof {
                assert(albums_views(album_bucket_elems(entries)) =~= seq![av]);
            }
            index.push(AlbumBucket { title, entries });
            proof {
                assert(albums_index_view(index@) =~= groups.push((av.0, seq![av])));
            }
        }
    }

    /// File one track into the index: into its title's bucket, or into a
    /// fresh bucket at the end.
    fn file_track(index: &mut Vec<TrackBucket>, t: Track)
        requires
            unique_track_keys(tracks_index_view(old(index)@)),
        ensures
            tracks_index_view(final(index)@) == spec_group_tracks_add(
                tracks_index_view(old(index)@),
                t,
            ),
            unique_track_keys(tracks_index_view(final(index)@)),
    {
        let ghost groups = tracks_index_view(index@);
        let n = index.len();
        let mut j: usize = 0;
        loop
            invariant
                j <= n,
                n == index.len(),
                *index == *old(index),
                forall|p: int|
                    0 <= p < j ==> (#[trigger] tracks_index_view(index@)[p]).0 != t.title@,
            ensures
                *index == *old(index),
                j <= n,
                n == index.len(),
                j < n ==> tracks_index_view(index@)[j as int].0 == t.title@,
                forall|p: int|
                    0 <= p < j ==> (#[trigger] tracks_index_view(index@)[p]).0 != t.title@,
            decreases n - j,
        {
            if j >= n {
                break ;
            }
            let candidate = &index[j];
            proof {
                assert(tracks_index_view(index@)[j as int].0 == index@[j as int].title@);
            }
            if candidate.title == t.title {
                break ;
            }
            j += 1;
        }
        proof {
            lemma_group_tracks_add_unique(groups, t);
        }
        if j < n {
            proof {
                let ci = choose|i: int| 0 <= i < groups.len() && groups[i].0 == t.title@;
                if ci != j {
                    assert(groups[ci].0 == groups[j as int].0);
                }
            }
            let mut bucket = index.remove(j);
            track_bucket_push(&mut bucket.entries, t);
            proof {
                assert(track_bucket_elems(bucket.entries) =~= groups[j as int].1.push(t));
            }
            index.insert(j, bucket);
            proof {
                assert(tracks_index_view(index@) =~= groups.update(
                    j as int,
                    (groups[j as int].0, groups[j as int].1.push(t)),
                ));
            }
        } else {
            let mut entries = track_bucket_new();
            let title = t.title.clone();
            track_bucket_push(&mut entries, t);
            proof {
                assert(track_bucket_elems(entries) =~= seq![t]);
            }
            index.push(TrackBucket { title, entries });
            proof {
                assert(tracks_index_view(index@) =~= groups.push((t.title@, seq![t])));
            }
        }
    }
}

/// `a.1` as a function value, for the flattening lemmas.
pub open spec fn albums_of_fn() -> spec_fn(ArtistView) -> Seq<AlbumView> {
    |a: ArtistView| a.1
}

/// `al.2` as a function value, for the flattening lemmas.
pub open spec fn tracks_of_fn() -> spec_fn(AlbumView) -> Seq<Track> {
    |al: AlbumView| al.2
}

/// Every album of every artist, flattened in artist order.
pub open spec fn spec_all_albums(arts: Seq<ArtistView>) -> Seq<AlbumView> {
    arts.flat_map(albums_of_fn())
}

/// Every track of every album, flattened in album order.
pub open spec fn spec_all_tracks(albums: Seq<AlbumView>) -> Seq<Track> {
    albums.flat_map(tracks_of_fn())
}

/// Flat-mapping nothing yields nothing.
proof fn lemma_flat_map_empty<A, B>(s: Seq<A>, f: spec_fn(A) -> Seq<B>)
    requires
        s.len() == 0,
    ensures
        s.flat_map(f) == Seq::<B>::empty(),
{
    assert(s.map_values(f) =~= Seq::<Seq<B>>::empty());
    assert(s.flat_map(f) =~= Seq::<B>::empty());
}

} // verus!
