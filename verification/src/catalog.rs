//! The in-memory entity store that the synchronization tasks read and write.
//! The persistence engine behind it is an external collaborator; the catalog
//! models it as find / insert / update / delete over plain rows.
//!
//! Identity keys of artists, albums, tracks and playlists equal their row
//! index (rows are never deleted), so keys stay stable across syncs. External
//! (streaming-service) ids are unique per entity kind, and a playlist holds at
//! most one membership row per track.

use vstd::prelude::*;

use crate::enums::str_eq;
use crate::model::{Album, Artist, LidarrDownload, Playlist, PlaylistEntry, Track};

verus! {

/// View of an optional owned string as an optional character sequence.
pub open spec fn opt_sv(o: Option<String>) -> Option<Seq<char>> {
    match o {
        Some(s) => Some(s@),
        None => None,
    }
}

/// The store. All entity rows live here; sync tasks own none of them.
pub struct Catalog {
    pub artists: Vec<Artist>,
    pub albums: Vec<Album>,
    pub tracks: Vec<Track>,
    pub playlists: Vec<Playlist>,
    pub entries: Vec<PlaylistEntry>,
    pub downloads: Vec<LidarrDownload>,
    pub next_entry_id: u64,
    pub next_download_id: u64,
}

/// The mathematical model of a catalog: its rows as sequences.
#[verifier::ext_equal]
pub struct CatalogModel {
    pub artists: Seq<Artist>,
    pub albums: Seq<Album>,
    pub tracks: Seq<Track>,
    pub playlists: Seq<Playlist>,
    pub entries: Seq<PlaylistEntry>,
    pub downloads: Seq<LidarrDownload>,
    pub next_entry_id: u64,
    pub next_download_id: u64,
}

impl View for Catalog {
    type V = CatalogModel;

    open spec fn view(&self) -> CatalogModel {
        CatalogModel {
            artists: self.artists@,
            albums: self.albums@,
            tracks: self.tracks@,
            playlists: self.playlists@,
            entries: self.entries@,
            downloads: self.downloads@,
            next_entry_id: self.next_entry_id,
            next_download_id: self.next_download_id,
        }
    }
}

impl CatalogModel {
    /// Row keys equal row indices; external ids are unique; at most one
    /// membership row per (playlist, track) pair.
    pub open spec fn wf(self) -> bool {
        &&& forall|i: int| 0 <= i < self.artists.len() ==> (#[trigger] self.artists[i]).id == i as u64
        &&& forall|i: int| 0 <= i < self.albums.len() ==> (#[trigger] self.albums[i]).id == i as u64
        &&& forall|i: int| 0 <= i < self.tracks.len() ==> (#[trigger] self.tracks[i]).id == i as u64
        &&& forall|i: int|
            0 <= i < self.playlists.len() ==> (#[trigger] self.playlists[i]).id == i as u64
        &&& forall|i: int, j: int|
            0 <= i < j < self.artists.len() && self.artists[i].spotify_id is Some
                ==> opt_sv(#[trigger] self.artists[i].spotify_id) != opt_sv(
                #[trigger] self.artists[j].spotify_id,
            )
        &&& forall|i: int, j: int|
            0 <= i < j < self.albums.len() && self.albums[i].spotify_id is Some
                ==> opt_sv(#[trigger] self.albums[i].spotify_id) != opt_sv(
                #[trigger] self.albums[j].spotify_id,
            )
        &&& forall|i: int, j: int|
            0 <= i < j < self.tracks.len() && self.tracks[i].spotify_id is Some
                ==> opt_sv(#[trigger] self.tracks[i].spotify_id) != opt_sv(
                #[trigger] self.tracks[j].spotify_id,
            )
        &&& forall|i: int, j: int|
            0 <= i < j < self.playlists.len()
                ==> (#[trigger] self.playlists[i]).spotify_id@ != (
            #[trigger] self.playlists[j]).spotify_id@
        &&& forall|i: int, j: int|
            0 <= i < j < self.entries.len()
                ==> !((#[trigger] self.entries[i]).playlist_id == (
            #[trigger] self.entries[j]).playlist_id && self.entries[i].track_id
                == self.entries[j].track_id)
    }
}

impl Catalog {
    /// The catalog's rows are well-formed (see [`CatalogModel::wf`]).
    pub open spec fn wf(self) -> bool {
        self@.wf()
    }

    /// An empty catalog.
    pub fn new() -> (r: Catalog)
        ensures
            r.wf(),
            r.artists@.len() == 0,
            r.albums@.len() == 0,
            r.tracks@.len() == 0,
            r.playlists@.len() == 0,
            r.entries@.len() == 0,
            r.downloads@.len() == 0,
    {
        Catalog {
            artists: Vec::new(),
            albums: Vec::new(),
            tracks: Vec::new(),
            playlists: Vec::new(),
            entries: Vec::new(),
            downloads: Vec::new(),
            next_entry_id: 0,
            next_download_id: 0,
        }
    }
}

/// First index at or after `i` whose artist carries the external id `sid`.
pub open spec fn find_artist_from(s: Seq<Artist>, sid: Seq<char>, i: int) -> Option<int>
    decreases s.len() - i,
{
    if i < 0 || i >= s.len() {
        None
    } else if opt_sv(s[i].spotify_id) == Some(sid) {
        Some(i)
    } else {
        find_artist_from(s, sid, i + 1)
    }
}

/// First artist row carrying the external id `sid`.
pub open spec fn spec_find_artist(s: Seq<Artist>, sid: Seq<char>) -> Option<int> {
    find_artist_from(s, sid, 0)
}

/// First index at or after `i` whose album carries the external id `sid`.
pub open spec fn find_album_from(s: Seq<Album>, sid: Seq<char>, i: int) -> Option<int>
    decreases s.len() - i,
{
    if i < 0 || i >= s.len() {
        None
    } else if opt_sv(s[i].spotify_id) == Some(sid) {
        Some(i)
    } else {
        find_album_from(s, sid, i + 1)
    }
}

/// First album row carrying the external id `sid`.
pub open spec fn spec_find_album(s: Seq<Album>, sid: Seq<char>) -> Option<int> {
    find_album_from(s, sid, 0)
}

/// First index at or after `i` whose track carries the external id `sid`.
pub open spec fn find_track_from(s: Seq<Track>, sid: Seq<char>, i: int) -> Option<int>
    decreases s.len() - i,
{
    if i < 0 || i >= s.len() {
        None
    } else if opt_sv(s[i].spotify_id) == Some(sid) {
        Some(i)
    } else {
        find_track_from(s, sid, i + 1)
    }
}

/// First track row carrying the external id `sid`.
pub open spec fn spec_find_track(s: Seq<Track>, sid: Seq<char>) -> Option<int> {
    find_track_from(s, sid, 0)
}

/// First index at or after `i` whose playlist carries the external id `sid`.
pub open spec fn find_playlist_from(s: Seq<Playlist>, sid: Seq<char>, i: int) -> Option<int>
    decreases s.len() - i,
{
    if i < 0 || i >= s.len() {
        None
    } else if s[i].spotify_id@ == sid {
        Some(i)
    } else {
        find_playlist_from(s, sid, i + 1)
    }
}

/// First playlist row carrying the external id `sid`.
pub open spec fn spec_find_playlist(s: Seq<Playlist>, sid: Seq<char>) -> Option<int> {
    find_playlist_from(s, sid, 0)
}

/// First index at or after `i` whose membership row joins `pid` and `tid`.
pub open spec fn find_entry_from(s: Seq<PlaylistEntry>, pid: u64, tid: u64, i: int) -> Option<int>
    decreases s.len() - i,
{
    if i < 0 || i >= s.len() {
        None
    } else if s[i].playlist_id == pid && s[i].track_id == tid {
        Some(i)
    } else {
        find_entry_from(s, pid, tid, i + 1)
    }
}

/// First membership row joining `pid` and `tid`.
pub open spec fn spec_find_entry(s: Seq<PlaylistEntry>, pid: u64, tid: u64) -> Option<int> {
    find_entry_from(s, pid, tid, 0)
}

/// A `None` result of the artist search means no row matches at all.
pub proof fn lemma_find_artist_none(s: Seq<Artist>, sid: Seq<char>, i: int)
    requires
        0 <= i <= s.len(),
        find_artist_from(s, sid, i) is None,
    ensures
        forall|j: int| i <= j < s.len() ==> opt_sv(#[trigger] s[j].spotify_id) != Some(sid),
    decreases s.len() - i,
{
    if i < s.len() {
        lemma_find_artist_none(s, sid, i + 1);
    }
}

/// A found index is a match, and appending rows does not change the result.
pub proof fn lemma_find_artist_push(s: Seq<Artist>, sid: Seq<char>, a: Artist, i: int)
    requires
        0 <= i <= s.len(),
    ensures
        find_artist_from(s, sid, i) is Some ==> find_artist_from(s.push(a), sid, i)
            == find_artist_from(s, sid, i),
        find_artist_from(s, sid, i) is None && opt_sv(a.spotify_id) == Some(sid)
            ==> find_artist_from(s.push(a), sid, i) == Some(s.len() as int),
        find_artist_from(s, sid, i) is None && opt_sv(a.spotify_id) != Some(sid)
            ==> find_artist_from(s.push(a), sid, i) is None,
    decreases s.len() - i,
{
    if i < s.len() {
        assert(s.push(a)[i] == s[i]);
        lemma_find_artist_push(s, sid, a, i + 1);
    } else {
        assert(s.push(a)[s.len() as int] == a);
        assert(find_artist_from(s.push(a), sid, s.len() as int + 1) is None);
    }
}

/// A `None` result of the album search means no row matches at all.
pub proof fn lemma_find_album_none(s: Seq<Album>, sid: Seq<char>, i: int)
    requires
        0 <= i <= s.len(),
        find_album_from(s, sid, i) is None,
    ensures
        forall|j: int| i <= j < s.len() ==> opt_sv(#[trigger] s[j].spotify_id) != Some(sid),
    decreases s.len() - i,
{
    if i < s.len() {
        lemma_find_album_none(s, sid, i + 1);
    }
}

/// A found index is a match, and appending rows does not change the result.
pub proof fn lemma_find_album_push(s: Seq<Album>, sid: Seq<char>, a: Album, i: int)
    requires
        0 <= i <= s.len(),
    ensures
        find_album_from(s, sid, i) is Some ==> find_album_from(s.push(a), sid, i)
            == find_album_from(s, sid, i),
        find_album_from(s, sid, i) is None && opt_sv(a.spotify_id) == Some(sid)
            ==> find_album_from(s.push(a), sid, i) == Some(s.len() as int),
        find_album_from(s, sid, i) is None && opt_sv(a.spotify_id) != Some(sid)
            ==> find_album_from(s.push(a), sid, i) is None,
    decreases s.len() - i,
{
    if i < s.len() {
        assert(s.push(a)[i] == s[i]);
        lemma_find_album_push(s, sid, a, i + 1);
    } else {
        assert(s.push(a)[s.len() as int] == a);
        assert(find_album_from(s.push(a), sid, s.len() as int + 1) is None);
    }
}

/// A `None` result of the track search means no row matches at all.
pub proof fn lemma_find_track_none(s: Seq<Track>, sid: Seq<char>, i: int)
    requires
        0 <= i <= s.len(),
        find_track_from(s, sid, i) is None,
    ensures
        forall|j: int| i <= j < s.len() ==> opt_sv(#[trigger] s[j].spotify_id) != Some(sid),
    decreases s.len() - i,
{
    if i < s.len() {
        lemma_find_track_none(s, sid, i + 1);
    }
}

/// A found index is a match, and appending rows does not change the result.
pub proof fn lemma_find_track_push(s: Seq<Track>, sid: Seq<char>, a: Track, i: int)
    requires
        0 <= i <= s.len(),
    ensures
        find_track_from(s, sid, i) is Some ==> find_track_from(s.push(a), sid, i)
            == find_track_from(s, sid, i),
        find_track_from(s, sid, i) is None && opt_sv(a.spotify_id) == Some(sid)
            ==> find_track_from(s.push(a), sid, i) == Some(s.len() as int),
        find_track_from(s, sid, i) is None && opt_sv(a.spotify_id) != Some(sid)
            ==> find_track_from(s.push(a), sid, i) is None,
    decreases s.len() - i,
{
    if i < s.len() {
        assert(s.push(a)[i] == s[i]);
        lemma_find_track_push(s, sid, a, i + 1);
    } else {
        assert(s.push(a)[s.len() as int] == a);
        assert(find_track_from(s.push(a), sid, s.len() as int + 1) is None);
    }
}

/// A `None` result of the playlist search means no row matches at all.
pub proof fn lemma_find_playlist_none(s: Seq<Playlist>, sid: Seq<char>, i: int)
    requires
        0 <= i <= s.len(),
        find_playlist_from(s, sid, i) is None,
    ensures
        forall|j: int| i <= j < s.len() ==> (#[trigger] s[j]).spotify_id@ != sid,
    decreases s.len() - i,
{
    if i < s.len() {
        lemma_find_playlist_none(s, sid, i + 1);
    }
}

/// A `None` result of the membership search means no row joins the pair.
pub proof fn lemma_find_entry_none(s: Seq<PlaylistEntry>, pid: u64, tid: u64, i: int)
    requires
        0 <= i <= s.len(),
        find_entry_from(s, pid, tid, i) is None,
    ensures
        forall|j: int|
            i <= j < s.len() ==> !((#[trigger] s[j]).playlist_id == pid && s[j].track_id == tid),
    decreases s.len() - i,
{
    if i < s.len() {
        lemma_find_entry_none(s, pid, tid, i + 1);
    }
}

/// A found membership index is the first match; earlier rows do not match.
pub proof fn lemma_find_entry_some(s: Seq<PlaylistEntry>, pid: u64, tid: u64, i: int)
    requires
        0 <= i <= s.len(),
        find_entry_from(s, pid, tid, i) is Some,
    ensures
        ({
            let j = find_entry_from(s, pid, tid, i)->0;
            &&& i <= j < s.len()
            &&& s[j].playlist_id == pid
            &&& s[j].track_id == tid
        }),
    decreases s.len() - i,
{
    if i < s.len() {
        if !(s[i].playlist_id == pid && s[i].track_id == tid) {
            lemma_find_entry_some(s, pid, tid, i + 1);
        }
    }
}

/// A found playlist search result points at a matching row.
pub proof fn lemma_find_playlist_some(s: Seq<Playlist>, sid: Seq<char>, i: int)
    requires
        0 <= i <= s.len(),
        find_playlist_from(s, sid, i) is Some,
    ensures
        ({
            let j = find_playlist_from(s, sid, i)->0;
            &&& i <= j < s.len()
            &&& s[j].spotify_id@ == sid
        }),
    decreases s.len() - i,
{
    if i < s.len() {
        if s[i].spotify_id@ != sid {
            lemma_find_playlist_some(s, sid, i + 1);
        }
    }
}

/// A matching playlist row at some index means the search succeeds.
pub proof fn lemma_find_playlist_witness(s: Seq<Playlist>, sid: Seq<char>, at: int)
    requires
        0 <= at < s.len(),
        s[at].spotify_id@ == sid,
    ensures
        spec_find_playlist(s, sid) is Some,
{
    lemma_find_playlist_reaches(s, sid, 0, at);
}

proof fn lemma_find_playlist_reaches(s: Seq<Playlist>, sid: Seq<char>, i: int, at: int)
    requires
        0 <= i <= at < s.len(),
        s[at].spotify_id@ == sid,
    ensures
        find_playlist_from(s, sid, i) is Some,
    decreases at - i,
{
    if i < at && s[i].spotify_id@ != sid {
        lemma_find_playlist_reaches(s, sid, i + 1, at);
    }
}

/// A matching artist row at some index means the search succeeds.
pub proof fn lemma_find_artist_witness(s: Seq<Artist>, sid: Seq<char>, at: int)
    requires
        0 <= at < s.len(),
        opt_sv(s[at].spotify_id) == Some(sid),
    ensures
        spec_find_artist(s, sid) is Some,
{
    lemma_find_artist_reaches(s, sid, 0, at);
}

proof fn lemma_find_artist_reaches(s: Seq<Artist>, sid: Seq<char>, i: int, at: int)
    requires
        0 <= i <= at < s.len(),
        opt_sv(s[at].spotify_id) == Some(sid),
    ensures
        find_artist_from(s, sid, i) is Some,
    decreases at - i,
{
    if i < at && opt_sv(s[i].spotify_id) != Some(sid) {
        lemma_find_artist_reaches(s, sid, i + 1, at);
    }
}

/// A matching album row at some index means the search succeeds.
pub proof fn lemma_find_album_witness(s: Seq<Album>, sid: Seq<char>, at: int)
    requires
        0 <= at < s.len(),
        opt_sv(s[at].spotify_id) == Some(sid),
    ensures
        spec_find_album(s, sid) is Some,
{
    lemma_find_album_reaches(s, sid, 0, at);
}

proof fn lemma_find_album_reaches(s: Seq<Album>, sid: Seq<char>, i: int, at: int)
    requires
        0 <= i <= at < s.len(),
        opt_sv(s[at].spotify_id) == Some(sid),
    ensures
        find_album_from(s, sid, i) is Some,
    decreases at - i,
{
    if i < at && opt_sv(s[i].spotify_id) != Some(sid) {
        lemma_find_album_reaches(s, sid, i + 1, at);
    }
}

/// A found artist search result points at a matching row.
pub proof fn lemma_find_artist_some(s: Seq<Artist>, sid: Seq<char>, i: int)
    requires
        0 <= i <= s.len(),
        find_artist_from(s, sid, i) is Some,
    ensures
        ({
            let j = find_artist_from(s, sid, i)->0;
            &&& i <= j < s.len()
            &&& opt_sv(s[j].spotify_id) == Some(sid)
        }),
    decreases s.len() - i,
{
    if i < s.len() {
        if opt_sv(s[i].spotify_id) != Some(sid) {
            lemma_find_artist_some(s, sid, i + 1);
        }
    }
}

/// A found album search result points at a matching row.
pub proof fn lemma_find_album_some(s: Seq<Album>, sid: Seq<char>, i: int)
    requires
        0 <= i <= s.len(),
        find_album_from(s, sid, i) is Some,
    ensures
        ({
            let j = find_album_from(s, sid, i)->0;
            &&& i <= j < s.len()
            &&& opt_sv(s[j].spotify_id) == Some(sid)
        }),
    decreases s.len() - i,
{
    if i < s.len() {
        if opt_sv(s[i].spotify_id) != Some(sid) {
            lemma_find_album_some(s, sid, i + 1);
        }
    }
}

/// Clone an optional owned string, preserving the value.
pub fn clone_opt_string(o: &Option<String>) -> (r: Option<String>)
    ensures
        r == *o,
{
    match o {
        Some(s) => Some(s.clone()),
        None => None,
    }
}

/// Whether `x` occurs in `v`.
pub fn contains_u64(v: &Vec<u64>, x: u64) -> (r: bool)
    ensures
        r == v@.contains(x),
{
    let n = v.len();
    for i in 0..n
        invariant
            n == v@.len(),
            forall|j: int| 0 <= j < i ==> v@[j] != x,
    {
        if v[i] == x {
            return true;
        }
    }
    false
}

impl Catalog {
    /// Find an artist row by its streaming-service id.
    pub fn find_artist_by_spotify_id(&self, sid: &str) -> (r: Option<usize>)
        ensures
            match r {
                Some(i) => {
                    &&& i < self.artists@.len()
                    &&& spec_find_artist(self.artists@, sid@) == Some(i as int)
                    &&& opt_sv(self.artists@[i as int].spotify_id) == Some(sid@)
                },
                None => spec_find_artist(self.artists@, sid@) is None,
            },
    {
        let n = self.artists.len();
        for i in 0..n
            invariant
                n == self.artists@.len(),
                find_artist_from(self.artists@, sid@, 0) == find_artist_from(
                    self.artists@,
                    sid@,
                    i as int,
                ),
        {
            let matched = match &self.artists[i].spotify_id {
                Some(s) => str_eq(s.as_str(), sid),
                None => false,
            };
            if matched {
                return Some(i);
            }
            assert(find_artist_from(self.artists@, sid@, i as int) == find_artist_from(
                self.artists@,
                sid@,
                i + 1,
            ));
        }
        None
    }

    /// Find an album row by its streaming-service id.
    pub fn find_album_by_spotify_id(&self, sid: &str) -> (r: Option<usize>)
        ensures
            match r {
                Some(i) => {
                    &&& i < self.albums@.len()
                    &&& spec_find_album(self.albums@, sid@) == Some(i as int)
                    &&& opt_sv(self.albums@[i as int].spotify_id) == Some(sid@)
                },
                None => spec_find_album(self.albums@, sid@) is None,
            },
    {
        let n = self.albums.len();
        for i in 0..n
            invariant
                n == self.albums@.len(),
                find_album_from(self.albums@, sid@, 0) == find_album_from(
                    self.albums@,
                    sid@,
                    i as int,
                ),
        {
            let matched = match &self.albums[i].spotify_id {
                Some(s) => str_eq(s.as_str(), sid),
                None => false,
            };
            if matched {
                return Some(i);
            }
            assert(find_album_from(self.albums@, sid@, i as int) == find_album_from(
                self.albums@,
                sid@,
                i + 1,
            ));
        }
        None
    }

    /// Find a track row by its streaming-service id.
    pub fn find_track_by_spotify_id(&self, sid: &str) -> (r: Option<usize>)
        ensures
            match r {
                Some(i) => {
                    &&& i < self.tracks@.len()
                    &&& spec_find_track(self.tracks@, sid@) == Some(i as int)
                    &&& opt_sv(self.tracks@[i as int].spotify_id) == Some(sid@)
                },
                None => spec_find_track(self.tracks@, sid@) is None,
            },
    {
        let n = self.tracks.len();
        for i in 0..n
            invariant
                n == self.tracks@.len(),
                find_track_from(self.tracks@, sid@, 0) == find_track_from(
                    self.tracks@,
                    sid@,
                    i as int,
                ),
        {
            let matched = match &self.tracks[i].spotify_id {
                Some(s) => str_eq(s.as_str(), sid),
                None => false,
            };
            if matched {
                return Some(i);
            }
            assert(find_track_from(self.tracks@, sid@, i as int) == find_track_from(
                self.tracks@,
                sid@,
                i + 1,
            ));
        }
        None
    }

    /// Find a playlist row by its streaming-service id (or the liked-songs
    /// sentinel id).
    pub fn find_playlist_by_spotify_id(&self, sid: &str) -> (r: Option<usize>)
        ensures
            match r {
                Some(i) => {
                    &&& i < self.playlists@.len()
                    &&& spec_find_playlist(self.playlists@, sid@) == Some(i as int)
                    &&& self.playlists@[i as int].spotify_id@ == sid@
                },
                None => spec_find_playlist(self.playlists@, sid@) is None,
            },
    {
        let n = self.playlists.len();
        for i in 0..n
            invariant
                n == self.playlists@.len(),
                find_playlist_from(self.playlists@, sid@, 0) == find_playlist_from(
                    self.playlists@,
                    sid@,
                    i as int,
                ),
        {
            if str_eq(self.playlists[i].spotify_id.as_str(), sid) {
                return Some(i);
            }
            assert(find_playlist_from(self.playlists@, sid@, i as int) == find_playlist_from(
                self.playlists@,
                sid@,
                i + 1,
            ));
        }
        None
    }

    /// Find the membership row of track `tid` in playlist `pid`.
    pub fn find_entry(&self, pid: u64, tid: u64) -> (r: Option<usize>)
        ensures
            match r {
                Some(i) => {
                    &&& i < self.entries@.len()
                    &&& spec_find_entry(self.entries@, pid, tid) == Some(i as int)
                    &&& self.entries@[i as int].playlist_id == pid
                    &&& self.entries@[i as int].track_id == tid
                },
                None => spec_find_entry(self.entries@, pid, tid) is None,
            },
    {
        let n = self.entries.len();
        for i in 0..n
            invariant
                n == self.entries@.len(),
                find_entry_from(self.entries@, pid, tid, 0) == find_entry_from(
                    self.entries@,
                    pid,
                    tid,
                    i as int,
                ),
        {
            if self.entries[i].playlist_id == pid && self.entries[i].track_id == tid {
                return Some(i);
            }
            assert(find_entry_from(self.entries@, pid, tid, i as int) == find_entry_from(
                self.entries@,
                pid,
                tid,
                i + 1,
            ));
        }
        None
    }
}

} // verus!
