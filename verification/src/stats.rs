//! The Playlist Statistics Maintainer: keep each playlist's denormalized
//! owned-track count equal to a live recompute over memberships → tracks →
//! albums. Callers must recompute synchronously whenever album ownership
//! changes; the flip law at the bottom says exactly how a single ownership
//! flip moves every count.

use vstd::prelude::*;

use std::collections::HashMap;

use crate::catalog::{Catalog, CatalogModel};
use crate::enums::OwnershipStatus;
use crate::model::{Album, Playlist, PlaylistEntry};

verus! {

/// A membership row counts as owned when its track and that track's album
/// exist and the album's ownership is `Owned`.
pub open spec fn entry_owned(m: CatalogModel, e: PlaylistEntry) -> bool {
    &&& e.track_id < m.tracks.len()
    &&& m.tracks[e.track_id as int].album_id < m.albums.len()
    &&& m.albums[m.tracks[e.track_id as int].album_id as int].ownership_status
        == OwnershipStatus::Owned
}

/// A membership row's track belongs to the given album.
pub open spec fn entry_in_album(m: CatalogModel, e: PlaylistEntry, album_id: u64) -> bool {
    &&& e.track_id < m.tracks.len()
    &&& m.tracks[e.track_id as int].album_id == album_id
}

/// Owned members of playlist `pid` among the rows from `i` on.
pub open spec fn owned_count_from(m: CatalogModel, pid: u64, i: int) -> int
    decreases m.entries.len() - i,
{
    if i < 0 || i >= m.entries.len() {
        0
    } else {
        (if m.entries[i].playlist_id == pid && entry_owned(m, m.entries[i]) {
            1int
        } else {
            0int
        }) + owned_count_from(m, pid, i + 1)
    }
}

/// The live owned-track count of playlist `pid`: members whose album
/// ownership is `Owned`.
pub open spec fn spec_owned_count(m: CatalogModel, pid: u64) -> int {
    owned_count_from(m, pid, 0)
}

/// Members of playlist `pid` among the rows from `i` on.
pub open spec fn total_count_from(m: CatalogModel, pid: u64, i: int) -> int
    decreases m.entries.len() - i,
{
    if i < 0 || i >= m.entries.len() {
        0
    } else {
        (if m.entries[i].playlist_id == pid {
            1int
        } else {
            0int
        }) + total_count_from(m, pid, i + 1)
    }
}

/// The live member count of playlist `pid`.
pub open spec fn spec_total_count(m: CatalogModel, pid: u64) -> int {
    total_count_from(m, pid, 0)
}

/// Members of playlist `pid` whose track belongs to `album_id`, from `i` on.
pub open spec fn album_members_from(m: CatalogModel, pid: u64, album_id: u64, i: int) -> int
    decreases m.entries.len() - i,
{
    if i < 0 || i >= m.entries.len() {
        0
    } else {
        (if m.entries[i].playlist_id == pid && entry_in_album(m, m.entries[i], album_id) {
            1int
        } else {
            0int
        }) + album_members_from(m, pid, album_id, i + 1)
    }
}

/// How many of playlist `pid`'s members belong to album `album_id`.
pub open spec fn spec_album_members(m: CatalogModel, pid: u64, album_id: u64) -> int {
    album_members_from(m, pid, album_id, 0)
}

/// Counts never exceed the number of membership rows, and are nonnegative.
pub proof fn lemma_counts_bounded(m: CatalogModel, pid: u64, i: int)
    requires
        0 <= i <= m.entries.len(),
    ensures
        0 <= owned_count_from(m, pid, i) <= m.entries.len() - i,
        0 <= total_count_from(m, pid, i) <= m.entries.len() - i,
    decreases m.entries.len() - i,
{
    if i < m.entries.len() {
        lemma_counts_bounded(m, pid, i + 1);
    }
}

/// Calculate the live owned-track count for a single playlist.
pub fn recalculate_playlist_owned_count(cat: &Catalog, playlist_id: u64) -> (r: u64)
    ensures
        r == spec_owned_count(cat@, playlist_id),
{
    let n = cat.entries.len();
    let tracks_len = cat.tracks.len();
    let albums_len = cat.albums.len();
    let mut count: u64 = 0;
    proof {
        lemma_counts_bounded(cat@, playlist_id, 0);
    }
    for i in 0..n
        invariant
            n == cat@.entries.len(),
            tracks_len == cat@.tracks.len(),
            albums_len == cat@.albums.len(),
            count + owned_count_from(cat@, playlist_id, i as int) == spec_owned_count(
                cat@,
                playlist_id,
            ),
            count <= i,
    {
        let e = &cat.entries[i];
        let owned = if e.playlist_id == playlist_id && e.track_id < tracks_len as u64 {
            let t = &cat.tracks[e.track_id as usize];
            if t.album_id < albums_len as u64 {
                match cat.albums[t.album_id as usize].ownership_status {
                    OwnershipStatus::Owned => true,
                    _ => false,
                }
            } else {
                false
            }
        } else {
            false
        };
        proof {
            lemma_counts_bounded(cat@, playlist_id, i + 1);
            assert(owned == entry_owned(cat@, cat@.entries[i as int]) || cat@.entries[i as int].playlist_id != playlist_id);
        }
        if owned {
            count = count + 1;
        }
    }
    count
}

/// Calculate the live member total for a single playlist.
pub fn recalculate_playlist_total_count(cat: &Catalog, playlist_id: u64) -> (r: u64)
    ensures
        r == spec_total_count(cat@, playlist_id),
{
    let n = cat.entries.len();
    let mut count: u64 = 0;
    proof {
        lemma_counts_bounded(cat@, playlist_id, 0);
    }
    for i in 0..n
        invariant
            n == cat@.entries.len(),
            count + total_count_from(cat@, playlist_id, i as int) == spec_total_count(
                cat@,
                playlist_id,
            ),
            count <= i,
    {
        proof {
            lemma_counts_bounded(cat@, playlist_id, i + 1);
        }
        if cat.entries[i].playlist_id == playlist_id {
            count = count + 1;
        }
    }
    count
}

/// Playlist `pid` contains at least one track of album `album_id`.
pub open spec fn spec_playlist_affected(m: CatalogModel, pid: u64, album_id: u64) -> bool {
    exists|j: int|
        0 <= j < m.entries.len() && (#[trigger] m.entries[j]).playlist_id == pid && entry_in_album(
            m,
            m.entries[j],
            album_id,
        )
}

/// Whether playlist `pid` contains any track of album `album_id`.
fn playlist_affected(cat: &Catalog, pid: u64, album_id: u64) -> (r: bool)
    ensures
        r == spec_playlist_affected(cat@, pid, album_id),
{
    let n = cat.entries.len();
    let tracks_len = cat.tracks.len();
    for i in 0..n
        invariant
            n == cat@.entries.len(),
            tracks_len == cat@.tracks.len(),
            forall|j: int|
                0 <= j < i ==> !((#[trigger] cat@.entries[j]).playlist_id == pid && entry_in_album(
                    cat@,
                    cat@.entries[j],
                    album_id,
                )),
    {
        let e = &cat.entries[i];
        if e.playlist_id == pid && e.track_id < tracks_len as u64 {
            if cat.tracks[e.track_id as usize].album_id == album_id {
                proof {
                    assert(cat@.entries[i as int].playlist_id == pid && entry_in_album(
                        cat@,
                        cat@.entries[i as int],
                        album_id,
                    ));
                }
                return true;
            }
        }
    }
    false
}

/// The counting functions read only memberships, tracks and albums, so a
/// playlist-table update leaves them alone.
pub proof fn lemma_counts_ignore_playlists(m1: CatalogModel, m2: CatalogModel, pid: u64, i: int)
    requires
        m1.entries == m2.entries,
        m1.tracks == m2.tracks,
        m1.albums == m2.albums,
        0 <= i,
    ensures
        owned_count_from(m1, pid, i) == owned_count_from(m2, pid, i),
        total_count_from(m1, pid, i) == total_count_from(m2, pid, i),
    decreases m1.entries.len() - i,
{
    if i < m1.entries.len() {
        lemma_counts_ignore_playlists(m1, m2, pid, i + 1);
    }
}

/// Model of the statistics refresh after an ownership change of `album_id`:
/// every playlist holding one of its tracks carries the live owned count,
/// every other row stays; nothing else in the catalog moves.
pub open spec fn spec_update_playlists_for_album(
    m: CatalogModel,
    album_id: u64,
    now: u64,
) -> CatalogModel {
    CatalogModel {
        playlists: Seq::new(
            m.playlists.len(),
            |p: int|
                if spec_playlist_affected(m, p as u64, album_id) {
                    Playlist {
                        owned_count: Some(spec_owned_count(m, p as u64) as i32),
                        updated_at: now,
                        ..m.playlists[p]
                    }
                } else {
                    m.playlists[p]
                },
        ),
        ..m
    }
}

/// Recalculate and store the denormalized owned count of every playlist that
/// contains any track of the given album — the synchronous reconciliation
/// step after an ownership change. Only the playlist rows move, and each
/// affected row afterwards carries exactly the live recompute.
pub fn update_playlists_for_album(cat: &mut Catalog, album_id: u64, now: u64)
    requires
        old(cat).wf(),
        old(cat)@.entries.len() <= i32::MAX,
    ensures
        final(cat).wf(),
        final(cat)@ == spec_update_playlists_for_album(old(cat)@, album_id, now),
        final(cat)@.artists == old(cat)@.artists,
        final(cat)@.albums == old(cat)@.albums,
        final(cat)@.tracks == old(cat)@.tracks,
        final(cat)@.entries == old(cat)@.entries,
        final(cat)@.downloads == old(cat)@.downloads,
        final(cat)@.next_entry_id == old(cat)@.next_entry_id,
        final(cat)@.next_download_id == old(cat)@.next_download_id,
        final(cat)@.playlists.len() == old(cat)@.playlists.len(),
        forall|p: int|
            0 <= p < old(cat)@.playlists.len() ==> #[trigger] final(cat)@.playlists[p] == (
            if spec_playlist_affected(old(cat)@, p as u64, album_id) {
                Playlist {
                    owned_count: Some(spec_owned_count(old(cat)@, p as u64) as i32),
                    updated_at: now,
                    ..old(cat)@.playlists[p]
                }
            } else {
                old(cat)@.playlists[p]
            }),
{
    let ghost m0 = cat@;
    let n = cat.playlists.len();
    for p in 0..n
        invariant
            cat.wf(),
            n == cat@.playlists.len(),
            cat@.playlists.len() == m0.playlists.len(),
            cat@.artists == m0.artists,
            cat@.albums == m0.albums,
            cat@.tracks == m0.tracks,
            cat@.entries == m0.entries,
            cat@.downloads == m0.downloads,
            cat@.next_entry_id == m0.next_entry_id,
            cat@.next_download_id == m0.next_download_id,
            m0.entries.len() <= i32::MAX,
            forall|q: int|
                0 <= q < p ==> #[trigger] cat@.playlists[q] == (if spec_playlist_affected(
                    m0,
                    q as u64,
                    album_id,
                ) {
                    Playlist {
                        owned_count: Some(spec_owned_count(m0, q as u64) as i32),
                        updated_at: now,
                        ..m0.playlists[q]
                    }
                } else {
                    m0.playlists[q]
                }),
            forall|q: int| p <= q < n ==> #[trigger] cat@.playlists[q] == m0.playlists[q],
        decreases n - p,
    {
        let pid = p as u64;
        if playlist_affected(cat, pid, album_id) {
            proof {
                lemma_counts_ignore_playlists(cat@, m0, pid, 0);
            }
            let owned = recalculate_playlist_owned_count(cat, pid);
            proof {
                lemma_counts_bounded(cat@, pid, 0);
            }
            let ghost pre = cat@;
            let row = &mut cat.playlists[p];
            row.owned_count = Some(owned as i32);
            row.updated_at = now;
            proof {
                assert(cat@.playlists =~= pre.playlists.update(
                    p as int,
                    Playlist {
                        owned_count: Some(spec_owned_count(m0, pid) as i32),
                        updated_at: now,
                        ..pre.playlists[p as int]
                    },
                ));
                assert forall|a: int, b: int| 0 <= a < b < cat@.playlists.len() implies (
                #[trigger] cat@.playlists[a]).spotify_id@ != (
                #[trigger] cat@.playlists[b]).spotify_id@ by {
                    assert(pre.wf());
                    assert(cat@.playlists[a].spotify_id@ == pre.playlists[a].spotify_id@);
                    assert(cat@.playlists[b].spotify_id@ == pre.playlists[b].spotify_id@);
                }
            }
        }
    }
    proof {
        assert(cat@.playlists =~= spec_update_playlists_for_album(m0, album_id, now).playlists);
        assert(cat@ =~= spec_update_playlists_for_album(m0, album_id, now));
    }
}

/// Recalculate the denormalized owned count of every playlist (the initial
/// backfill). Returns how many playlists were recomputed.
pub fn recalculate_all_playlist_stats(cat: &mut Catalog, now: u64) -> (r: u64)
    requires
        old(cat).wf(),
        old(cat)@.entries.len() <= i32::MAX,
    ensures
        final(cat).wf(),
        r == old(cat)@.playlists.len(),
        final(cat)@.artists == old(cat)@.artists,
        final(cat)@.albums == old(cat)@.albums,
        final(cat)@.tracks == old(cat)@.tracks,
        final(cat)@.entries == old(cat)@.entries,
        final(cat)@.downloads == old(cat)@.downloads,
        final(cat)@.playlists.len() == old(cat)@.playlists.len(),
        forall|p: int|
            0 <= p < old(cat)@.playlists.len() ==> #[trigger] final(cat)@.playlists[p] == (Playlist {
                owned_count: Some(spec_owned_count(old(cat)@, p as u64) as i32),
                updated_at: now,
                ..old(cat)@.playlists[p]
            }),
{
    let ghost m0 = cat@;
    let n = cat.playlists.len();
    for p in 0..n
        invariant
            cat.wf(),
            n == cat@.playlists.len(),
            cat@.playlists.len() == m0.playlists.len(),
            cat@.artists == m0.artists,
            cat@.albums == m0.albums,
            cat@.tracks == m0.tracks,
            cat@.entries == m0.entries,
            cat@.downloads == m0.downloads,
            cat@.next_entry_id == m0.next_entry_id,
            cat@.next_download_id == m0.next_download_id,
            m0.entries.len() <= i32::MAX,
            forall|q: int|
                0 <= q < p ==> #[trigger] cat@.playlists[q] == (Playlist {
                    owned_count: Some(spec_owned_count(m0, q as u64) as i32),
                    updated_at: now,
                    ..m0.playlists[q]
                }),
            forall|q: int| p <= q < n ==> #[trigger] cat@.playlists[q] == m0.playlists[q],
        decreases n - p,
    {
        let pid = p as u64;
        proof {
            lemma_counts_ignore_playlists(cat@, m0, pid, 0);
        }
        let owned = recalculate_playlist_owned_count(cat, pid);
        proof {
            lemma_counts_bounded(cat@, pid, 0);
        }
        let ghost pre = cat@;
        let row = &mut cat.playlists[p];
        row.owned_count = Some(owned as i32);
        row.updated_at = now;
        proof {
            assert forall|a: int, b: int| 0 <= a < b < cat@.playlists.len() implies (
            #[trigger] cat@.playlists[a]).spotify_id@ != (
            #[trigger] cat@.playlists[b]).spotify_id@ by {
                assert(pre.wf());
                assert(cat@.playlists[a].spotify_id@ == pre.playlists[a].spotify_id@);
                assert(cat@.playlists[b].spotify_id@ == pre.playlists[b].spotify_id@);
            }
        }
    }
    let r = cat.playlists.len() as u64;
    r
}

/// Ownership-to-statistics law: flipping one album to `Owned` raises every
/// playlist's live owned count by exactly the number of that album's tracks
/// present in the playlist; flipping it away from `Owned` lowers it by the
/// same amount. Nothing else about the counts moves.
pub proof fn lemma_flip_ownership_counts(m: CatalogModel, album_id: u64, a2: Album, pid: u64)
    requires
        album_id < m.albums.len(),
        m.albums[album_id as int].ownership_status != OwnershipStatus::Owned,
        a2.ownership_status == OwnershipStatus::Owned,
    ensures
        ({
            let m2 = CatalogModel { albums: m.albums.update(album_id as int, a2), ..m };
            spec_owned_count(m2, pid) == spec_owned_count(m, pid) + spec_album_members(
                m,
                pid,
                album_id,
            )
        }),
{
    let m2 = CatalogModel { albums: m.albums.update(album_id as int, a2), ..m };
    lemma_flip_counts_from(m, m2, album_id, pid, 0);
}

/// Row-by-row version of the flip law.
proof fn lemma_flip_counts_from(m: CatalogModel, m2: CatalogModel, album_id: u64, pid: u64, i: int)
    requires
        album_id < m.albums.len(),
        m.albums[album_id as int].ownership_status != OwnershipStatus::Owned,
        m2.entries == m.entries,
        m2.tracks == m.tracks,
        m2.albums.len() == m.albums.len(),
        m2.albums[album_id as int].ownership_status == OwnershipStatus::Owned,
        forall|j: int|
            0 <= j < m.albums.len() && j != album_id ==> m2.albums[j] == #[trigger] m.albums[j],
        0 <= i,
    ensures
        owned_count_from(m2, pid, i) == owned_count_from(m, pid, i) + album_members_from(
            m,
            pid,
            album_id,
            i,
        ),
    decreases m.entries.len() - i,
{
    if i < m.entries.len() {
        lemma_flip_counts_from(m, m2, album_id, pid, i + 1);
        let e = m.entries[i];
        if e.playlist_id == pid && e.track_id < m.tracks.len() {
            let aid = m.tracks[e.track_id as int].album_id;
            if aid == album_id {
                assert(!entry_owned(m, e));
                assert(entry_owned(m2, e));
            } else {
                if aid < m.albums.len() {
                    assert(m2.albums[aid as int] == m.albums[aid as int]);
                }
            }
        }
    }
}


/// Batch ownership statistics for list views: for every requested playlist,
/// the live owned and total member counts in one pass — the fallback when a
/// denormalized count is absent.
pub fn get_batch_playlist_ownership_stats(cat: &Catalog, playlist_ids: &Vec<u64>) -> (r: HashMap<
    u64,
    (u64, u64),
>)
    ensures
        forall|k: u64| r@.contains_key(k) <==> playlist_ids@.contains(k),
        forall|k: u64|
            r@.contains_key(k) ==> #[trigger] r@[k] == (
                spec_owned_count(cat@, k) as u64,
                spec_total_count(cat@, k) as u64,
            ),
{
    broadcast use vstd::std_specs::hash::group_hash_axioms;

    let mut r: HashMap<u64, (u64, u64)> = HashMap::new();
    let n = playlist_ids.len();
    for i in 0..n
        invariant
            n == playlist_ids@.len(),
            forall|k: u64|
                r@.contains_key(k) <==> playlist_ids@.take(i as int).contains(k),
            forall|k: u64|
                r@.contains_key(k) ==> #[trigger] r@[k] == (
                    spec_owned_count(cat@, k) as u64,
                    spec_total_count(cat@, k) as u64,
                ),
    {
        let pid = playlist_ids[i];
        let owned = recalculate_playlist_owned_count(cat, pid);
        let total = recalculate_playlist_total_count(cat, pid);
        r.insert(pid, (owned, total));
        proof {
            assert(playlist_ids@.take(i + 1)[i as int] == pid);
            assert forall|k: u64| r@.contains_key(k) implies playlist_ids@.take(i + 1).contains(
                k,
            ) by {
                if k == pid {
                    assert(playlist_ids@.take(i + 1)[i as int] == k);
                } else {
                    let w = choose|w: int|
                        0 <= w < i && #[trigger] playlist_ids@.take(i as int)[w] == k;
                    assert(playlist_ids@.take(i + 1)[w] == k);
                }
            }
            assert forall|k: u64| playlist_ids@.take(i + 1).contains(k) implies r@.contains_key(
                k,
            ) by {
                if k != pid {
                    let w = choose|w: int|
                        0 <= w < i + 1 && #[trigger] playlist_ids@.take(i + 1)[w] == k;
                    assert(playlist_ids@.take(i as int)[w] == k);
                }
            }
        }
    }
    proof {
        assert(playlist_ids@.take(n as int) =~= playlist_ids@);
    }
    r
}


/// One joined row of the playlist detail view: the membership's position with
/// its track, album and artist fields.
#[derive(Debug, Clone)]
pub struct PlaylistTrackDetails {
    pub id: u64,
    pub position: u32,
    pub track_name: String,
    pub duration_ms: Option<i32>,
    pub album_id: u64,
    pub album_name: String,
    pub ownership_status: OwnershipStatus,
    pub artist_name: String,
}

/// A membership row joins: its track, that track's album and that album's
/// artist all exist.
pub open spec fn entry_joins(m: CatalogModel, e: PlaylistEntry) -> bool {
    &&& e.track_id < m.tracks.len()
    &&& m.tracks[e.track_id as int].album_id < m.albums.len()
    &&& m.albums[m.tracks[e.track_id as int].album_id as int].artist_id < m.artists.len()
}

/// The joined detail row of one membership row.
pub open spec fn detail_of(m: CatalogModel, e: PlaylistEntry) -> PlaylistTrackDetails {
    let track = m.tracks[e.track_id as int];
    let album = m.albums[track.album_id as int];
    PlaylistTrackDetails {
        id: e.id,
        position: e.position,
        track_name: track.title,
        duration_ms: track.duration_ms,
        album_id: track.album_id,
        album_name: album.title,
        ownership_status: album.ownership_status,
        artist_name: m.artists[album.artist_id as int].name,
    }
}

/// The joined rows of playlist `pid` from membership row `i` on, in row
/// order; rows that do not join are dropped, as an inner join drops them.
pub open spec fn playlist_details_from(m: CatalogModel, pid: u64, i: int) -> Seq<
    PlaylistTrackDetails,
>
    decreases m.entries.len() - i,
{
    if i < 0 || i >= m.entries.len() {
        Seq::empty()
    } else {
        let rest = playlist_details_from(m, pid, i + 1);
        if m.entries[i].playlist_id == pid && entry_joins(m, m.entries[i]) {
            seq![detail_of(m, m.entries[i])] + rest
        } else {
            rest
        }
    }
}

/// Insert a detail row into a position-sorted sequence, after any rows with
/// the same position (a stable order).
pub open spec fn insert_by_position(
    s: Seq<PlaylistTrackDetails>,
    x: PlaylistTrackDetails,
) -> Seq<PlaylistTrackDetails>
    decreases s.len(),
{
    if s.len() == 0 {
        seq![x]
    } else if x.position < s[0].position {
        seq![x] + s
    } else {
        seq![s[0]] + insert_by_position(s.drop_first(), x)
    }
}

/// Sort detail rows by position: the rows folded front to back into an
/// insertion sort, starting from `acc`.
pub open spec fn sort_by_position_from(
    acc: Seq<PlaylistTrackDetails>,
    s: Seq<PlaylistTrackDetails>,
) -> Seq<PlaylistTrackDetails>
    decreases s.len(),
{
    if s.len() == 0 {
        acc
    } else {
        sort_by_position_from(insert_by_position(acc, s[0]), s.drop_first())
    }
}

/// The playlist's joined rows, ordered by position.
pub open spec fn spec_playlist_order(m: CatalogModel, pid: u64) -> Seq<PlaylistTrackDetails> {
    sort_by_position_from(Seq::empty(), playlist_details_from(m, pid, 0))
}

/// One page of the position-ordered playlist detail view.
pub open spec fn spec_playlist_page(m: CatalogModel, pid: u64, offset: int, limit: int) -> Seq<
    PlaylistTrackDetails,
> {
    let ordered = spec_playlist_order(m, pid);
    let lo = if offset <= ordered.len() {
        offset
    } else {
        ordered.len() as int
    };
    let hi = if offset + limit <= ordered.len() {
        offset + limit
    } else {
        ordered.len() as int
    };
    ordered.subrange(lo, hi)
}

/// Copy a detail row.
fn clone_detail(d: &PlaylistTrackDetails) -> (r: PlaylistTrackDetails)
    ensures
        r == *d,
{
    PlaylistTrackDetails {
        id: d.id,
        position: d.position,
        track_name: d.track_name.clone(),
        duration_ms: d.duration_ms,
        album_id: d.album_id,
        album_name: d.album_name.clone(),
        ownership_status: d.ownership_status,
        artist_name: d.artist_name.clone(),
    }
}

/// Inserting at the first index whose row's position is strictly greater is
/// what [`insert_by_position`] does.
proof fn lemma_insert_by_position_at(s: Seq<PlaylistTrackDetails>, x: PlaylistTrackDetails, i: int)
    requires
        0 <= i <= s.len(),
        forall|j: int| 0 <= j < i ==> !(x.position < (#[trigger] s[j]).position),
        i < s.len() ==> x.position < s[i].position,
    ensures
        insert_by_position(s, x) == s.insert(i, x),
    decreases s.len(),
{
    if s.len() == 0 {
        assert(insert_by_position(s, x) =~= s.insert(0, x));
    } else if i == 0 {
        assert(insert_by_position(s, x) =~= s.insert(0, x));
    } else {
        let d = s.drop_first();
        assert forall|j: int| 0 <= j < i - 1 implies !(x.position < (#[trigger] d[j]).position) by {
            assert(d[j] == s[j + 1]);
        }
        assert(i - 1 < d.len() ==> x.position < d[i - 1].position);
        lemma_insert_by_position_at(d, x, i - 1);
        assert(insert_by_position(s, x) =~= seq![s[0]] + d.insert(i - 1, x));
        assert(seq![s[0]] + d.insert(i - 1, x) =~= s.insert(i, x));
    }
}

/// Insert a detail row into a position-sorted vector, after equals.
fn insert_row_by_position(v: &mut Vec<PlaylistTrackDetails>, x: PlaylistTrackDetails)
    ensures
        final(v)@ == insert_by_position(old(v)@, x),
{
    let ghost orig = v@;
    let n = v.len();
    let mut i: usize = 0;
    while i < n
        invariant
            i <= n,
            n == v@.len(),
            v@ == orig,
            orig == old(v)@,
            forall|j: int| 0 <= j < i ==> !(x.position < (#[trigger] orig[j]).position),
        decreases n - i,
    {
        if x.position < v[i].position {
            proof {
                lemma_insert_by_position_at(orig, x, i as int);
            }
            v.insert(i, x);
            proof {
                assert(v@ =~= orig.insert(i as int, x));
            }
            return ;
        }
        i = i + 1;
    }
    proof {
        lemma_insert_by_position_at(orig, x, n as int);
    }
    v.insert(n, x);
    proof {
        assert(v@ =~= orig.insert(n as int, x));
    }
}

/// One page of a playlist's tracks with all display fields, ordered by
/// position (the optimized single-pass view of the detail page), together
/// with the playlist's total member count.
pub fn get_playlist_tracks_paginated(
    cat: &Catalog,
    playlist_id: u64,
    offset: usize,
    limit: usize,
) -> (r: (Vec<PlaylistTrackDetails>, u64))
    requires
        offset + limit <= usize::MAX,
    ensures
        r.0@ == spec_playlist_page(cat@, playlist_id, offset as int, limit as int),
        r.1 == spec_total_count(cat@, playlist_id),
{
    let total = recalculate_playlist_total_count(cat, playlist_id);
    // join pass: the playlist's rows that resolve to a track, album and artist
    let n = cat.entries.len();
    let tracks_len = cat.tracks.len();
    let albums_len = cat.albums.len();
    let artists_len = cat.artists.len();
    let mut joined: Vec<PlaylistTrackDetails> = Vec::new();
    proof {
        assert(joined@ + playlist_details_from(cat@, playlist_id, 0) =~= playlist_details_from(
            cat@,
            playlist_id,
            0,
        ));
    }
    for i in 0..n
        invariant
            n == cat@.entries.len(),
            tracks_len == cat@.tracks.len(),
            albums_len == cat@.albums.len(),
            artists_len == cat@.artists.len(),
            joined@ + playlist_details_from(cat@, playlist_id, i as int) =~= playlist_details_from(
                cat@,
                playlist_id,
                0,
            ),
    {
        let e = &cat.entries[i];
        if e.playlist_id == playlist_id && e.track_id < tracks_len as u64 {
            let track = &cat.tracks[e.track_id as usize];
            if track.album_id < albums_len as u64 {
                let album = &cat.albums[track.album_id as usize];
                if album.artist_id < artists_len as u64 {
                    let artist = &cat.artists[album.artist_id as usize];
                    let row = PlaylistTrackDetails {
                        id: e.id,
                        position: e.position,
                        track_name: track.title.clone(),
                        duration_ms: track.duration_ms,
                        album_id: track.album_id,
                        album_name: album.title.clone(),
                        ownership_status: album.ownership_status,
                        artist_name: artist.name.clone(),
                    };
                    proof {
                        assert(entry_joins(cat@, cat@.entries[i as int]));
                        assert(row == detail_of(cat@, cat@.entries[i as int]));
                    }
                    joined.push(row);
                }
            }
        }
        proof {
            assert(joined@ + playlist_details_from(cat@, playlist_id, i + 1)
                =~= playlist_details_from(cat@, playlist_id, 0));
        }
    }
    proof {
        assert(joined@ =~= playlist_details_from(cat@, playlist_id, 0));
    }
    // order pass: insertion sort by position, stable for equal positions
    let ghost rows0 = joined@;
    let mut joined = joined;
    let mut ordered: Vec<PlaylistTrackDetails> = Vec::new();
    while joined.len() > 0
        invariant
            sort_by_position_from(ordered@, joined@) == sort_by_position_from(
                Seq::empty(),
                rows0,
            ),
        decreases joined@.len(),
    {
        let ghost rem = joined@;
        let x = joined.remove(0);
        proof {
            assert(x == rem[0]);
            assert(joined@ =~= rem.drop_first());
        }
        insert_row_by_position(&mut ordered, x);
    }
    proof {
        assert(sort_by_position_from(ordered@, joined@) == ordered@);
        assert(ordered@ == spec_playlist_order(cat@, playlist_id));
    }
    // window pass
    let count = ordered.len();
    let lo = if offset <= count {
        offset
    } else {
        count
    };
    let hi = if offset + limit <= count {
        offset + limit
    } else {
        count
    };
    let mut page: Vec<PlaylistTrackDetails> = Vec::new();
    let mut k = lo;
    while k < hi
        invariant
            lo <= k <= hi <= count,
            count == ordered@.len(),
            page@ =~= ordered@.subrange(lo as int, k as int),
        decreases hi - k,
    {
        let row = clone_detail(&ordered[k]);
        page.push(row);
        proof {
            assert(page@ =~= ordered@.subrange(lo as int, k + 1));
        }
        k = k + 1;
    }
    proof {
        assert(page@ =~= spec_playlist_page(cat@, playlist_id, offset as int, limit as int));
    }
    (page, total)
}

} // verus!
