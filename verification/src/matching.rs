//! The Metadata Match task: resolve each pending album to a canonical
//! release-group id with a confidence score, classify the score, and pick the
//! winning candidate among those the metadata-search service returned.

use vstd::prelude::*;

use crate::catalog::{opt_sv, Catalog, CatalogModel};
use crate::enums::MatchStatus;
use crate::model::Album;

verus! {

/// An artist inside a release-group candidate.
#[derive(Debug, Clone)]
pub struct MusicBrainzArtist {
    pub id: String,
    pub name: String,
}

/// One artist-credit line of a candidate.
#[derive(Debug, Clone)]
pub struct ArtistCredit {
    pub name: String,
    pub artist: MusicBrainzArtist,
}

/// A scored release-group candidate from the metadata-search service.
#[derive(Debug)]
pub struct MusicBrainzMatch {
    pub id: String,
    pub title: String,
    pub artist_credit: Vec<ArtistCredit>,
    pub score: i32,
    pub first_release_date: Option<String>,
}

/// Classification of a match-confidence score: 90 and above is a match,
/// 80 to 89 needs manual review, anything lower is no match.
pub fn classify_match_score(score: i32) -> (r: MatchStatus)
    ensures
        r == MatchStatus::Matched <==> score >= 90,
        r == MatchStatus::ManualReview <==> (80 <= score < 90),
        r == MatchStatus::NoMatch <==> score < 80,
        r != MatchStatus::Pending,
{
    if score >= 90 {
        MatchStatus::Matched
    } else if score >= 80 {
        MatchStatus::ManualReview
    } else {
        MatchStatus::NoMatch
    }
}

/// No candidate reached the acceptance floor, so the fuzzy query variant is
/// worth a second request.
pub fn needs_fuzzy_retry(matches: &Vec<MusicBrainzMatch>) -> (r: bool)
    ensures
        r == (matches@.len() == 0 || forall|i: int|
            0 <= i < matches@.len() ==> (#[trigger] matches@[i]).score < 80),
{
    let n = matches.len();
    for i in 0..n
        invariant
            n == matches@.len(),
            forall|j: int| 0 <= j < i ==> (#[trigger] matches@[j]).score < 80,
    {
        if matches[i].score >= 80 {
            return false;
        }
    }
    true
}

/// The winner's index after scanning the first `i` candidates, carrying the
/// best so far.
pub open spec fn pick_from(matches: Seq<MusicBrainzMatch>, i: int, best: Option<int>) -> Option<
    int,
>
    decreases matches.len() - i,
{
    if i < 0 || i >= matches.len() {
        best
    } else {
        let better = match best {
            Some(b) => matches[i].score > matches[b].score,
            None => matches[i].score >= 80,
        };
        pick_from(matches, i + 1, if better {
            Some(i)
        } else {
            best
        })
    }
}

/// The winning candidate: the highest score at or above the acceptance floor
/// of 80, ties broken by fetch order; `None` when no candidate reaches 80.
pub open spec fn spec_pick_release_match(matches: Seq<MusicBrainzMatch>) -> Option<int> {
    pick_from(matches, 0, None)
}

/// View of an optional index as a specification-level optional integer.
pub open spec fn opt_idx(o: Option<usize>) -> Option<int> {
    match o {
        Some(i) => Some(i as int),
        None => None,
    }
}

/// Pick the winning candidate: the highest score at or above the acceptance
/// floor of 80, ties broken by fetch order (first found). `None` exactly when
/// no candidate reaches the floor.
pub fn pick_release_match(matches: &Vec<MusicBrainzMatch>) -> (r: Option<usize>)
    ensures
        opt_idx(r) == spec_pick_release_match(matches@),
        match r {
            Some(i) => {
                &&& i < matches@.len()
                &&& matches@[i as int].score >= 80
                &&& forall|j: int|
                    0 <= j < matches@.len() ==> (#[trigger] matches@[j]).score
                        <= matches@[i as int].score
                &&& forall|j: int|
                    0 <= j < i ==> (#[trigger] matches@[j]).score < matches@[i as int].score
            },
            None => forall|j: int| 0 <= j < matches@.len() ==> (#[trigger] matches@[j]).score < 80,
        },
{
    let n = matches.len();
    let mut best: Option<usize> = None;
    for i in 0..n
        invariant
            n == matches@.len(),
            spec_pick_release_match(matches@) == pick_from(matches@, i as int, opt_idx(best)),
            match best {
                Some(b) => {
                    &&& b < i <= matches@.len()
                    &&& matches@[b as int].score >= 80
                    &&& forall|j: int|
                        0 <= j < i ==> (#[trigger] matches@[j]).score <= matches@[b as int].score
                    &&& forall|j: int|
                        0 <= j < b ==> (#[trigger] matches@[j]).score < matches@[b as int].score
                },
                None => forall|j: int| 0 <= j < i ==> (#[trigger] matches@[j]).score < 80,
            },
    {
        let better = match best {
            Some(b) => matches[i].score > matches[b].score,
            None => matches[i].score >= 80,
        };
        if better {
            best = Some(i);
        }
    }
    best
}

/// Resolve one pending album from the candidates the metadata service
/// returned: persist the canonical id and score of the winning candidate and
/// classify it, or mark the album `NoMatch` when nothing reached the floor.
/// A successfully fetched cover image location is stored alongside; a failed
/// cover fetch (`None`) changes nothing else — the match itself stands.
/// A sampled album never returns to `Pending`.
pub fn resolve_pending_album(
    cat: &mut Catalog,
    album_id: u64,
    matches: &Vec<MusicBrainzMatch>,
    cover_url: Option<String>,
    now: u64,
) -> (r: MatchStatus)
    requires
        old(cat).wf(),
        album_id < old(cat)@.albums.len(),
        old(cat)@.albums[album_id as int].match_status == MatchStatus::Pending,
    ensures
        final(cat).wf(),
        r != MatchStatus::Pending,
        r == final(cat)@.albums[album_id as int].match_status,
        final(cat)@ == (CatalogModel {
            albums: old(cat)@.albums.update(album_id as int, final(cat)@.albums[album_id as int]),
            ..old(cat)@
        }),
        match spec_pick_release_match(matches@) {
            Some(i) => final(cat)@.albums[album_id as int] == (Album {
                musicbrainz_release_group_id: Some(matches@[i].id),
                match_score: Some(matches@[i].score),
                match_status: if matches@[i].score >= 90 {
                    MatchStatus::Matched
                } else {
                    MatchStatus::ManualReview
                },
                cover_art_url: match cover_url {
                    Some(u) => Some(u),
                    None => old(cat)@.albums[album_id as int].cover_art_url,
                },
                updated_at: now,
                ..old(cat)@.albums[album_id as int]
            }),
            None => final(cat)@.albums[album_id as int] == (Album {
                match_status: MatchStatus::NoMatch,
                updated_at: now,
                ..old(cat)@.albums[album_id as int]
            }),
        },
{
    let picked = pick_release_match(matches);
    let n = cat.albums.len();
    let i = album_id as usize;
    proof {
        assert(album_id < n as u64);
        assert(i as int == album_id as int);
    }
    let ghost m0 = cat@;
    let r;
    match picked {
        Some(k) => {
            let mid = matches[k].id.clone();
            let score = matches[k].score;
            let status = classify_match_score(score);
            let row = &mut cat.albums[i];
            row.musicbrainz_release_group_id = Some(mid);
            row.match_score = Some(score);
            row.match_status = status;
            match cover_url {
                Some(u) => {
                    row.cover_art_url = Some(u);
                },
                None => {},
            }
            row.updated_at = now;
            r = status;
        },
        None => {
            let row = &mut cat.albums[i];
            row.match_status = MatchStatus::NoMatch;
            row.updated_at = now;
            r = MatchStatus::NoMatch;
        },
    }
    proof {
        assert(cat@ =~= (CatalogModel {
            albums: m0.albums.update(album_id as int, cat@.albums[album_id as int]),
            ..m0
        }));
        assert forall|a: int, b: int|
            0 <= a < b < cat@.albums.len() && cat@.albums[a].spotify_id is Some implies opt_sv(
            #[trigger] cat@.albums[a].spotify_id,
        ) != opt_sv(#[trigger] cat@.albums[b].spotify_id) by {
            assert(m0.wf());
            assert(opt_sv(cat@.albums[a].spotify_id) == opt_sv(m0.albums[a].spotify_id));
            assert(opt_sv(cat@.albums[b].spotify_id) == opt_sv(m0.albums[b].spotify_id));
        }
    }
    r
}

/// The row keys of every album still awaiting a metadata match, in key order.
pub fn pending_album_ids(cat: &Catalog) -> (r: Vec<u64>)
    requires
        cat.wf(),
    ensures
        forall|k: int|
            0 <= k < r@.len() ==> (#[trigger] r@[k]) < cat@.albums.len()
                && cat@.albums[r@[k] as int].match_status == MatchStatus::Pending,
        forall|j: int|
            0 <= j < cat@.albums.len() && (#[trigger] cat@.albums[j]).match_status
                == MatchStatus::Pending ==> r@.contains(j as u64),
{
    let n = cat.albums.len();
    let mut r: Vec<u64> = Vec::new();
    for i in 0..n
        invariant
            n == cat@.albums.len(),
            forall|k: int|
                0 <= k < r@.len() ==> (#[trigger] r@[k]) < cat@.albums.len()
                    && cat@.albums[r@[k] as int].match_status == MatchStatus::Pending,
            forall|j: int|
                0 <= j < i && (#[trigger] cat@.albums[j]).match_status == MatchStatus::Pending
                    ==> r@.contains(j as u64),
    {
        let is_pending = match cat.albums[i].match_status {
            MatchStatus::Pending => true,
            _ => false,
        };
        if is_pending {
            let ghost r0 = r@;
            r.push(i as u64);
            proof {
                assert(r@[r0.len() as int] == i as u64);
                assert forall|j: int|
                    0 <= j < i + 1 && (#[trigger] cat@.albums[j]).match_status
                        == MatchStatus::Pending implies r@.contains(j as u64) by {
                    if j < i {
                        assert(r0.contains(j as u64));
                        let w = choose|w: int| 0 <= w < r0.len() && r0[w] == j as u64;
                        assert(r@[w] == j as u64);
                    }
                }
            }
        }
    }
    r
}

} // verus!
