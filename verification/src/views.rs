//! Presentation-side computations the request handlers lean on: pagination
//! arithmetic, the page-number strip, duration formatting, collection-wide
//! statistics and the album update command.

use vstd::prelude::*;

use crate::catalog::{Catalog, CatalogModel};
use crate::enums::{AcquisitionSource, MatchStatus, OwnershipStatus};

verus! {

/// Pagination facts of one list response.
#[derive(Debug, Clone, Copy, PartialEq, Eq, Structural)]
pub struct PaginationInfo {
    pub page: u64,
    pub page_size: u64,
    pub total_items: u64,
    pub total_pages: u64,
}

/// The first page, where a request names none.
pub fn default_page() -> (r: u64)
    ensures
        r == 1,
{
    1
}

/// The page size, where a request names none.
pub fn default_page_size() -> (r: u64)
    ensures
        r == 50,
{
    50
}

/// The sort key of the artist list, where a request names none.
pub fn default_sort_by() -> (r: String)
    ensures
        r@ == "name"@,
{
    "name".to_owned()
}

/// The sort direction of the artist list, where a request names none.
pub fn default_sort_order() -> (r: String)
    ensures
        r@ == "asc"@,
{
    "asc".to_owned()
}

/// The track-page size of the playlist detail, where a request names none.
pub fn default_track_limit() -> (r: u64)
    ensures
        r == 50,
{
    50
}

/// Clamp requested paging values: the page is at least 1, the page size
/// between 1 and 200.
pub fn page_params(page: u64, page_size: u64) -> (r: (u64, u64))
    ensures
        r.0 == if page >= 1 {
            page as int
        } else {
            1int
        },
        r.1 == if page_size > 200 {
            200int
        } else if page_size < 1 {
            1int
        } else {
            page_size as int
        },
{
    let p = if page >= 1 {
        page
    } else {
        1
    };
    let s = if page_size > 200 {
        200
    } else if page_size < 1 {
        1
    } else {
        page_size
    };
    (p, s)
}

/// Number of pages needed for `total_items` at `page_size` per page.
pub fn total_pages(total_items: u64, page_size: u64) -> (r: u64)
    requires
        1 <= page_size,
        total_items <= u64::MAX - page_size,
    ensures
        r == (total_items + page_size - 1) as u64 / page_size,
{
    (total_items + page_size - 1) / page_size
}

/// Assemble the pagination block of a list response from the raw request
/// values and the total.
pub fn make_pagination(page: u64, page_size: u64, total_items: u64) -> (r: PaginationInfo)
    requires
        total_items <= u64::MAX - 200,
    ensures
        r.page == if page >= 1 {
            page as int
        } else {
            1int
        },
        r.page_size == if page_size > 200 {
            200int
        } else if page_size < 1 {
            1int
        } else {
            page_size as int
        },
        r.total_items == total_items,
        r.total_pages == (total_items + r.page_size - 1) as u64 / r.page_size,
{
    let (p, s) = page_params(page, page_size);
    let tp = total_pages(total_items, s);
    PaginationInfo { page: p, page_size: s, total_items, total_pages: tp }
}

/// The page numbers shown around the current page: two on each side, clipped
/// to the existing pages.
pub fn page_range(current: u64, total: u64) -> (r: Vec<u64>)
    requires
        current <= u64::MAX - 3,
    ensures
        ({
            let start: int = if current >= 3 {
                current - 2
            } else {
                1
            };
            let end: int = if current + 2 <= total {
                current + 2
            } else {
                total as int
            };
            &&& r@.len() == (if end >= start {
                end - start + 1
            } else {
                0
            })
            &&& forall|k: int| 0 <= k < r@.len() ==> r@[k] == start + k
        }),
{
    let start = if current >= 3 {
        current - 2
    } else {
        1
    };
    let end = if current + 2 <= total {
        current + 2
    } else {
        total
    };
    let mut pages: Vec<u64> = Vec::new();
    let mut p = start;
    while p <= end
        invariant
            start <= p <= end + 1 || (end < start && p == start),
            end <= u64::MAX - 1,
            pages@.len() == p - start,
            forall|k: int| 0 <= k < pages@.len() ==> pages@[k] == start + k,
        decreases end + 1 - p,
    {
        pages.push(p);
        p = p + 1;
    }
    pages
}

/// A decimal digit character.
pub open spec fn dec_digit(n: int) -> char {
    if n == 0 {
        '0'
    } else if n == 1 {
        '1'
    } else if n == 2 {
        '2'
    } else if n == 3 {
        '3'
    } else if n == 4 {
        '4'
    } else if n == 5 {
        '5'
    } else if n == 6 {
        '6'
    } else if n == 7 {
        '7'
    } else if n == 8 {
        '8'
    } else {
        '9'
    }
}

/// The decimal digits of a nonnegative number, most significant first.
pub open spec fn spec_dec_digits(n: int) -> Seq<char>
    decreases n,
{
    if n < 10 {
        seq![dec_digit(n)]
    } else {
        spec_dec_digits(n / 10) + seq![dec_digit(n % 10)]
    }
}

/// The one-character string of a decimal digit.
fn dec_str(n: u64) -> (r: &'static str)
    requires
        n < 10,
    ensures
        r@ =~= seq![dec_digit(n as int)],
{
    proof {
        reveal_strlit("0");
        reveal_strlit("1");
        reveal_strlit("2");
        reveal_strlit("3");
        reveal_strlit("4");
        reveal_strlit("5");
        reveal_strlit("6");
        reveal_strlit("7");
        reveal_strlit("8");
        reveal_strlit("9");
    }
    match n {
        0 => "0",
        1 => "1",
        2 => "2",
        3 => "3",
        4 => "4",
        5 => "5",
        6 => "6",
        7 => "7",
        8 => "8",
        _ => "9",
    }
}

/// A nonnegative number in decimal.
pub fn u64_to_string(n: u64) -> (r: String)
    ensures
        r@ == spec_dec_digits(n as int),
    decreases n,
{
    if n < 10 {
        dec_str(n).to_owned()
    } else {
        let mut r = u64_to_string(n / 10);
        r.append(dec_str(n % 10));
        proof {
            assert(r@ =~= spec_dec_digits(n as int));
        }
        r
    }
}

/// A track duration in minutes and zero-padded seconds, `m:ss`.
pub open spec fn spec_format_duration(ms: int) -> Seq<char> {
    let total_seconds = ms / 1000;
    let minutes = total_seconds / 60;
    let seconds = total_seconds % 60;
    if seconds < 10 {
        spec_dec_digits(minutes) + seq![':', '0', dec_digit(seconds)]
    } else {
        spec_dec_digits(minutes) + seq![':'] + spec_dec_digits(seconds)
    }
}

/// Format a track duration in milliseconds as `m:ss`.
pub fn format_duration(ms: i32) -> (r: String)
    requires
        ms >= 0,
    ensures
        r@ == spec_format_duration(ms as int),
{
    let total_seconds = (ms as u64) / 1000;
    let minutes = total_seconds / 60;
    let seconds = total_seconds % 60;
    let mut r = u64_to_string(minutes);
    if seconds < 10 {
        r.append(":0");
        r.append(dec_str(seconds));
        proof {
            reveal_strlit(":0");
            assert(r@ =~= spec_format_duration(ms as int));
        }
    } else {
        r.append(":");
        let s = u64_to_string(seconds);
        r.append(s.as_str());
        proof {
            reveal_strlit(":");
            assert(spec_dec_digits(seconds as int) == seq![
                dec_digit(seconds as int / 10),
                dec_digit(seconds as int % 10),
            ]) by {
                assert(seconds < 60);
                assert(spec_dec_digits(seconds as int) == spec_dec_digits(seconds as int / 10)
                    + seq![dec_digit(seconds as int % 10)]);
            }
            assert(r@ =~= spec_format_duration(ms as int));
        }
    }
    r
}

/// Collection-wide statistics for the dashboard.
#[derive(Debug, Clone, Copy, PartialEq, Eq, Structural)]
pub struct StatsResponse {
    pub total_albums: u64,
    pub owned_albums: u64,
    pub not_owned_albums: u64,
    pub downloading_albums: u64,
    pub matched_albums: u64,
    pub unmatched_albums: u64,
    pub total_artists: u64,
}

/// Albums among the rows from `i` on in the given ownership state.
pub open spec fn albums_with_ownership_from(
    m: CatalogModel,
    status: OwnershipStatus,
    i: int,
) -> int
    decreases m.albums.len() - i,
{
    if i < 0 || i >= m.albums.len() {
        0
    } else {
        (if m.albums[i].ownership_status == status {
            1int
        } else {
            0int
        }) + albums_with_ownership_from(m, status, i + 1)
    }
}

/// Albums among the rows from `i` on in the given match state.
pub open spec fn albums_with_match_from(m: CatalogModel, status: MatchStatus, i: int) -> int
    decreases m.albums.len() - i,
{
    if i < 0 || i >= m.albums.len() {
        0
    } else {
        (if m.albums[i].match_status == status {
            1int
        } else {
            0int
        }) + albums_with_match_from(m, status, i + 1)
    }
}

/// The per-state counts never exceed the album count.
proof fn lemma_stats_counts_bounded(m: CatalogModel, os: OwnershipStatus, ms: MatchStatus, i: int)
    requires
        0 <= i <= m.albums.len(),
    ensures
        0 <= albums_with_ownership_from(m, os, i) <= m.albums.len() - i,
        0 <= albums_with_match_from(m, ms, i) <= m.albums.len() - i,
    decreases m.albums.len() - i,
{
    if i < m.albums.len() {
        lemma_stats_counts_bounded(m, os, ms, i + 1);
    }
}

/// Collection statistics: album totals by ownership and match state, plus the
/// artist total.
pub fn get_stats(cat: &Catalog) -> (r: StatsResponse)
    ensures
        r.total_albums == cat@.albums.len(),
        r.owned_albums == albums_with_ownership_from(cat@, OwnershipStatus::Owned, 0),
        r.not_owned_albums == albums_with_ownership_from(cat@, OwnershipStatus::NotOwned, 0),
        r.downloading_albums == albums_with_ownership_from(cat@, OwnershipStatus::Downloading, 0),
        r.matched_albums == albums_with_match_from(cat@, MatchStatus::Matched, 0),
        r.unmatched_albums == albums_with_match_from(cat@, MatchStatus::Pending, 0),
        r.total_artists == cat@.artists.len(),
{
    let n = cat.albums.len();
    let mut owned: u64 = 0;
    let mut not_owned: u64 = 0;
    let mut downloading: u64 = 0;
    let mut matched: u64 = 0;
    let mut unmatched: u64 = 0;
    proof {
        lemma_stats_counts_bounded(cat@, OwnershipStatus::Owned, MatchStatus::Matched, 0);
        lemma_stats_counts_bounded(cat@, OwnershipStatus::NotOwned, MatchStatus::Pending, 0);
        lemma_stats_counts_bounded(cat@, OwnershipStatus::Downloading, MatchStatus::Pending, 0);
    }
    for i in 0..n
        invariant
            n == cat@.albums.len(),
            owned + albums_with_ownership_from(cat@, OwnershipStatus::Owned, i as int)
                == albums_with_ownership_from(cat@, OwnershipStatus::Owned, 0),
            not_owned + albums_with_ownership_from(cat@, OwnershipStatus::NotOwned, i as int)
                == albums_with_ownership_from(cat@, OwnershipStatus::NotOwned, 0),
            downloading + albums_with_ownership_from(cat@, OwnershipStatus::Downloading, i as int)
                == albums_with_ownership_from(cat@, OwnershipStatus::Downloading, 0),
            matched + albums_with_match_from(cat@, MatchStatus::Matched, i as int)
                == albums_with_match_from(cat@, MatchStatus::Matched, 0),
            unmatched + albums_with_match_from(cat@, MatchStatus::Pending, i as int)
                == albums_with_match_from(cat@, MatchStatus::Pending, 0),
            owned <= i,
            not_owned <= i,
            downloading <= i,
            matched <= i,
            unmatched <= i,
    {
        proof {
            lemma_stats_counts_bounded(cat@, OwnershipStatus::Owned, MatchStatus::Matched, i + 1);
            lemma_stats_counts_bounded(cat@, OwnershipStatus::NotOwned, MatchStatus::Pending, i + 1);
            lemma_stats_counts_bounded(
                cat@,
                OwnershipStatus::Downloading,
                MatchStatus::Pending,
                i + 1,
            );
        }
        match cat.albums[i].ownership_status {
            OwnershipStatus::Owned => {
                owned = owned + 1;
            },
            OwnershipStatus::NotOwned => {
                not_owned = not_owned + 1;
            },
            OwnershipStatus::Downloading => {
                downloading = downloading + 1;
            },
        }
        match cat.albums[i].match_status {
            MatchStatus::Matched => {
                matched = matched + 1;
            },
            MatchStatus::Pending => {
                unmatched = unmatched + 1;
            },
            _ => {},
        }
    }
    StatsResponse {
        total_albums: cat.albums.len() as u64,
        owned_albums: owned,
        not_owned_albums: not_owned,
        downloading_albums: downloading,
        matched_albums: matched,
        unmatched_albums: unmatched,
        total_artists: cat.artists.len() as u64,
    }
}

/// A manual album update request: any subset of ownership, acquisition source
/// and local path.
#[derive(Debug, Clone)]
pub struct UpdateAlbumRequest {
    pub ownership_status: Option<String>,
    pub acquisition_source: Option<String>,
    pub local_path: Option<String>,
}

/// Why a manual album update was refused.
#[derive(Debug, Clone, Copy, PartialEq, Eq, Structural)]
pub enum UpdateAlbumError {
    NotFound,
    InvalidOwnershipStatus,
}

/// Apply a manual album update: a named ownership status must decode (an
/// unknown string is refused loudly), an unknown acquisition source falls
/// back to none, the local path is stored as given. Returns `NotFound` for a
/// key outside the catalog, `InvalidOwnershipStatus` exactly when the given
/// ownership text decodes to no status, and `Ok` otherwise.
pub fn update_album(
    cat: &mut Catalog,
    album_id: u64,
    req: &UpdateAlbumRequest,
    now: u64,
) -> (r: Result<(), UpdateAlbumError>)
    requires
        old(cat).wf(),
    ensures
        final(cat).wf(),
        r == Err::<(), UpdateAlbumError>(UpdateAlbumError::NotFound) <==> album_id >= old(
            cat,
        )@.albums.len(),
        r == Err::<(), UpdateAlbumError>(UpdateAlbumError::InvalidOwnershipStatus) <==> (album_id
            < old(cat)@.albums.len() && (req.ownership_status matches Some(s) && (forall|
            v: OwnershipStatus,
        | s@ != v.spec_str()))),
        r is Err ==> final(cat)@ == old(cat)@,
        r is Ok ==> final(cat)@ == (CatalogModel {
            albums: old(cat)@.albums.update(
                album_id as int,
                final(cat)@.albums[album_id as int],
            ),
            ..old(cat)@
        }) && ({
            let row = final(cat)@.albums[album_id as int];
            let before = old(cat)@.albums[album_id as int];
            &&& row.updated_at == now
            &&& (match req.ownership_status {
                Some(s) => s@ == row.ownership_status.spec_str(),
                None => row.ownership_status == before.ownership_status,
            })
            &&& (match req.local_path {
                Some(p) => row.local_path == Some(p),
                None => row.local_path == before.local_path,
            })
            &&& row.id == before.id
            &&& row.spotify_id == before.spotify_id
            &&& row.title == before.title
            &&& row.match_status == before.match_status
        }),
{
    let n = cat.albums.len();
    if album_id >= n as u64 {
        return Err(UpdateAlbumError::NotFound);
    }
    let i = album_id as usize;
    proof {
        assert(i as int == album_id as int);
    }
    let new_ownership = match &req.ownership_status {
        Some(s) => {
            match OwnershipStatus::from_str(s.as_str()) {
                Some(v) => Some(v),
                None => {
                    return Err(UpdateAlbumError::InvalidOwnershipStatus);
                },
            }
        },
        None => None,
    };
    let ghost m0 = cat@;
    let new_source = match &req.acquisition_source {
        Some(s) => AcquisitionSource::from_str(s.as_str()),
        None => None,
    };
    let new_path = crate::catalog::clone_opt_string(&req.local_path);
    let row = &mut cat.albums[i];
    match new_ownership {
        Some(v) => {
            row.ownership_status = v;
        },
        None => {},
    }
    match &req.acquisition_source {
        Some(_) => {
            row.acquisition_source = new_source;
        },
        None => {},
    }
    match new_path {
        Some(p) => {
            row.local_path = Some(p);
        },
        None => {},
    }
    row.updated_at = now;
    proof {
        assert(cat@ =~= (CatalogModel {
            albums: m0.albums.update(album_id as int, cat@.albums[album_id as int]),
            ..m0
        }));
        crate::lidarr::lemma_album_field_update_wf(m0, cat@, album_id as int);
    }
    Ok(())
}

} // verus!
