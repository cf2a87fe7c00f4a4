//! Search-query construction for the metadata-search service: artist-name
//! normalization (featuring credits stripped), the exact and fuzzy query
//! variants, and the request path with the query percent-encoded.

use vstd::prelude::*;

use crate::fuzzy::chars_of;

verus! {

/// First index at or after `i` where `pat` occurs in `s`.
pub open spec fn find_sub_from(s: Seq<char>, pat: Seq<char>, i: int) -> Option<int>
    decreases s.len() - i,
{
    if i < 0 || i + pat.len() > s.len() {
        None
    } else if pat.len() == 0 {
        Some(i)
    } else if s.subrange(i, i + pat.len()) == pat {
        Some(i)
    } else {
        find_sub_from(s, pat, i + 1)
    }
}

/// First occurrence of `pat` in `s`.
pub open spec fn spec_find_sub(s: Seq<char>, pat: Seq<char>) -> Option<int> {
    find_sub_from(s, pat, 0)
}

/// Whether `pat` occurs in `s` at position `i`.
fn match_at(sc: &Vec<char>, pc: &Vec<char>, i: usize) -> (r: bool)
    requires
        i + pc@.len() <= sc@.len(),
    ensures
        r == (sc@.subrange(i as int, i + pc@.len()) == pc@),
{
    let m = pc.len();
    let n = sc.len();
    for k in 0..m
        invariant
            i + m <= n,
            n == sc@.len(),
            m == pc@.len(),
            forall|q: int| 0 <= q < k ==> sc@[i + q] == #[trigger] pc@[q],
    {
        if sc[i + k] != pc[k] {
            proof {
                assert(sc@.subrange(i as int, i + pc@.len())[k as int] == sc@[i + k as int]);
            }
            return false;
        }
    }
    proof {
        assert(sc@.subrange(i as int, i + pc@.len()) =~= pc@) by {
            assert(forall|q: int|
                0 <= q < m ==> #[trigger] sc@.subrange(i as int, i + pc@.len())[q] == sc@[i + q]);
        }
    }
    true
}

/// Find the first occurrence of `pat` in `s`, by character positions.
pub fn find_sub(s: &str, pat: &str) -> (r: Option<usize>)
    ensures
        match r {
            Some(i) => spec_find_sub(s@, pat@) == Some(i as int),
            None => spec_find_sub(s@, pat@) is None,
        },
{
    let sc = chars_of(s);
    let pc = chars_of(pat);
    let n = sc.len();
    let m = pc.len();
    if m > n {
        return None;
    }
    let mut i: usize = 0;
    while i <= n - m
        invariant
            n == s@.len(),
            m == pat@.len(),
            sc@ == s@,
            pc@ == pat@,
            m <= n,
            i <= n - m + 1,
            spec_find_sub(s@, pat@) == find_sub_from(s@, pat@, i as int),
        decreases n - m - i + 1,
    {
        if match_at(&sc, &pc, i) {
            return Some(i);
        }
        proof {
            if m == 0 {
                assert(s@.subrange(i as int, i as int) =~= pat@);
            }
            assert(find_sub_from(s@, pat@, i as int) == find_sub_from(s@, pat@, i + 1));
        }
        i = i + 1;
    }
    proof {
        assert(i + m > n);
        assert(find_sub_from(s@, pat@, i as int) is None);
    }
    None
}

/// `s` cut off before the first occurrence of `pat`, or `s` itself.
pub open spec fn spec_truncate_at(s: Seq<char>, pat: Seq<char>) -> Seq<char> {
    match spec_find_sub(s, pat) {
        Some(i) => s.subrange(0, i),
        None => s,
    }
}

/// Cut a name off before the first occurrence of `pat`.
fn truncate_at<'a>(s: &'a str, pat: &str) -> (r: &'a str)
    ensures
        r@ == spec_truncate_at(s@, pat@),
{
    match find_sub(s, pat) {
        Some(i) => {
            proof {
                lemma_find_sub_in_range(s@, pat@, 0);
            }
            s.substring_char(0, i)
        },
        None => s,
    }
}

/// A found occurrence lies inside the string.
proof fn lemma_find_sub_in_range(s: Seq<char>, pat: Seq<char>, i: int)
    requires
        0 <= i,
        find_sub_from(s, pat, i) is Some,
    ensures
        i <= find_sub_from(s, pat, i)->0,
        find_sub_from(s, pat, i)->0 + pat.len() <= s.len(),
    decreases s.len() - i,
{
    if i + pat.len() <= s.len() && pat.len() > 0 && s.subrange(i, i + pat.len()) != pat {
        lemma_find_sub_in_range(s, pat, i + 1);
    }
}

/// `s` with leading and trailing spaces removed.
pub open spec fn spec_trim(s: Seq<char>) -> Seq<char>
    decreases s.len(),
{
    if s.len() > 0 && s[0] == ' ' {
        spec_trim(s.drop_first())
    } else if s.len() > 0 && s.last() == ' ' {
        spec_trim(s.drop_last())
    } else {
        s
    }
}

/// Strip leading and trailing spaces.
pub fn trim_spaces<'a>(s: &'a str) -> (r: &'a str)
    ensures
        r@ == spec_trim(s@),
{
    let mut cur: &str = s;
    let mut n = cur.unicode_len();
    loop
        invariant
            n == cur@.len(),
            spec_trim(s@) == spec_trim(cur@),
        decreases n,
    {
        if n > 0 && cur.get_char(0) == ' ' {
            let next = cur.substring_char(1, n);
            proof {
                assert(next@ =~= cur@.drop_first());
            }
            cur = next;
            n = n - 1;
        } else if n > 0 && cur.get_char(n - 1) == ' ' {
            let next = cur.substring_char(0, n - 1);
            proof {
                assert(next@ =~= cur@.drop_last());
            }
            cur = next;
            n = n - 1;
        } else {
            return cur;
        }
    }
}

/// A normalized artist name: featuring credits (" feat." or " ft." and
/// whatever follows) cut off, surrounding spaces stripped.
pub open spec fn spec_normalize_artist(s: Seq<char>) -> Seq<char> {
    spec_trim(spec_truncate_at(spec_truncate_at(s, " feat."@), " ft."@))
}

/// Normalize an artist name for better matching: strip featuring credits and
/// surrounding whitespace.
pub fn normalize_artist(artist: &str) -> (r: String)
    ensures
        r@ == spec_normalize_artist(artist@),
{
    let cut = truncate_at(artist, " feat.");
    let cut = truncate_at(cut, " ft.");
    trim_spaces(cut).to_owned()
}

/// The exact query asked first: quoted artist and release-group terms.
pub open spec fn spec_exact_search_query(artist: Seq<char>, album: Seq<char>) -> Seq<char> {
    "artist:\""@ + spec_normalize_artist(artist) + "\" AND releasegroup:\""@ + album
        + "\" AND primarytype:album"@
}

/// Build the exact artist-and-title query.
pub fn exact_search_query(artist: &str, album: &str) -> (r: String)
    ensures
        r@ == spec_exact_search_query(artist@, album@),
{
    let mut q = "artist:\"".to_owned();
    let norm = normalize_artist(artist);
    q.append(norm.as_str());
    q.append("\" AND releasegroup:\"");
    q.append(album);
    q.append("\" AND primarytype:album");
    q
}

/// The fuzzy query variant tried when nothing scores at least 80.
pub open spec fn spec_fuzzy_search_query(artist: Seq<char>, album: Seq<char>) -> Seq<char> {
    "artist:"@ + spec_normalize_artist(artist) + "~ AND releasegroup:"@ + album
        + "~ AND primarytype:album"@
}

/// Build the fuzzy artist-and-title query.
pub fn fuzzy_search_query(artist: &str, album: &str) -> (r: String)
    ensures
        r@ == spec_fuzzy_search_query(artist@, album@),
{
    let mut q = "artist:".to_owned();
    let norm = normalize_artist(artist);
    q.append(norm.as_str());
    q.append("~ AND releasegroup:");
    q.append(album);
    q.append("~ AND primarytype:album");
    q
}

/// What `urlencoding::encode` returns for a given character sequence.
pub uninterp spec fn url_encoded_of(s: Seq<char>) -> Seq<char>;

/// Relies on `urlencoding::encode`: percent-encodes every byte except ASCII
/// alphanumerics and `-`, `_`, `.`, `~`; depends on the input alone, and an
/// empty string stays empty.
#[verifier::external_body]
pub(crate) fn url_encode(s: &str) -> (r: String)
    ensures
        r@ == url_encoded_of(s@),
        s@.len() == 0 ==> r@.len() == 0,
{
    urlencoding::encode(s).into_owned()
}

/// The request path of one release-group search: the percent-encoded query
/// with the JSON format and the result cap of ten.
pub open spec fn spec_search_request_path(query: Seq<char>) -> Seq<char> {
    "/release-group?query="@ + url_encoded_of(query) + "&fmt=json&limit=10"@
}

/// Build the release-group search request path for a query.
pub fn search_request_path(query: &str) -> (r: String)
    ensures
        r@ == spec_search_request_path(query@),
{
    let mut p = "/release-group?query=".to_owned();
    let enc = url_encode(query);
    p.append(enc.as_str());
    p.append("&fmt=json&limit=10");
    p
}


/// The image size tiers the cover archive serves.
#[derive(Debug, Clone, Copy, PartialEq, Eq, Structural)]
pub enum CoverArtSize {
    Small,
    Medium,
    Large,
}

impl CoverArtSize {
    /// The path segment of this size tier: the pixel width served.
    pub open spec fn spec_segment(self) -> Seq<char> {
        match self {
            CoverArtSize::Small => "front-250"@,
            CoverArtSize::Medium => "front-500"@,
            CoverArtSize::Large => "front-1200"@,
        }
    }

    /// The path segment of this size tier.
    pub fn segment(self) -> (r: &'static str)
        ensures
            r@ == self.spec_segment(),
    {
        match self {
            CoverArtSize::Small => "front-250",
            CoverArtSize::Medium => "front-500",
            CoverArtSize::Large => "front-1200",
        }
    }
}

/// The request path of one cover-image fetch by canonical release-group id.
pub open spec fn spec_cover_art_path(mbid: Seq<char>, size: CoverArtSize) -> Seq<char> {
    "/release-group/"@ + mbid + "/"@ + size.spec_segment()
}

/// Build the cover-archive request path for a release group and size tier.
pub fn cover_art_path(mbid: &str, size: CoverArtSize) -> (r: String)
    ensures
        r@ == spec_cover_art_path(mbid@, size),
{
    let mut p = "/release-group/".to_owned();
    p.append(mbid);
    p.append("/");
    p.append(size.segment());
    p
}

} // verus!
