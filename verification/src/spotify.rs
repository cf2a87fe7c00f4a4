//! Plain data shapes of the streaming-service adapter. The HTTP layer outside
//! the library fetches the paginated payloads and hands them in as these
//! values; OAuth redirect handling stays with the web layer as well.

use vstd::prelude::*;

use base64::Engine;

verus! {

/// An artist as the streaming service reports it.
#[derive(Debug, Clone)]
pub struct SpotifyArtist {
    pub id: String,
    pub name: String,
}

/// A cover image variant.
#[derive(Debug, Clone)]
pub struct SpotifyImage {
    pub url: String,
    pub height: Option<i32>,
    pub width: Option<i32>,
}

/// An album as the streaming service reports it.
#[derive(Debug)]
pub struct SpotifyAlbum {
    pub id: String,
    pub name: String,
    pub artists: Vec<SpotifyArtist>,
    pub release_date: String,
    pub total_tracks: i32,
    pub images: Vec<SpotifyImage>,
    pub genres: Option<Vec<String>>,
}

/// The display owner of a playlist.
#[derive(Debug, Clone)]
pub struct SpotifyPlaylistOwner {
    pub id: String,
    pub display_name: Option<String>,
}

/// Track-count reference carried by a playlist payload.
#[derive(Debug, Clone, Copy, PartialEq, Eq, Structural)]
pub struct SpotifyPlaylistTracksRef {
    pub total: i32,
}

/// A playlist as the streaming service reports it, with its snapshot token.
#[derive(Debug)]
pub struct SpotifyPlaylist {
    pub id: String,
    pub name: String,
    pub description: Option<String>,
    pub owner: SpotifyPlaylistOwner,
    pub collaborative: bool,
    pub tracks: SpotifyPlaylistTracksRef,
    pub images: Vec<SpotifyImage>,
    pub snapshot_id: String,
}

/// A track as the streaming service reports it. Local files carry no id.
#[derive(Debug)]
pub struct SpotifyTrack {
    pub id: Option<String>,
    pub name: String,
    pub track_number: i32,
    pub disc_number: i32,
    pub duration_ms: i32,
    pub album: SpotifyAlbum,
    pub artists: Vec<SpotifyArtist>,
}

/// One playlist membership as fetched: the track plus when it was added.
/// Deleted or local tracks come back without track data.
#[derive(Debug)]
pub struct SpotifyPlaylistTrack {
    pub track: Option<SpotifyTrack>,
    pub added_at: Option<String>,
}

/// An authorization URL handed to the browser, with the secrets the callback
/// needs again.
#[derive(Debug, Clone)]
pub struct AuthorizationUrl {
    pub url: String,
    pub code_verifier: String,
    pub state: String,
}

/// A token grant from the streaming service.
#[derive(Debug, Clone)]
pub struct TokenResponse {
    pub access_token: String,
    pub token_type: String,
    pub expires_in: i64,
    pub refresh_token: Option<String>,
    pub scope: String,
}

/// Connection status reported to the settings page.
#[derive(Debug, Clone)]
pub struct SpotifyStatus {
    pub connected: bool,
    pub expires_at: Option<String>,
}

/// The query parameters of the OAuth callback redirect.
#[derive(Debug, Clone)]
pub struct CallbackQuery {
    pub code: Option<String>,
    pub state: Option<String>,
    pub error: Option<String>,
}

/// Whether an access token is expired or expires within the next five
/// minutes, given both instants in milliseconds.
pub fn is_token_expired(now_ms: i64, expires_at_ms: i64) -> (r: bool)
    requires
        now_ms <= i64::MAX - 300_000,
    ensures
        r == (now_ms + 300_000 >= expires_at_ms),
{
    now_ms + 300_000 >= expires_at_ms
}


/// What the URL-safe, unpadded base64 encoding returns for given bytes.
pub uninterp spec fn base64url_of(data: Seq<u8>) -> Seq<char>;

/// Relies on base64's `URL_SAFE_NO_PAD` engine: standard URL-safe base64
/// without padding, a function of the input bytes alone; without padding the
/// output holds `(4n + 2) / 3` characters for `n` input bytes.
#[verifier::external_body]
fn base64url_nopad(data: &[u8]) -> (r: String)
    ensures
        r@ == base64url_of(data@),
        r@.len() == (data@.len() * 4 + 2) / 3,
{
    base64::engine::general_purpose::URL_SAFE_NO_PAD.encode(data)
}

/// Relies on `rand::thread_rng` and `Rng::gen`: 32 bytes of which nothing is
/// promised but the count — two calls may differ.
#[verifier::external_body]
fn random_bytes32() -> (r: Vec<u8>)
    ensures
        r@.len() == 32,
{
    let mut rng = rand::thread_rng();
    let mut out: Vec<u8> = Vec::with_capacity(32);
    let mut i: usize = 0;
    while i < 32 {
        out.push(rand::Rng::gen(&mut rng));
        i += 1;
    }
    out
}

/// A fresh PKCE code verifier: 32 random bytes, URL-safe base64 without
/// padding — 43 characters, within the 43 to 128 the flow requires.
pub fn generate_code_verifier() -> (r: String)
    ensures
        r@.len() == 43,
{
    let bytes = random_bytes32();
    base64url_nopad(bytes.as_slice())
}

/// The PKCE S256 code challenge of a verifier: the URL-safe, unpadded base64
/// encoding of the verifier's SHA-256 digest — always 43 characters.
pub fn generate_code_challenge(verifier: &str) -> (r: String)
    ensures
        r@ == base64url_of(crate::hashing::sha256_of(vstd::utf8::encode_utf8(verifier@))),
        r@.len() == 43,
{
    let digest = crate::hashing::sha256_digest(verifier.as_bytes());
    base64url_nopad(digest.as_slice())
}

/// The scopes one Library Sync needs from the streaming service.
pub fn sync_scopes() -> (r: &'static str)
    ensures
        r@ == "user-library-read playlist-read-private playlist-read-collaborative"@,
{
    "user-library-read playlist-read-private playlist-read-collaborative"
}

/// The authorization query of the PKCE flow for the given client, redirect,
/// challenge and state, percent-encoded where the values are free text.
pub open spec fn spec_authorization_query(
    client_id: Seq<char>,
    redirect_uri: Seq<char>,
    challenge: Seq<char>,
    state: Seq<char>,
) -> Seq<char> {
    "?client_id="@ + crate::queries::url_encoded_of(client_id)
        + "&response_type=code&redirect_uri="@ + crate::queries::url_encoded_of(redirect_uri)
        + "&code_challenge_method=S256&code_challenge="@ + challenge + "&scope="@
        + crate::queries::url_encoded_of(
        "user-library-read playlist-read-private playlist-read-collaborative"@,
    ) + "&state="@ + state
}

/// Build the authorization query string of the PKCE flow.
pub fn authorization_query(
    client_id: &str,
    redirect_uri: &str,
    challenge: &str,
    state: &str,
) -> (r: String)
    ensures
        r@ == spec_authorization_query(client_id@, redirect_uri@, challenge@, state@),
{
    let mut q = "?client_id=".to_owned();
    let c = crate::queries::url_encode(client_id);
    q.append(c.as_str());
    q.append("&response_type=code&redirect_uri=");
    let ru = crate::queries::url_encode(redirect_uri);
    q.append(ru.as_str());
    q.append("&code_challenge_method=S256&code_challenge=");
    q.append(challenge);
    q.append("&scope=");
    let sc = crate::queries::url_encode(sync_scopes());
    q.append(sc.as_str());
    q.append("&state=");
    q.append(state);
    q
}

/// Assemble one authorization request: a fresh verifier, its S256 challenge,
/// a fresh state token, and the query they make up. The runtime prefixes the
/// service's authorization endpoint.
pub fn generate_authorization_url(client_id: &str, redirect_uri: &str) -> (r: AuthorizationUrl)
    ensures
        r.code_verifier@.len() == 43,
        r.state@.len() == 43,
        r.url@ == spec_authorization_query(
            client_id@,
            redirect_uri@,
            base64url_of(crate::hashing::sha256_of(vstd::utf8::encode_utf8(r.code_verifier@))),
            r.state@,
        ),
{
    let code_verifier = generate_code_verifier();
    let state = generate_code_verifier();
    let challenge = generate_code_challenge(code_verifier.as_str());
    let url = authorization_query(client_id, redirect_uri, challenge.as_str(), state.as_str());
    AuthorizationUrl { url, code_verifier, state }
}

} // verus!
