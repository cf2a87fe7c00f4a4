//! Runtime configuration as plain values. Reading it from the environment is
//! the runtime's job; the library only holds and hands around the values.

use vstd::prelude::*;

verus! {

/// Service configuration.
#[derive(Debug, Clone)]
pub struct Config {
    pub database_url: String,
    pub redis_url: String,
    pub server_host: String,
    pub server_port: u16,
    pub spotify_client_id: String,
    pub spotify_redirect_uri: String,
    pub music_folder_path: Option<String>,
    pub lidarr_url: Option<String>,
    pub lidarr_api_key: Option<String>,
}

/// A fixed configuration for tests: local addresses, a throwaway client id,
/// nothing optional set.
pub fn test_config() -> (r: Config)
    ensures
        r.server_port == 3000,
        r.spotify_client_id@ == "test_client_id"@,
        r.music_folder_path is None,
        r.lidarr_url is None,
        r.lidarr_api_key is None,
{
    Config {
        database_url: "sqlite::memory:".to_owned(),
        redis_url: "redis://127.0.0.1:6379".to_owned(),
        server_host: "127.0.0.1".to_owned(),
        server_port: 3000,
        spotify_client_id: "test_client_id".to_owned(),
        spotify_redirect_uri: "http://localhost:3000/api/auth/spotify/callback".to_owned(),
        music_folder_path: None,
        lidarr_url: None,
        lidarr_api_key: None,
    }
}

} // verus!
