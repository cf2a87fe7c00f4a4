//! A verified core for a personal music-collection catalog that reconciles
//! state across a streaming-service library, a music-metadata database and a
//! download manager: idempotent upsert reconciliation, playlist membership
//! maintenance, fuzzy text matching, job lifecycle tracking, rate limiting and
//! denormalized ownership statistics.

pub mod catalog;
pub mod config;
pub mod dates;
pub mod enums;
pub mod fuzzy;
pub mod hashing;
pub mod jobs;
pub mod lidarr;
pub mod matching;
pub mod model;
pub mod queries;
pub mod ratelimit;
pub mod scan;
pub mod spotify;
pub mod stats;
pub mod strings;
pub mod sync;
pub mod views;
