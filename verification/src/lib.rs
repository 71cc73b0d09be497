//! MyCloud: a personal media library and its cloud-backed file cache.
pub mod errors;
pub mod path_id;
pub mod text;
pub mod retry;
pub mod crypto;
pub mod hasher;
pub mod sse;
pub mod sync;
pub mod cache;
pub mod cloud_api;
pub mod gdrive;
pub mod accounts;
pub mod session;
pub mod storage;
pub mod upload;
pub mod sharing;
pub mod sql;
pub mod media;
pub mod server;
pub mod store_config;
pub mod photo_meta;
pub mod admin;
pub mod requests;
