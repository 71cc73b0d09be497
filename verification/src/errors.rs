//! The storage service's error type and the text each error displays.
use vstd::prelude::*;

use crate::text::{decimal, push_decimal, push_str, string_from_chars};

verus! {

/// Unified error type of the storage service.
#[derive(Debug)]
pub enum CloudStoreError {
    InvalidPath(String),
    NotFound(String),
    AlreadyExists(String),
    /// An I/O failure, carried as its message.
    Io(String),
    /// A (de)serialisation failure, carried as its message.
    Serialization(String),
    CacheFull(String),
    SyncError(String),
    ProviderError { provider: String, message: String },
    ConfigError(String),
    UploadTooLarge { size: u64, limit: u64 },
    Unauthorized(String),
    Validation(String),
}

/// The text an error displays.
pub open spec fn error_message(e: CloudStoreError) -> Seq<char> {
    match e {
        CloudStoreError::InvalidPath(m) => "Invalid path: "@ + m@,
        CloudStoreError::NotFound(m) => "File not found: "@ + m@,
        CloudStoreError::AlreadyExists(m) => "File already exists: "@ + m@,
        CloudStoreError::Io(m) => "IO error: "@ + m@,
        CloudStoreError::Serialization(m) => "Serialization error: "@ + m@,
        CloudStoreError::CacheFull(m) => "Cache full: "@ + m@,
        CloudStoreError::SyncError(m) => "Sync error: "@ + m@,
        CloudStoreError::ProviderError { provider, message } => "Provider error: "@ + provider@
            + " - "@ + message@,
        CloudStoreError::ConfigError(m) => "Config error: "@ + m@,
        CloudStoreError::UploadTooLarge { size, limit } => "Upload too large: "@ + decimal(
            size as nat,
        ) + " bytes exceeds limit of "@ + decimal(limit as nat) + " bytes"@,
        CloudStoreError::Unauthorized(m) => "Unauthorized: "@ + m@,
        CloudStoreError::Validation(m) => "Validation error: "@ + m@,
    }
}

impl CloudStoreError {
    /// The text this error displays.
    pub fn message(&self) -> (s: String)
        ensures
            s@ == error_message(*self),
    {
        let mut v: Vec<char> = Vec::new();
        match self {
            CloudStoreError::InvalidPath(m) => {
                push_str(&mut v, "Invalid path: ");
                push_str(&mut v, m.as_str());
            },
            CloudStoreError::NotFound(m) => {
                push_str(&mut v, "File not found: ");
                push_str(&mut v, m.as_str());
            },
            CloudStoreError::AlreadyExists(m) => {
                push_str(&mut v, "File already exists: ");
                push_str(&mut v, m.as_str());
            },
            CloudStoreError::Io(m) => {
                push_str(&mut v, "IO error: ");
                push_str(&mut v, m.as_str());
            },
            CloudStoreError::Serialization(m) => {
                push_str(&mut v, "Serialization error: ");
                push_str(&mut v, m.as_str());
            },
            CloudStoreError::CacheFull(m) => {
                push_str(&mut v, "Cache full: ");
                push_str(&mut v, m.as_str());
            },
            CloudStoreError::SyncError(m) => {
                push_str(&mut v, "Sync error: ");
                push_str(&mut v, m.as_str());
            },
            CloudStoreError::ProviderError { provider, message } => {
                push_str(&mut v, "Provider error: ");
                push_str(&mut v, provider.as_str());
                push_str(&mut v, " - ");
                push_str(&mut v, message.as_str());
            },
            CloudStoreError::ConfigError(m) => {
                push_str(&mut v, "Config error: ");
                push_str(&mut v, m.as_str());
            },
            CloudStoreError::UploadTooLarge { size, limit } => {
                push_str(&mut v, "Upload too large: ");
                push_decimal(&mut v, *size);
                push_str(&mut v, " bytes exceeds limit of ");
                push_decimal(&mut v, *limit);
                push_str(&mut v, " bytes");
            },
            CloudStoreError::Unauthorized(m) => {
                push_str(&mut v, "Unauthorized: ");
                push_str(&mut v, m.as_str());
            },
            CloudStoreError::Validation(m) => {
                push_str(&mut v, "Validation error: ");
                push_str(&mut v, m.as_str());
            },
        }
        proof {
            assert(v@ =~= error_message(*self));
        }
        string_from_chars(&v)
    }
}

} // verus!
