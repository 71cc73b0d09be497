//! The bodies and queries that the media library's routes take, and the replies they give.
use vstd::prelude::*;

use crate::server::UserSettings;

verus! {

/// `POST /api/auth/login`.
pub struct LoginRequest {
    pub email: String,
    pub password: String,
}

/// `POST /api/auth/register`.
pub struct RegisterRequest {
    pub name: String,
    pub email: String,
    pub password: String,
}

/// The reply to `GET /api/auth/download-token`.
pub struct DownloadTokenResponse {
    pub token: String,
}

/// `PUT /api/user/profile`: the fields to change.
pub struct UpdateProfileRequest {
    pub name: Option<String>,
    pub avatar: Option<String>,
    pub settings: Option<UserSettings>,
}

/// `PUT /api/user/password`.
pub struct ChangePasswordRequest {
    pub current_password: String,
    pub new_password: String,
}

/// `GET /api/user/search`.
pub struct SearchUserQuery {
    pub q: String,
}

/// `POST /api/encryption/enable`.
pub struct EnableEncryptionRequest {
    pub password: String,
}

/// The reply to enabling encryption: the recovery key, shown once, and a new session token.
pub struct EnableEncryptionResponse {
    pub enabled: bool,
    pub recovery_key: String,
    pub token: String,
}

/// `POST /api/encryption/disable`.
pub struct DisableEncryptionRequest {
    pub password: String,
}

/// The reply to `GET /api/encryption/status`.
pub struct EncryptionStatusResponse {
    pub enabled: bool,
}

/// `POST /api/encryption/recover`.
pub struct RecoverRequest {
    pub recovery_key: String,
    pub password: String,
}

/// The reply to a recovery: a new session token.
pub struct RecoverResponse {
    pub recovered: bool,
    pub token: String,
}

/// `GET /api/search`.
pub struct SearchQuery {
    pub q: String,
    pub page: Option<u32>,
    pub limit: Option<u32>,
}

/// `GET /api/media/serve/{path}`: a token for `<img>` tags, and whether to download.
pub struct ServeQuery {
    pub token: Option<String>,
    pub download: Option<bool>,
}

/// `POST /api/share`.
pub struct CreateShareRequest {
    pub media_ids: Vec<String>,
    pub album_id: Option<String>,
    pub password: Option<String>,
    pub expires_hours: Option<i64>,
    pub max_views: Option<i32>,
}

/// `GET /api/s/{token}`.
pub struct ShareAccessQuery {
    pub password: Option<String>,
}

} // verus!
