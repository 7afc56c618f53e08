//! `GET /health`: whether the service can work.
use crate::text::option_view;
use vstd::prelude::*;

verus! {

/// The state of the service.
#[derive(Debug)]
pub struct HealthResponse {
    pub status: String,
    pub storage: StorageInfo,
}

/// The state of the storage backend.
#[derive(Debug)]
pub struct StorageInfo {
    pub backend_type: String,
    pub status: String,
    pub message: Option<String>,
}

/// Tells the state of the service, with the HTTP status to answer with, from
/// what the storage backend says of itself.
pub fn health_check(backend_type: &str, is_healthy: bool, message: Option<String>) -> (answer: (
    u16,
    HealthResponse,
))
    ensures
        answer.0 == if is_healthy {
            200u16
        } else {
            503u16
        },
        answer.1.status@ == if is_healthy {
            "OK"@
        } else {
            "DEGRADED"@
        },
        answer.1.storage.backend_type@ == backend_type@,
        answer.1.storage.status@ == if is_healthy {
            "healthy"@
        } else {
            "unavailable"@
        },
        option_view(answer.1.storage.message) == option_view(message),
{
    let storage_status: String = if is_healthy {
        "healthy".to_owned()
    } else {
        "unavailable".to_owned()
    };
    let status: String = if is_healthy {
        "OK".to_owned()
    } else {
        "DEGRADED".to_owned()
    };
    let code: u16 = if is_healthy {
        200
    } else {
        503
    };
    (
        code,
        HealthResponse {
            status,
            storage: StorageInfo {
                backend_type: backend_type.to_owned(),
                status: storage_status,
                message,
            },
        },
    )
}

} // verus!
