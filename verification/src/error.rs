//! Application errors with their HTTP status codes, and the download
//! engine's own failure causes.

use vstd::prelude::*;

use crate::text::{int_text, push_i64, push_str};

verus! {

/// Errors surfaced at the HTTP boundary.
#[derive(Debug)]
pub enum AppError {
    Api(String),
    Download(String),
    Cookie(String),
    Validation(String),
    NotFound(String),
    DiskFull(String),
    ServiceBusy,
    /// Cancelled by the user.
    Cancelled,
    Timeout(String),
    /// No download link for this song id.
    UrlUnavailable(i64),
    /// A state machine was asked for a transition it does not have.
    InvalidTransition(String),
    QualityParse(String),
    /// Any other failure, by its message.
    Internal(String),
}

impl AppError {
    /// HTTP status of each error.
    pub open spec fn spec_status_code(&self) -> u16 {
        match self {
            AppError::Api(_) => 500,
            AppError::Download(_) => 500,
            AppError::Cookie(_) => 500,
            AppError::DiskFull(_) => 507,
            AppError::Validation(_) => 400,
            AppError::NotFound(_) => 404,
            AppError::ServiceBusy => 503,
            AppError::Cancelled => 499,
            AppError::Timeout(_) => 504,
            AppError::UrlUnavailable(_) => 502,
            AppError::InvalidTransition(_) => 500,
            AppError::QualityParse(_) => 400,
            AppError::Internal(_) => 500,
        }
    }

    /// The HTTP status code reported for the error.
    pub fn status_code(&self) -> (r: u16)
        ensures
            r == self.spec_status_code(),
    {
        match self {
            AppError::Api(_) => 500,
            AppError::Download(_) => 500,
            AppError::Cookie(_) => 500,
            AppError::DiskFull(_) => 507,
            AppError::Validation(_) => 400,
            AppError::NotFound(_) => 404,
            AppError::ServiceBusy => 503,
            AppError::Cancelled => 499,
            AppError::Timeout(_) => 504,
            AppError::UrlUnavailable(_) => 502,
            AppError::InvalidTransition(_) => 500,
            AppError::QualityParse(_) => 400,
            AppError::Internal(_) => 500,
        }
    }
}

/// Display text of an error: a fixed prefix for each kind, then its detail.
pub open spec fn app_error_text(e: AppError) -> Seq<char> {
    match e {
        AppError::Api(m) => "API error: "@ + m@,
        AppError::Download(m) => "Download error: "@ + m@,
        AppError::Cookie(m) => "Cookie error: "@ + m@,
        AppError::Validation(m) => "Validation error: "@ + m@,
        AppError::NotFound(m) => "Not found: "@ + m@,
        AppError::DiskFull(m) => "Disk full: "@ + m@,
        AppError::ServiceBusy => "Service busy"@,
        AppError::Cancelled => "Cancelled by user"@,
        AppError::Timeout(m) => "Timeout: "@ + m@,
        AppError::UrlUnavailable(id) => "Download URL unavailable for song id "@ + int_text(id),
        AppError::InvalidTransition(m) => "Invalid task transition: "@ + m@,
        AppError::QualityParse(m) => "Invalid quality: "@ + m@,
        AppError::Internal(m) => m@,
    }
}

impl AppError {
    /// The Display text of the error.
    pub fn message(&self) -> (r: String)
        ensures
            r@ == app_error_text(*self),
    {
        let mut out = String::new();
        match self {
            AppError::Api(m) => {
                push_str(&mut out, "API error: ");
                push_str(&mut out, m.as_str());
            },
            AppError::Download(m) => {
                push_str(&mut out, "Download error: ");
                push_str(&mut out, m.as_str());
            },
            AppError::Cookie(m) => {
                push_str(&mut out, "Cookie error: ");
                push_str(&mut out, m.as_str());
            },
            AppError::Validation(m) => {
                push_str(&mut out, "Validation error: ");
                push_str(&mut out, m.as_str());
            },
            AppError::NotFound(m) => {
                push_str(&mut out, "Not found: ");
                push_str(&mut out, m.as_str());
            },
            AppError::DiskFull(m) => {
                push_str(&mut out, "Disk full: ");
                push_str(&mut out, m.as_str());
            },
            AppError::ServiceBusy => {
                push_str(&mut out, "Service busy");
            },
            AppError::Cancelled => {
                push_str(&mut out, "Cancelled by user");
            },
            AppError::Timeout(m) => {
                push_str(&mut out, "Timeout: ");
                push_str(&mut out, m.as_str());
            },
            AppError::UrlUnavailable(id) => {
                push_str(&mut out, "Download URL unavailable for song id ");
                push_i64(&mut out, *id);
            },
            AppError::InvalidTransition(m) => {
                push_str(&mut out, "Invalid task transition: ");
                push_str(&mut out, m.as_str());
            },
            AppError::QualityParse(m) => {
                push_str(&mut out, "Invalid quality: ");
                push_str(&mut out, m.as_str());
            },
            AppError::Internal(m) => {
                push_str(&mut out, m.as_str());
            },
        }
        proof {
            assert(out@ =~= app_error_text(*self));
        }
        out
    }
}

/// Why a download job failed.
#[derive(Debug, Clone, PartialEq, Eq)]
pub enum DownloadError {
    /// The link answered with a link-level or permanent status.
    UrlExpired { status: u16 },
    /// The transfer timed out.
    Timeout { secs: u64 },
    /// A network failure, by its message.
    Network(String),
    /// Not enough disk space.
    DiskFull { need: u64, have: u64 },
    /// Cancelled by the user.
    Cancelled,
    /// Any other cause, by its message.
    Other(String),
}

impl DownloadError {
    /// A copy of the failure cause, field by field.
    pub fn duplicate(&self) -> (r: Self)
        ensures
            r == *self,
    {
        match self {
            DownloadError::UrlExpired { status } => DownloadError::UrlExpired { status: *status },
            DownloadError::Timeout { secs } => DownloadError::Timeout { secs: *secs },
            DownloadError::Network(m) => DownloadError::Network(m.clone()),
            DownloadError::DiskFull { need, have } => DownloadError::DiskFull {
                need: *need,
                have: *have,
            },
            DownloadError::Cancelled => DownloadError::Cancelled,
            DownloadError::Other(m) => DownloadError::Other(m.clone()),
        }
    }
}

} // verus!
