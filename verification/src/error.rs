use vstd::prelude::*;

use crate::text::{concat2, concat3, copy_str, decimal, u32_to_string};

verus! {

/// Every error the launcher reports.
///
/// Errors that come from I/O, HTTP, JSON or URL handling carry the text of
/// the underlying error.
#[derive(Debug, Clone)]
pub enum AppError {
    Message(String),
    Io(String),
    Http(String),
    Json(String),
    Url(String),
    Keyring(String),
    Cancelled,
    HashMismatch { path: String, expected: String, actual: String },
    NotSignedIn,
    MissingClientId,
    GameNotOwned,
    JavaNotFound { required: u32 },
    InstanceNotFound(String),
    VersionNotFound(String),
    OAuth(String),
    Auth(String),
}

/// The result type of fallible launcher operations.
pub type AppResult<T> = Result<T, AppError>;

/// Whether `e` is a plain message error with text `m`.
pub open spec fn is_message(e: AppError, m: Seq<char>) -> bool {
    e matches AppError::Message(x) && x@ == m
}

/// The text that an error displays.
pub open spec fn error_text(e: AppError) -> Seq<char> {
    match e {
        AppError::Message(m) => m@,
        AppError::Io(m) => "I/O error: "@ + m@,
        AppError::Http(m) => "HTTP error: "@ + m@,
        AppError::Json(m) => "JSON error: "@ + m@,
        AppError::Url(m) => "URL error: "@ + m@,
        AppError::Keyring(m) => "Keyring error: "@ + m@,
        AppError::Cancelled => "Download cancelled"@,
        AppError::HashMismatch { path, expected, actual } => "Hash mismatch for "@ + path@
            + ": expected "@ + expected@ + ", got "@ + actual@,
        AppError::NotSignedIn => "Not signed in"@,
        AppError::MissingClientId => "Cubic needs its own Microsoft app ID. Create an Entra app named \"Cubic\", enable public client flows, paste the Application (client) ID in Settings, then submit it at https://aka.ms/mce-reviewappid"@,
        AppError::GameNotOwned => "This Microsoft account does not own Minecraft: Java Edition."@,
        AppError::JavaNotFound { required } => "No suitable Java runtime found (need major version "@
            + decimal(required as nat) + ")"@,
        AppError::InstanceNotFound(m) => "Instance not found: "@ + m@,
        AppError::VersionNotFound(m) => "Version not found: "@ + m@,
        AppError::OAuth(m) => "OAuth failed: "@ + m@,
        AppError::Auth(m) => "Authentication failed: "@ + m@,
    }
}

impl AppError {
    /// A plain message error.
    pub fn msg(message: &str) -> (e: AppError)
        ensures
            is_message(e, message@),
    {
        AppError::Message(copy_str(message))
    }

    /// The text that the error displays.
    pub fn message(&self) -> (s: String)
        ensures
            s@ == error_text(*self),
    {
        match self {
            AppError::Message(m) => m.clone(),
            AppError::Io(m) => concat2("I/O error: ", m.as_str()),
            AppError::Http(m) => concat2("HTTP error: ", m.as_str()),
            AppError::Json(m) => concat2("JSON error: ", m.as_str()),
            AppError::Url(m) => concat2("URL error: ", m.as_str()),
            AppError::Keyring(m) => concat2("Keyring error: ", m.as_str()),
            AppError::Cancelled => copy_str("Download cancelled"),
            AppError::HashMismatch { path, expected, actual } => {
                let mut s = concat2("Hash mismatch for ", path.as_str());
                s.append(": expected ");
                s.append(expected.as_str());
                s.append(", got ");
                s.append(actual.as_str());
                s
            },
            AppError::NotSignedIn => copy_str("Not signed in"),
            AppError::MissingClientId => copy_str(
                "Cubic needs its own Microsoft app ID. Create an Entra app named \"Cubic\", enable public client flows, paste the Application (client) ID in Settings, then submit it at https://aka.ms/mce-reviewappid",
            ),
            AppError::GameNotOwned => copy_str(
                "This Microsoft account does not own Minecraft: Java Edition.",
            ),
            AppError::JavaNotFound { required } => {
                let mut s = copy_str("No suitable Java runtime found (need major version ");
                let n = u32_to_string(*required);
                s.append(n.as_str());
                s.append(")");
                s
            },
            AppError::InstanceNotFound(m) => concat2("Instance not found: ", m.as_str()),
            AppError::VersionNotFound(m) => concat2("Version not found: ", m.as_str()),
            AppError::OAuth(m) => concat2("OAuth failed: ", m.as_str()),
            AppError::Auth(m) => concat2("Authentication failed: ", m.as_str()),
        }
    }
}

/// The outcome of a remote call by its status: success when the status
/// says so, else a message error made of `prefix`, the status text and
/// `suffix`.
pub fn require_success(ok: bool, status: &str, prefix: &str, suffix: &str) -> (r: AppResult<()>)
    ensures
        ok ==> r is Ok,
        !ok ==> (r matches Err(e) && is_message(e, prefix@ + status@ + suffix@)),
{
    if ok {
        Ok(())
    } else {
        Err(AppError::Message(concat3(prefix, status, suffix)))
    }
}

} // verus!
