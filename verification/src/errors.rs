//! The failures the finder reports, and their messages.
use vstd::prelude::*;

verus! {

/// A failure, with the detail that the failing part reported.
#[derive(Debug)]
pub enum AppError {
    /// The mount layout is neither `"1"` nor `"2"`.
    UnknownKvVersion,
    /// The editor could not be run.
    EditorFailed(String),
    /// The edited text is not a secret of the mount's layout.
    ParseFailed(String),
    /// The server refused the edited secret.
    UpdateFailed(String),
    /// The server did not give the secret to show.
    ReadFailed(String),
    /// The secret could not be written out as JSON.
    JsonFailed(String),
    /// The fuzzy finder failed.
    FinderFailed(String),
    /// Neither `BAO_ADDR` nor `VAULT_ADDR` is set.
    AddressNotSet,
    /// No token in the environment, and no token file.
    TokenNotFound,
}

/// The message shown for `e`.
pub open spec fn error_text(e: AppError) -> Seq<char> {
    match e {
        AppError::UnknownKvVersion => "Unknown KV version"@,
        AppError::EditorFailed(d) => "Failed to open secret in default editor - "@ + d@,
        AppError::ParseFailed(d) => "Failed to parse edited secret - "@ + d@,
        AppError::UpdateFailed(d) => "Failed to update secret - "@ + d@,
        AppError::ReadFailed(d) => "Could not read secret value - "@ + d@,
        AppError::JsonFailed(d) => d@,
        AppError::FinderFailed(d) => "Skim error - "@ + d@,
        AppError::AddressNotSet => "BAO_ADDR/VAULT_ADDR not set"@,
        AppError::TokenNotFound =>
            "OpenBao/Vault token not found. Set BAO_TOKEN/VAULT_TOKEN environment variable and try again."@,
    }
}

fn prefixed(head: &str, detail: &String) -> (res: String)
    ensures
        res@ == head@ + detail@,
{
    String::from_str(head).concat(detail.as_str())
}

impl AppError {
    /// The message shown for this failure.
    pub fn message(&self) -> (res: String)
        ensures
            res@ == error_text(*self),
    {
        match self {
            AppError::UnknownKvVersion => String::from_str("Unknown KV version"),
            AppError::EditorFailed(d) => prefixed("Failed to open secret in default editor - ", d),
            AppError::ParseFailed(d) => prefixed("Failed to parse edited secret - ", d),
            AppError::UpdateFailed(d) => prefixed("Failed to update secret - ", d),
            AppError::ReadFailed(d) => prefixed("Could not read secret value - ", d),
            AppError::JsonFailed(d) => d.clone(),
            AppError::FinderFailed(d) => prefixed("Skim error - ", d),
            AppError::AddressNotSet => String::from_str("BAO_ADDR/VAULT_ADDR not set"),
            AppError::TokenNotFound => String::from_str(
                "OpenBao/Vault token not found. Set BAO_TOKEN/VAULT_TOKEN environment variable and try again.",
            ),
        }
    }
}

} // verus!
