use vstd::prelude::*;

verus! {

/// The failure taxonomy of the sync core.
///
/// `ConfigurationMissing` surfaces before any network call when no host,
/// user or course is set. `AuthenticationRequired` is raised by the session
/// layer and never recovered here. `NetworkFailure` and `FilesystemFailure`
/// are collected per task during a sync and are fatal only for catalog-level
/// retrieval. `MetaCorruption` means the persisted snapshot was unparsable.
/// `WorkspaceMismatch` means a submitted path lies under no known task
/// directory.
#[derive(Clone, Copy, Debug, PartialEq, Eq, Structural)]
pub enum CliError {
    ConfigurationMissing,
    AuthenticationRequired,
    NetworkFailure,
    FilesystemFailure,
    MetaCorruption,
    WorkspaceMismatch,
}

impl CliError {
    /// A short user-facing description of the failure.
    pub fn message(&self) -> (r: &'static str)
        ensures
            r@ == self.message_spec(),
    {
        match self {
            CliError::ConfigurationMissing => "Please configure the CLI first.",
            CliError::AuthenticationRequired => "Please log in first.",
            CliError::NetworkFailure => "A network request failed.",
            CliError::FilesystemFailure => "A filesystem operation failed.",
            CliError::MetaCorruption => "The stored metadata could not be read.",
            CliError::WorkspaceMismatch => "The path does not belong to any known task directory.",
        }
    }

    /// What `message` returns for each variant.
    pub open spec fn message_spec(&self) -> Seq<char> {
        match self {
            CliError::ConfigurationMissing => "Please configure the CLI first."@,
            CliError::AuthenticationRequired => "Please log in first."@,
            CliError::NetworkFailure => "A network request failed."@,
            CliError::FilesystemFailure => "A filesystem operation failed."@,
            CliError::MetaCorruption => "The stored metadata could not be read."@,
            CliError::WorkspaceMismatch => "The path does not belong to any known task directory."@,
        }
    }
}

} // verus!
