//! The command/response bus vocabulary: the commands a consumer issues,
//! the responses workers multiplex back, and the dispatch decision — which
//! commands the loop handles inline and which it spawns.
//!
//! The queues themselves are the application's (they are asynchronous
//! plumbing), and so are the shared completion signals and size counters
//! that travel alongside a command; the application pairs them with the
//! command when it enqueues one.
use vstd::prelude::*;

use crate::profiles::{Profile, ProfileOperation, PruneOptions, Repository};
use crate::types::{BackupCreateProgress, CheckComplete, CheckProgress, RepositoryArchives};

verus! {

/// A request from the consumer to the dispatch loop.
pub enum Command {
    /// Back up every active repository of the profile.
    CreateBackup(Profile),
    /// Persist the profile as it stands.
    SaveProfile(Profile),
    /// Apply one mutation to the profile, then persist it and republish
    /// the updated profile on the response bus.
    UpdateProfileAndSave(Profile, ProfileOperation),
    /// List the archives of one repository.
    ListArchives(Repository),
    /// Reclaim space in one repository.
    Compact(Repository),
    /// Remove archives outside the retention policy.
    Prune(Repository, PruneOptions),
    /// Measure a directory's size (path, exclude patterns).
    DetermineDirectorySize(String, Vec<String>),
    /// Look up directory suggestions for a path fragment.
    GetDirectorySuggestionsFor(String),
    /// Mount a repository or archive (repository, selector, mountpoint).
    Mount(Repository, String, String),
    /// Unmount whatever sits at the mountpoint.
    Unmount(String),
    /// Stop accepting new work.
    Quit,
}

/// An event multiplexed back to the consumer.
pub enum CommandResponse {
    CreateProgress(BackupCreateProgress),
    ListArchiveResult(RepositoryArchives),
    ProfileUpdated(Profile),
    Info(String),
    Error(String),
    /// A suggestion batch with its update generation, so stale batches
    /// can be discarded.
    SuggestionResults(Vec<String>, u64),
    /// A mount succeeded (selector, mountpoint).
    MountResult(String, String),
    CheckProgress(CheckProgress),
    CheckComplete(CheckComplete),
}

/// How the dispatch loop runs one command.
#[derive(Clone, Copy, Debug, PartialEq, Eq, Structural)]
pub enum DispatchMode {
    /// Fast and non-blocking: handled on the loop itself.
    Inline,
    /// Long-running or lock-taking: spawned as an independent task so the
    /// loop returns to the queue immediately.
    Spawn,
    /// Filesystem-heavy and synchronous: spawned on a blocking worker.
    SpawnBlocking,
    /// Stop the loop.
    Quit,
}

impl Command {
    /// The dispatch decision. Profile mutations and backup submission are
    /// inline (submission itself does not block: each repository's work is
    /// its own task); listing, compacting, pruning, mounting and
    /// unmounting are spawned; directory walks go to a blocking worker.
    pub fn dispatch_mode(&self) -> (r: DispatchMode)
        ensures
            r == (match self {
                Command::CreateBackup(_) => DispatchMode::Inline,
                Command::SaveProfile(_) => DispatchMode::Inline,
                Command::UpdateProfileAndSave(_, _) => DispatchMode::Inline,
                Command::ListArchives(_) => DispatchMode::Spawn,
                Command::Compact(_) => DispatchMode::Spawn,
                Command::Prune(_, _) => DispatchMode::Spawn,
                Command::DetermineDirectorySize(_, _) => DispatchMode::SpawnBlocking,
                Command::GetDirectorySuggestionsFor(_) => DispatchMode::SpawnBlocking,
                Command::Mount(_, _, _) => DispatchMode::Spawn,
                Command::Unmount(_) => DispatchMode::Spawn,
                Command::Quit => DispatchMode::Quit,
            }),
    {
        match self {
            Command::CreateBackup(_) => DispatchMode::Inline,
            Command::SaveProfile(_) => DispatchMode::Inline,
            Command::UpdateProfileAndSave(_, _) => DispatchMode::Inline,
            Command::ListArchives(_) => DispatchMode::Spawn,
            Command::Compact(_) => DispatchMode::Spawn,
            Command::Prune(_, _) => DispatchMode::Spawn,
            Command::DetermineDirectorySize(_, _) => DispatchMode::SpawnBlocking,
            Command::GetDirectorySuggestionsFor(_) => DispatchMode::SpawnBlocking,
            Command::Mount(_, _, _) => DispatchMode::Spawn,
            Command::Unmount(_) => DispatchMode::Spawn,
            Command::Quit => DispatchMode::Quit,
        }
    }

    /// Whether running this command requires holding the repository's
    /// exclusive lock (every operation that mutates repository state).
    pub fn requires_repo_lock(&self) -> (r: bool)
        ensures
            r == (self matches Command::CreateBackup(_) || self matches Command::Compact(_)
                || self matches Command::Prune(_, _)),
    {
        match self {
            Command::CreateBackup(_) => true,
            Command::Compact(_) => true,
            Command::Prune(_, _) => true,
            _ => false,
        }
    }
}

} // verus!
