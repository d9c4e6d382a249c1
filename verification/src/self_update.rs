//! Decisions of the application's self-update: which release files to
//! fetch, and how the copy of the new executable and the clean-up after it
//! are retried.
use vstd::prelude::*;

verus! {

/// The two files a release publishes: its version description and its
/// archive.
#[derive(Clone, Copy, Debug, PartialEq, Eq, Structural)]
pub enum ReleaseFile {
    Version,
    Archive,
}

/// The release file to fetch: release builds fetch the `latest-rel` files,
/// other builds the `latest-dev` ones; the version description is a `.json`
/// file and the archive a `.zip` file.
pub fn release_file_name(is_release_target: bool, file: ReleaseFile) -> (r: &'static str)
    ensures
        r@ == (if is_release_target { "latest-rel"@ } else { "latest-dev"@ }) + match file {
            ReleaseFile::Version => ".json"@,
            ReleaseFile::Archive => ".zip"@,
        },
{
    proof {
        reveal_strlit("latest-rel");
        reveal_strlit("latest-dev");
        reveal_strlit(".json");
        reveal_strlit(".zip");
        reveal_strlit("latest-rel.json");
        reveal_strlit("latest-rel.zip");
        reveal_strlit("latest-dev.json");
        reveal_strlit("latest-dev.zip");
    }
    let r = match (is_release_target, file) {
        (true, ReleaseFile::Version) => "latest-rel.json",
        (true, ReleaseFile::Archive) => "latest-rel.zip",
        (false, ReleaseFile::Version) => "latest-dev.json",
        (false, ReleaseFile::Archive) => "latest-dev.zip",
    };
    assert(r@ =~= (if is_release_target { "latest-rel"@ } else { "latest-dev"@ }) + match file {
        ReleaseFile::Version => ".json"@,
        ReleaseFile::Archive => ".zip"@,
    });
    r
}

/// How many times a file operation of the update is tried before giving up.
pub const UPDATE_ATTEMPTS: usize = 10;

/// What to do after one attempt to copy the new executable over the old.
#[derive(Clone, Copy, Debug, PartialEq, Eq, Structural)]
pub enum CopyStep {
    /// The copy is done: start the new executable.
    Restart,
    /// Wait two seconds and try again, with this many attempts left.
    RetryAfterWait(usize),
    /// Every attempt failed: after a last wait, ask whether to start over.
    AskToRetry,
}

/// The copy is tried up to ten times, two seconds apart; `attempts_left`
/// counts the attempts not yet made, this one included.
pub fn copy_step(attempts_left: usize, copied: bool) -> (r: CopyStep)
    requires
        attempts_left >= 1,
    ensures
        copied ==> r == CopyStep::Restart,
        !copied && attempts_left > 1 ==> r == CopyStep::RetryAfterWait((attempts_left - 1) as usize),
        !copied && attempts_left == 1 ==> r == CopyStep::AskToRetry,
{
    if copied {
        CopyStep::Restart
    } else if attempts_left > 1 {
        CopyStep::RetryAfterWait(attempts_left - 1)
    } else {
        CopyStep::AskToRetry
    }
}

/// How an attempt to remove the downloaded executable went.
#[derive(Clone, Copy, Debug, PartialEq, Eq, Structural)]
pub enum RemoveOutcome {
    Removed,
    NotFound,
    Failed,
}

/// What to do after one attempt to remove the downloaded executable.
#[derive(Clone, Copy, Debug, PartialEq, Eq, Structural)]
pub enum CleanupStep {
    /// Nothing is left to clean up.
    Done,
    /// Wait two seconds and try again, with this many attempts left.
    RetryAfterWait(usize),
    /// Every attempt failed (after a last wait).
    GiveUp,
}

/// The clean-up ends once the file is gone (removed now or not there), and
/// is tried up to ten times, two seconds apart.
pub fn cleanup_step(attempts_left: usize, outcome: RemoveOutcome) -> (r: CleanupStep)
    requires
        attempts_left >= 1,
    ensures
        outcome != RemoveOutcome::Failed ==> r == CleanupStep::Done,
        outcome == RemoveOutcome::Failed && attempts_left > 1 ==> r == CleanupStep::RetryAfterWait(
            (attempts_left - 1) as usize,
        ),
        outcome == RemoveOutcome::Failed && attempts_left == 1 ==> r == CleanupStep::GiveUp,
{
    match outcome {
        RemoveOutcome::Removed => CleanupStep::Done,
        RemoveOutcome::NotFound => CleanupStep::Done,
        RemoveOutcome::Failed => if attempts_left > 1 {
            CleanupStep::RetryAfterWait(attempts_left - 1)
        } else {
            CleanupStep::GiveUp
        },
    }
}

} // verus!
