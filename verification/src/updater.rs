//! Pure decisions of the self-update flow: which published release is an
//! upgrade over the running version, how a downloaded archive is to be
//! unpacked, and how long a rate-limit window still has to run. The host
//! fetches releases, downloads and unpacks.

use vstd::prelude::*;

use crate::strkit::{seq_ends_with, str_ends_with};

verus! {

/// Whether `other` is a strictly greater semantic version than `current`,
/// or nothing when either string fails to parse as one. The comparison
/// depends on the two strings alone; the semver grammar and ordering are
/// not written out here.
pub uninterp spec fn semver_greater_of(current: Seq<char>, other: Seq<char>) -> Option<bool>;

/// Relies on `self_update::version::bump_is_greater`: whether `other` is
/// a strictly greater semver than `current`, with a parse failure folded
/// to `None`.
#[verifier::external_body]
fn version_bump_is_greater(current: &str, other: &str) -> (r: Option<bool>)
    ensures
        r == semver_greater_of(current@, other@),
{
    self_update::version::bump_is_greater(current, other).ok()
}

/// The outcome of scanning published releases, newest first, for an
/// upgrade.
#[derive(Clone, Copy, PartialEq, Eq, Structural, Debug)]
pub enum UpdateCheck {
    /// No release is newer than the running version.
    UpToDate,
    /// The release at this position is the first upgrade.
    Newer { index: usize },
    /// The version string at this position could not be compared; the
    /// scan stops there, as the flow treats an unreadable version as a
    /// failure.
    Invalid { index: usize },
}

/// Scan release version strings, in the given order, for the first one
/// strictly greater than `current`.
pub fn find_newer_release(current: &str, versions: &Vec<String>) -> (r: UpdateCheck)
    ensures
        match r {
            UpdateCheck::Newer { index } => index < versions@.len() && semver_greater_of(
                current@,
                versions@[index as int]@,
            ) == Some(true) && (forall|j: int|
                0 <= j < index ==> semver_greater_of(current@, (#[trigger] versions@[j])@)
                    == Some(false)),
            UpdateCheck::Invalid { index } => index < versions@.len() && semver_greater_of(
                current@,
                versions@[index as int]@,
            ) is None && (forall|j: int|
                0 <= j < index ==> semver_greater_of(current@, (#[trigger] versions@[j])@)
                    == Some(false)),
            UpdateCheck::UpToDate => forall|j: int|
                0 <= j < versions@.len() ==> semver_greater_of(
                    current@,
                    (#[trigger] versions@[j])@,
                ) == Some(false),
        },
{
    let n = versions.len();
    let mut i: usize = 0;
    while i < n
        invariant
            i <= n,
            n == versions@.len(),
            forall|j: int|
                0 <= j < i ==> semver_greater_of(current@, (#[trigger] versions@[j])@) == Some(
                    false,
                ),
        decreases n - i,
    {
        match version_bump_is_greater(current, versions[i].as_str()) {
            Some(true) => {
                return UpdateCheck::Newer { index: i };
            },
            Some(false) => {},
            None => {
                return UpdateCheck::Invalid { index: i };
            },
        }
        i += 1;
    }
    UpdateCheck::UpToDate
}

/// How a downloaded release asset is to be unpacked, by its file name.
#[derive(Clone, Copy, PartialEq, Eq, Structural, Debug)]
pub enum ArchiveKind {
    /// A `.tar.xz` archive.
    TarXz,
    /// A `.tar.gz` or `.tgz` archive.
    TarGz,
    /// A `.zip` archive.
    Zip,
    /// Anything else: taken as the bare binary.
    Raw,
}

/// The archive kind a file name announces.
pub open spec fn spec_archive_kind(name: Seq<char>) -> ArchiveKind {
    if seq_ends_with(name, ".tar.xz"@) {
        ArchiveKind::TarXz
    } else if seq_ends_with(name, ".tar.gz"@) || seq_ends_with(name, ".tgz"@) {
        ArchiveKind::TarGz
    } else if seq_ends_with(name, ".zip"@) {
        ArchiveKind::Zip
    } else {
        ArchiveKind::Raw
    }
}

/// Classify a release asset by its file name.
pub fn classify_archive_name(file_name: &str) -> (r: ArchiveKind)
    ensures
        r == spec_archive_kind(file_name@),
{
    if str_ends_with(file_name, ".tar.xz") {
        ArchiveKind::TarXz
    } else if str_ends_with(file_name, ".tar.gz") || str_ends_with(file_name, ".tgz") {
        ArchiveKind::TarGz
    } else if str_ends_with(file_name, ".zip") {
        ArchiveKind::Zip
    } else {
        ArchiveKind::Raw
    }
}

/// How long a rate-limit window still has to run, as whole minutes and
/// leftover seconds; zero when the reset lies in the past.
pub fn rate_limit_wait(reset: u64, now: u64) -> (r: (u64, u64))
    ensures
        r.0 == (if reset > now {
            ((reset - now) / 60) as int
        } else {
            0int
        }),
        r.1 == (if reset > now {
            ((reset - now) % 60) as int
        } else {
            0int
        }),
{
    if reset > now {
        let wait = reset - now;
        (wait / 60, wait % 60)
    } else {
        (0, 0)
    }
}

} // verus!
