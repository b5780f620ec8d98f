//! Validation of template keys and output paths: the rules that keep a
//! hostile catalogue entry or a careless output argument from writing
//! outside the places it should.

use vstd::prelude::*;

use crate::strkit::{byte_len, is_substring_of, seq_starts_with, str_byte_len, str_contains,
    str_starts_with};

verus! {

/// Why a template key was rejected.
#[derive(Clone, Copy, PartialEq, Eq, Structural, Debug)]
pub enum KeyError {
    /// The key is empty.
    Empty,
    /// The key holds a `..` sequence.
    ParentTraversal,
    /// The key starts with a path separator.
    LeadingSeparator,
    /// The key holds a backslash.
    Backslash,
    /// The key holds a null byte.
    NullByte,
    /// The key is longer than 255 bytes.
    TooLong,
}

/// What `validate_template_key` decides, in the order the checks run.
pub open spec fn key_verdict(key: Seq<char>) -> Result<(), KeyError> {
    if key.len() == 0 {
        Err(KeyError::Empty)
    } else if is_substring_of(seq!['.', '.'], key) {
        Err(KeyError::ParentTraversal)
    } else if seq_starts_with(key, seq!['/']) || seq_starts_with(key, seq!['\\']) {
        Err(KeyError::LeadingSeparator)
    } else if is_substring_of(seq!['\\'], key) {
        Err(KeyError::Backslash)
    } else if is_substring_of(seq!['\0'], key) {
        Err(KeyError::NullByte)
    } else if byte_len(key) > 255 {
        Err(KeyError::TooLong)
    } else {
        Ok(())
    }
}

/// Validate a template key against path traversal: non-empty, no `..`, no
/// leading separator, no backslash, no null byte, at most 255 bytes.
pub fn validate_template_key(key: &str) -> (r: Result<(), KeyError>)
    ensures
        r == key_verdict(key@),
{
    proof {
        reveal_strlit("..");
        reveal_strlit("/");
        reveal_strlit("\\");
        reveal_strlit("\0");
        assert(".."@ =~= seq!['.', '.']);
        assert("/"@ =~= seq!['/']);
        assert("\\"@ =~= seq!['\\']);
        assert("\0"@ =~= seq!['\0']);
    }
    if key.is_empty() {
        return Err(KeyError::Empty);
    }
    if str_contains(key, "..") {
        return Err(KeyError::ParentTraversal);
    }
    if str_starts_with(key, "/") || str_starts_with(key, "\\") {
        return Err(KeyError::LeadingSeparator);
    }
    if str_contains(key, "\\") {
        return Err(KeyError::Backslash);
    }
    if str_contains(key, "\0") {
        return Err(KeyError::NullByte);
    }
    if str_byte_len(key) > 255 {
        return Err(KeyError::TooLong);
    }
    Ok(())
}

/// Why an output path was rejected.
#[derive(PartialEq, Eq, Debug)]
pub enum PathError {
    /// The path escapes the working directory through a `..` pattern.
    SuspiciousPattern,
    /// The canonical path enters a system directory; the matched prefix is
    /// carried along.
    SystemDirectory(String),
}

/// The system directories nothing may be written into.
pub open spec fn dangerous_prefixes() -> Seq<Seq<char>> {
    seq![
        "/etc/"@,
        "/sys/"@,
        "/proc/"@,
        "/dev/"@,
        "/boot/"@,
        "/bin/"@,
        "/sbin/"@,
        "/usr/bin/"@,
        "/usr/sbin/"@,
    ]
}

/// Decide whether writing to a path is allowed. `canonical` is the
/// normalized absolute path and `raw` the path as the user wrote it; the
/// caller, who alone can ask the file system, reports in
/// `under_current_dir` whether the canonical path lies under the working
/// directory. A path outside the working directory whose raw form holds
/// `..` is rejected; a canonical path into a system directory is rejected
/// and the offending prefix reported, first match first.
pub fn check_output_path(canonical: &str, raw: &str, under_current_dir: bool) -> (r: Result<
    (),
    PathError,
>)
    ensures
        (!under_current_dir && is_substring_of(seq!['.', '.'], raw@)) ==> r == Err::<
            (),
            PathError,
        >(PathError::SuspiciousPattern),
        !(!under_current_dir && is_substring_of(seq!['.', '.'], raw@)) ==> match r {
            Ok(()) => forall|i: int|
                0 <= i < dangerous_prefixes().len() ==> !seq_starts_with(
                    canonical@,
                    #[trigger] dangerous_prefixes()[i],
                ),
            Err(PathError::SystemDirectory(p)) => exists|i: int|
                0 <= i < dangerous_prefixes().len() && p@ == #[trigger] dangerous_prefixes()[i]
                    && seq_starts_with(canonical@, dangerous_prefixes()[i]) && (forall|j: int|
                    0 <= j < i ==> !seq_starts_with(canonical@, #[trigger] dangerous_prefixes()[j])),
            Err(PathError::SuspiciousPattern) => false,
        },
{
    proof {
        reveal_strlit("..");
        assert(".."@ =~= seq!['.', '.']);
    }
    if !under_current_dir && str_contains(raw, "..") {
        return Err(PathError::SuspiciousPattern);
    }
    if str_starts_with(canonical, "/etc/") {
        proof {
            assert(dangerous_prefixes()[0] == "/etc/"@);
        }
        return Err(PathError::SystemDirectory("/etc/".to_owned()));
    }
    if str_starts_with(canonical, "/sys/") {
        proof {
            assert(dangerous_prefixes()[1] == "/sys/"@);
        }
        return Err(PathError::SystemDirectory("/sys/".to_owned()));
    }
    if str_starts_with(canonical, "/proc/") {
        proof {
            assert(dangerous_prefixes()[2] == "/proc/"@);
        }
        return Err(PathError::SystemDirectory("/proc/".to_owned()));
    }
    if str_starts_with(canonical, "/dev/") {
        proof {
            assert(dangerous_prefixes()[3] == "/dev/"@);
        }
        return Err(PathError::SystemDirectory("/dev/".to_owned()));
    }
    if str_starts_with(canonical, "/boot/") {
        proof {
            assert(dangerous_prefixes()[4] == "/boot/"@);
        }
        return Err(PathError::SystemDirectory("/boot/".to_owned()));
    }
    if str_starts_with(canonical, "/bin/") {
        proof {
            assert(dangerous_prefixes()[5] == "/bin/"@);
        }
        return Err(PathError::SystemDirectory("/bin/".to_owned()));
    }
    if str_starts_with(canonical, "/sbin/") {
        proof {
            assert(dangerous_prefixes()[6] == "/sbin/"@);
        }
        return Err(PathError::SystemDirectory("/sbin/".to_owned()));
    }
    if str_starts_with(canonical, "/usr/bin/") {
        proof {
            assert(dangerous_prefixes()[7] == "/usr/bin/"@);
        }
        return Err(PathError::SystemDirectory("/usr/bin/".to_owned()));
    }
    if str_starts_with(canonical, "/usr/sbin/") {
        proof {
            assert(dangerous_prefixes()[8] == "/usr/sbin/"@);
        }
        return Err(PathError::SystemDirectory("/usr/sbin/".to_owned()));
    }
    Ok(())
}

} // verus!
