//! The release check: whether the published release is newer than the
//! running build.  Fetching the release feed is outside work; the
//! version order is verified.
use crate::text::{all_digits, parse_u32, spec_digits_value, spec_split, split_bytes};
use vstd::prelude::*;
use vstd::string::StringSliceAdditionalSpecFns;

verus! {

/// A published release: where it lives and what it is called.
#[derive(Debug, Clone)]
pub struct Update {
    pub html_url: String,
    pub name: String,
}

/// A semantic version triple.
#[derive(Debug, Clone, Copy, PartialEq, Eq, Structural)]
pub struct Version {
    pub major: u32,
    pub minor: u32,
    pub patch: u32,
}

/// The version triple a text denotes: exactly three dot-separated
/// runs of digits, each fitting 32 bits.
pub open spec fn spec_parse_version(b: Seq<u8>) -> Option<Version> {
    let parts = spec_split(b, 0x2e);
    if parts.len() != 3 {
        None
    } else if !(parts[0].len() > 0 && all_digits(parts[0]) && spec_digits_value(parts[0])
        <= 0xffff_ffff) {
        None
    } else if !(parts[1].len() > 0 && all_digits(parts[1]) && spec_digits_value(parts[1])
        <= 0xffff_ffff) {
        None
    } else if !(parts[2].len() > 0 && all_digits(parts[2]) && spec_digits_value(parts[2])
        <= 0xffff_ffff) {
        None
    } else {
        Some(
            Version {
                major: spec_digits_value(parts[0]) as u32,
                minor: spec_digits_value(parts[1]) as u32,
                patch: spec_digits_value(parts[2]) as u32,
            },
        )
    }
}

/// Parses a `major.minor.patch` version text.
pub fn parse_version(s: &str) -> (r: Option<Version>)
    ensures
        r == spec_parse_version(s.spec_bytes()),
{
    let parts = split_bytes(s.as_bytes(), 0x2e);
    if parts.len() != 3 {
        return None;
    }
    proof {
        assert(parts@[0]@ == spec_split(s.spec_bytes(), 0x2e)[0]);
        assert(parts@[1]@ == spec_split(s.spec_bytes(), 0x2e)[1]);
        assert(parts@[2]@ == spec_split(s.spec_bytes(), 0x2e)[2]);
    }
    let major: u32 = match parse_u32(parts[0].as_slice()) {
        Some(v) => v,
        None => {
            return None;
        },
    };
    let minor: u32 = match parse_u32(parts[1].as_slice()) {
        Some(v) => v,
        None => {
            return None;
        },
    };
    let patch: u32 = match parse_u32(parts[2].as_slice()) {
        Some(v) => v,
        None => {
            return None;
        },
    };
    Some(Version { major, minor, patch })
}

/// Version order: by major, then minor, then patch.
pub open spec fn spec_version_gt(a: Version, b: Version) -> bool {
    a.major > b.major || (a.major == b.major && (a.minor > b.minor || (a.minor == b.minor
        && a.patch > b.patch)))
}

/// Whether `remote` is strictly newer than `current`.
pub fn is_newer(remote: &Version, current: &Version) -> (r: bool)
    ensures
        r == spec_version_gt(*remote, *current),
{
    if remote.major != current.major {
        remote.major > current.major
    } else if remote.minor != current.minor {
        remote.minor > current.minor
    } else {
        remote.patch > current.patch
    }
}

impl Update {
    /// Whether this release is newer than the running build; nothing
    /// when either version text is unreadable.
    pub fn newer_than(&self, current: &str) -> (r: Option<bool>)
        ensures
            match (
                spec_parse_version(vstd::utf8::encode_utf8(self.name@)),
                spec_parse_version(current.spec_bytes()),
            ) {
                (Some(remote), Some(cur)) => r == Some(spec_version_gt(remote, cur)),
                _ => r is None,
            },
    {
        let remote = match parse_version(self.name.as_str()) {
            Some(v) => v,
            None => {
                return None;
            },
        };
        let cur = match parse_version(current) {
            Some(v) => v,
            None => {
                return None;
            },
        };
        Some(is_newer(&remote, &cur))
    }
}

} // verus!
