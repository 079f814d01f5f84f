//! Reading a format version from the first byte of a header.

use vstd::prelude::*;

verus! {

/// The format versions that a header can announce.
#[derive(Debug, Clone, Copy, PartialEq, Eq)]
pub enum Version {
    Version1,
    Version2,
}

/// The error reported for a header with no bytes.
pub open spec fn invalid_length_message() -> &'static str {
    "invalid header length"
}

/// The error reported for a header whose first byte names no known version.
pub open spec fn invalid_version_message() -> &'static str {
    "invalid version"
}

/// What a header parses to: the version that its first byte names.
pub open spec fn parsed_version(header: Seq<u8>) -> Result<Version, &'static str> {
    if header.len() == 0 {
        Err(invalid_length_message())
    } else if header[0] == 1 {
        Ok(Version::Version1)
    } else if header[0] == 2 {
        Ok(Version::Version2)
    } else {
        Err(invalid_version_message())
    }
}

/// Reads the version from the first byte of `header`. Bytes after the first
/// are not looked at.
pub fn parse_version(header: &[u8]) -> (out: Result<Version, &'static str>)
    ensures
        out == parsed_version(header@),
{
    match header.get(0) {
        None => Err("invalid header length"),
        Some(first) => {
            if *first == 1 {
                Ok(Version::Version1)
            } else if *first == 2 {
                Ok(Version::Version2)
            } else {
                Err("invalid version")
            }
        },
    }
}

/// The two error messages are different texts.
pub proof fn lemma_messages_differ()
    ensures
        invalid_length_message()@ != invalid_version_message()@,
        invalid_length_message() != invalid_version_message(),
{
    reveal_strlit("invalid header length");
    reveal_strlit("invalid version");
    assert(invalid_length_message()@.len() == 21);
    assert(invalid_version_message()@.len() == 15);
}

} // verus!
