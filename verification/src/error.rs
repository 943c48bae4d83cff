//! The error taxonomy of the pipeline: validation failures, filesystem
//! failures with path context, backend failures, malformed backend
//! responses, and audio format mismatches between chunks.

use vstd::prelude::*;
use crate::audio::AudioSpec;
use crate::text::dec_rep;
use crate::text::u64_to_dec;

verus! {

/// What went wrong, with enough context to diagnose the failure: the
/// offending path, the offending chunk index, or the backend's message.
#[derive(Debug, PartialEq, Eq)]
pub enum Error {
    /// An input was rejected before any work was attempted, or there was
    /// nothing to work on.
    Validation { detail: String },
    /// A filesystem operation failed; `path` names the file or directory.
    Io { path: String, detail: String },
    /// The backend could not be reached, rejected the job, or reported the
    /// job aborted or timed out.
    Backend { detail: String },
    /// The backend answered, but the answer was malformed or incomplete.
    Protocol { detail: String },
    /// A result artifact's audio format differs from the authoritative one
    /// recorded from the first chunk.
    FormatMismatch { chunk: usize, expected: AudioSpec, found: AudioSpec },
}

impl Error {
    /// The descriptive message carried by this error.
    pub open spec fn message_spec(&self) -> Seq<char> {
        match self {
            Error::Validation { detail } => detail@,
            Error::Io { path, detail } => "filesystem error at '"@ + path@ + "': "@ + detail@,
            Error::Backend { detail } => "backend error: "@ + detail@,
            Error::Protocol { detail } => "protocol error: "@ + detail@,
            Error::FormatMismatch { chunk, .. } => "chunk "@ + dec_rep(*chunk as nat)
                + " has an audio format different from the first chunk"@,
        }
    }

    /// Renders the descriptive message.
    pub fn message(&self) -> (m: String)
        ensures
            m@ == self.message_spec(),
    {
        match self {
            Error::Validation { detail } => detail.clone(),
            Error::Io { path, detail } => {
                let mut m = String::from_str("filesystem error at '");
                m.append(path.as_str());
                m.append("': ");
                m.append(detail.as_str());
                proof {
                    assert(m@ =~= self.message_spec());
                }
                m
            },
            Error::Backend { detail } => {
                let mut m = String::from_str("backend error: ");
                m.append(detail.as_str());
                proof {
                    assert(m@ =~= self.message_spec());
                }
                m
            },
            Error::Protocol { detail } => {
                let mut m = String::from_str("protocol error: ");
                m.append(detail.as_str());
                proof {
                    assert(m@ =~= self.message_spec());
                }
                m
            },
            Error::FormatMismatch { chunk, .. } => {
                let mut m = String::from_str("chunk ");
                let d = u64_to_dec(*chunk as u64);
                m.append(d.as_str());
                m.append(" has an audio format different from the first chunk");
                proof {
                    assert(m@ =~= self.message_spec());
                }
                m
            },
        }
    }
}

} // verus!
