//! The shared error taxonomy.

use vstd::prelude::*;

use crate::descriptor::DescriptorError;
use crate::text::{decimal, push_decimal};

verus! {

/// Errors raised by SDK operations.
#[derive(Debug)]
pub enum SdkError {
    /// Transport failure: network unreachable, timeout, malformed response.
    Transport(String),
    /// The peer answered with a structured rejection: the HTTP `status`, a
    /// short `reason` token and human-readable `detail`.
    Rejected { status: u16, reason: String, detail: String },
    /// Local cryptographic failure: a signature did not verify, a key could
    /// not be read.
    Crypto(String),
    /// Configuration error: a missing required setting, a mismatched key.
    Config(String),
    /// Storage backend error (delegation store, replay store).
    Storage(String),
    /// Descriptor encoding or decoding failed.
    Descriptor(DescriptorError),
    /// A protocol-level violation (expiry, invalid attenuation).
    Protocol(String),
}

impl SdkError {
    /// The error's message.
    pub open spec fn message(&self) -> Seq<char> {
        match self {
            SdkError::Transport(m) => "transport error: "@ + m@,
            SdkError::Rejected { status, reason, detail } => "rejected ("@ + decimal(
                *status as nat,
            ) + "): "@ + reason@ + ": "@ + detail@,
            SdkError::Crypto(m) => "crypto error: "@ + m@,
            SdkError::Config(m) => "configuration error: "@ + m@,
            SdkError::Storage(m) => "storage error: "@ + m@,
            SdkError::Descriptor(e) => e.message(),
            SdkError::Protocol(m) => "protocol error: "@ + m@,
        }
    }

    /// The error's message, as an owned string.
    pub fn to_message(&self) -> (s: String)
        ensures
            s@ == self.message(),
    {
        match self {
            SdkError::Transport(m) => {
                let mut s = String::from_str("transport error: ");
                s.append(m.as_str());
                s
            },
            SdkError::Rejected { status, reason, detail } => {
                let mut s = String::from_str("rejected (");
                push_decimal(&mut s, *status as u64);
                s.append("): ");
                s.append(reason.as_str());
                s.append(": ");
                s.append(detail.as_str());
                s
            },
            SdkError::Crypto(m) => {
                let mut s = String::from_str("crypto error: ");
                s.append(m.as_str());
                s
            },
            SdkError::Config(m) => {
                let mut s = String::from_str("configuration error: ");
                s.append(m.as_str());
                s
            },
            SdkError::Storage(m) => {
                let mut s = String::from_str("storage error: ");
                s.append(m.as_str());
                s
            },
            SdkError::Descriptor(e) => e.to_message(),
            SdkError::Protocol(m) => {
                let mut s = String::from_str("protocol error: ");
                s.append(m.as_str());
                s
            },
        }
    }
}

impl From<DescriptorError> for SdkError {
    fn from(e: DescriptorError) -> (r: SdkError) {
        SdkError::Descriptor(e)
    }
}

impl vstd::std_specs::convert::FromSpecImpl<DescriptorError> for SdkError {
    open spec fn obeys_from_spec() -> bool {
        true
    }

    open spec fn from_spec(e: DescriptorError) -> SdkError {
        SdkError::Descriptor(e)
    }
}

} // verus!
