//! Failures of project storage and the message each one reads as.

use vstd::prelude::*;

use crate::media_ref::MediaRef;
use crate::text::{decimal_text, hex_text, push_decimal, push_hex_prefix, push_str};

verus! {

/// A failure of the host's byte backend, as the backend reports it.
#[derive(Clone, PartialEq, Eq, Debug)]
pub enum StoreFailure {
    /// The backend itself (filesystem, OPFS, an embedded store) failed; the
    /// text is the backend's own error.
    Backend(String),
    /// Encoding or decoding a typed value through a codec failed.
    Codec(String),
}

/// The display text of a backend failure: `backend: ` or `codec: `, then
/// the backend's own text.
pub open spec fn store_failure_text(f: StoreFailure) -> Seq<char> {
    match f {
        StoreFailure::Backend(m) => "backend: "@ + m@,
        StoreFailure::Codec(m) => "codec: "@ + m@,
    }
}

/// Why a project could not be saved or loaded.
#[derive(Debug)]
pub enum ProjectStoreError {
    /// The byte backend failed.
    Store(StoreFailure),
    /// The manifest could not be encoded or decoded; the text is the codec's.
    Manifest(String),
    /// The backend holds no manifest.
    MissingManifest,
    /// A save names media that the caller's media store does not hold: these
    /// references, ascending, each once.
    MissingMedia(Vec<MediaRef>),
    /// A stored blob is not a readable phrase.
    InvalidMedia { reference: MediaRef, reason: &'static str },
    /// Encoding a phrase failed; the text is the encoder's.
    MediaEncode(String),
    /// Audio does not hash to the reference that names it.
    MediaHashMismatch { expected: MediaRef, actual: MediaRef },
}

/// The message of each failure.
pub open spec fn error_message(e: ProjectStoreError) -> Seq<char> {
    match e {
        ProjectStoreError::Store(f) => "storage failed: "@ + store_failure_text(f),
        ProjectStoreError::Manifest(m) => "project manifest failed: "@ + m@,
        ProjectStoreError::MissingManifest => "project manifest is missing"@,
        ProjectStoreError::MissingMedia(refs) => "project save is missing "@ + decimal_text(
            refs@.len(),
        ) + " media blob(s)"@,
        ProjectStoreError::InvalidMedia { reference, reason } => "media "@ + hex_text(
            reference.bytes@,
        ) + " is invalid: "@ + reason@,
        ProjectStoreError::MediaEncode(m) => "media encoding failed: "@ + m@,
        ProjectStoreError::MediaHashMismatch { expected, actual } => "media hash mismatch: expected "@
            + hex_text(expected.bytes@) + ", found "@ + hex_text(actual.bytes@),
    }
}

/// Appends the 64 hex digits of a reference.
fn push_reference(s: &mut String, r: &MediaRef)
    ensures
        final(s)@ == old(s)@ + hex_text(r.bytes@),
{
    let bytes: &[u8] = r.bytes.as_slice();
    push_hex_prefix(s, bytes, 32);
    assert(r.bytes@.take(32) =~= r.bytes@);
}

impl ProjectStoreError {
    /// The human-readable message of this failure.
    pub fn message(&self) -> (m: String)
        ensures
            m@ == error_message(*self),
            match *self {
                ProjectStoreError::Store(StoreFailure::Backend(t)) => m@ == "storage failed: "@
                    + "backend: "@ + t@,
                ProjectStoreError::Store(StoreFailure::Codec(t)) => m@ == "storage failed: "@
                    + "codec: "@ + t@,
                ProjectStoreError::Manifest(t) => m@ == "project manifest failed: "@ + t@,
                ProjectStoreError::MissingManifest => m@ == "project manifest is missing"@,
                ProjectStoreError::MissingMedia(refs) => m@ == "project save is missing "@
                    + decimal_text(refs@.len()) + " media blob(s)"@,
                ProjectStoreError::InvalidMedia { reference, reason } => m@ == "media "@ + hex_text(
                    reference.bytes@,
                ) + " is invalid: "@ + reason@,
                ProjectStoreError::MediaEncode(t) => m@ == "media encoding failed: "@ + t@,
                ProjectStoreError::MediaHashMismatch { expected, actual } => m@
                    == "media hash mismatch: expected "@ + hex_text(expected.bytes@) + ", found "@
                    + hex_text(actual.bytes@),
            },
    {
        let mut m = String::new();
        match self {
            ProjectStoreError::Store(f) => {
                push_str(&mut m, "storage failed: ");
                match f {
                    StoreFailure::Backend(t) => {
                        push_str(&mut m, "backend: ");
                        push_str(&mut m, t.as_str());
                    },
                    StoreFailure::Codec(t) => {
                        push_str(&mut m, "codec: ");
                        push_str(&mut m, t.as_str());
                    },
                }
            },
            ProjectStoreError::Manifest(t) => {
                push_str(&mut m, "project manifest failed: ");
                push_str(&mut m, t.as_str());
            },
            ProjectStoreError::MissingManifest => {
                push_str(&mut m, "project manifest is missing");
            },
            ProjectStoreError::MissingMedia(refs) => {
                push_str(&mut m, "project save is missing ");
                push_decimal(&mut m, refs.len() as u64);
                push_str(&mut m, " media blob(s)");
            },
            ProjectStoreError::InvalidMedia { reference, reason } => {
                push_str(&mut m, "media ");
                push_reference(&mut m, reference);
                push_str(&mut m, " is invalid: ");
                push_str(&mut m, reason);
            },
            ProjectStoreError::MediaEncode(t) => {
                push_str(&mut m, "media encoding failed: ");
                push_str(&mut m, t.as_str());
            },
            ProjectStoreError::MediaHashMismatch { expected, actual } => {
                push_str(&mut m, "media hash mismatch: expected ");
                push_reference(&mut m, expected);
                push_str(&mut m, ", found ");
                push_reference(&mut m, actual);
            },
        }
        m
    }
}

impl From<StoreFailure> for ProjectStoreError {
    fn from(failure: StoreFailure) -> (r: Self) {
        ProjectStoreError::Store(failure)
    }
}

impl vstd::std_specs::convert::FromSpecImpl<StoreFailure> for ProjectStoreError {
    open spec fn obeys_from_spec() -> bool {
        true
    }

    open spec fn from_spec(v: StoreFailure) -> Self {
        ProjectStoreError::Store(v)
    }
}

} // verus!
