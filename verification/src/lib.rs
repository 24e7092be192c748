//! Core library for a font preview and management tool.
//!
//! The library owns the font lifecycle registry, the render pipeline with
//! payload decoding and cache gating, and the discovery query translation.
//! Platform font stores, font validators, foreign render engines and the
//! discovery search engine are collaborators reached through traits; the
//! surrounding application injects real implementations.

use vstd::prelude::*;

pub mod assoc;
pub mod cache;
pub mod discovery;
pub mod engine;
pub mod files;
pub mod registry;
pub mod render;
pub mod text;
pub mod ui;

verus! {

/// Errors reported by the core operations.
#[derive(Debug, Clone, PartialEq)]
pub enum TestypfError {
    /// Text rendering failed: a foreign-engine failure or a malformed payload.
    RenderFailed(String),
    /// A platform font store delegation or verification failed.
    FontManagementFailed(String),
    /// A font file was rejected: validation, parsing, or a duplicate path.
    InvalidFont(String),
    /// A filesystem error passed through from a collaborator.
    IoError(String),
    /// Discovery query construction or search failed.
    DiscoveryFailed(String),
}

impl TestypfError {
    /// The bare message carried by the error, whatever its kind.
    pub open spec fn msg(&self) -> Seq<char> {
        match self {
            TestypfError::RenderFailed(m) => m@,
            TestypfError::FontManagementFailed(m) => m@,
            TestypfError::InvalidFont(m) => m@,
            TestypfError::IoError(m) => m@,
            TestypfError::DiscoveryFailed(m) => m@,
        }
    }

    /// The prefix used when describing the error kind in words.
    pub open spec fn kind_prefix(&self) -> Seq<char> {
        match self {
            TestypfError::RenderFailed(_) => "Font rendering failed: "@,
            TestypfError::FontManagementFailed(_) => "Font management failed: "@,
            TestypfError::InvalidFont(_) => "Invalid font file: "@,
            TestypfError::IoError(_) => "IO error: "@,
            TestypfError::DiscoveryFailed(_) => "Font discovery failed: "@,
        }
    }

    /// A human-readable description: the kind's prefix followed by the message.
    pub fn describe(&self) -> (r: String)
        ensures
            r@ == self.kind_prefix() + self.msg(),
    {
        let mut out: String = match self {
            TestypfError::RenderFailed(_) => String::from_str("Font rendering failed: "),
            TestypfError::FontManagementFailed(_) => String::from_str("Font management failed: "),
            TestypfError::InvalidFont(_) => String::from_str("Invalid font file: "),
            TestypfError::IoError(_) => String::from_str("IO error: "),
            TestypfError::DiscoveryFailed(_) => String::from_str("Font discovery failed: "),
        };
        let m: &String = match self {
            TestypfError::RenderFailed(m) => m,
            TestypfError::FontManagementFailed(m) => m,
            TestypfError::InvalidFont(m) => m,
            TestypfError::IoError(m) => m,
            TestypfError::DiscoveryFailed(m) => m,
        };
        out.append(m.as_str());
        out
    }
}

/// Result type shared by the core operations.
pub type TestypfResult<T> = Result<T, TestypfError>;

} // verus!
