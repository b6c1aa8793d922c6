//! The failure taxonomy of the build pipeline.

use vstd::prelude::*;
use vstd::string::StringExecFns;

verus! {

/// Everything that can go wrong while driving the toolchain.
///
/// `ToolchainSpawn` and `StreamDecode` carry a human-readable description of
/// the underlying condition; the remaining variants are fully described by
/// their name.
pub enum Error {
    /// The toolchain subprocess could not be started.
    ToolchainSpawn(String),
    /// A line of the build-event stream looked like a structured event but
    /// could not be decoded as one.
    StreamDecode(String),
    /// The toolchain exited with a non-zero status.
    ToolchainBuildFailed,
    /// The toolchain exited successfully but never reported a compiler
    /// artifact.
    NoArtifactProduced,
    /// The metadata query's output could not be decoded.
    MetadataDecode,
}

impl Error {
    /// A short stable description of the error, usable by callers that need
    /// to print it.
    pub fn describe(&self) -> (r: String)
        ensures
            match self {
                Error::ToolchainSpawn(msg) => r@ == "failed to spawn the toolchain: "@ + msg@,
                Error::StreamDecode(msg) => r@ == "failed to decode a build event: "@ + msg@,
                Error::ToolchainBuildFailed => r@ == "the toolchain build failed"@,
                Error::NoArtifactProduced => r@ == "the build produced no artifact"@,
                Error::MetadataDecode => r@ == "failed to decode the metadata output"@,
            },
    {
        match self {
            Error::ToolchainSpawn(msg) => {
                let mut s = String::new();
                s.append("failed to spawn the toolchain: ");
                s.append(msg.as_str());
                proof {
                    assert(s@ =~= "failed to spawn the toolchain: "@ + msg@);
                }
                s
            },
            Error::StreamDecode(msg) => {
                let mut s = String::new();
                s.append("failed to decode a build event: ");
                s.append(msg.as_str());
                proof {
                    assert(s@ =~= "failed to decode a build event: "@ + msg@);
                }
                s
            },
            Error::ToolchainBuildFailed => {
                String::from_str("the toolchain build failed")
            },
            Error::NoArtifactProduced => {
                String::from_str("the build produced no artifact")
            },
            Error::MetadataDecode => {
                String::from_str("failed to decode the metadata output")
            },
        }
    }
}

} // verus!
