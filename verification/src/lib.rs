//! Verified core of a build pipeline that drives an external compiler
//! toolchain to produce a single dynamically loadable library artifact.
//!
//! The library covers the pure logic of that pipeline: constructing the
//! toolchain's argument lists, resolving the artifact path from the
//! toolchain's structured build-event stream, decoding the toolchain's
//! metadata query, and serializing the synthetic package descriptors used
//! to steer an isolated build.  Spawning and waiting on the subprocess is
//! left to the (unverified) caller, which hands the outcomes back in as
//! plain values.

pub mod cargo;
pub mod error;
pub mod events;
pub mod manifest;
pub mod strings;
