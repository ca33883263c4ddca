//! The errors of the version lifecycle.

use crate::version::VersionError;
use vstd::prelude::*;

verus! {

#[derive(Debug, Clone, Copy, PartialEq, Eq, Structural)]
pub enum LifecycleError {
    /// A version text is malformed.
    Parse(VersionError),
    /// Connecting, a timeout or a response other than 2xx.
    Network,
    /// Downloaded bytes do not have the expected SHA-256 digest.
    ChecksumMismatch,
    /// Reading or writing the disk failed.
    Io,
    /// The version and variant are already completely installed.
    AlreadyInstalled,
    /// Nothing is installed under the version named.
    NotInstalled,
    /// The version named is the active one.
    ActiveVersionInUse,
    /// The archive did not unpack into a complete install.
    ExtractionIncomplete,
}

} // verus!
