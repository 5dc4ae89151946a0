//! Error taxonomy for the screen subsystem.

use vstd::prelude::*;

verus! {

/// Every failure a command or registry operation can report.
///
/// No error is fatal: the world and the scheduler keep running whatever a
/// single command's outcome was.
#[derive(Clone, Copy, Debug, PartialEq, Eq, Structural)]
pub enum Error {
    /// A stale or unknown entity identifier.
    NotFound,
    /// A browser surface failed to initialize.
    CreationError,
    /// The aim ray misses the visible surface or originates behind it.
    GeometryError,
    /// A malformed numeric or time argument.
    FormatError,
    /// An underlying browser operation failed, carrying its native status.
    SurfaceError(i32),
}

impl Error {
    /// Wraps a browser operation's native failure status, as the shell
    /// reports it back.
    pub fn from_surface_status(status: i32) -> (r: Error)
        ensures
            r == Error::SurfaceError(status),
    {
        Error::SurfaceError(status)
    }
}

} // verus!
