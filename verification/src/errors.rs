use vstd::prelude::*;

verus! {

/// Every failure the construction lifecycle and the polling core can surface.
#[derive(Debug, Clone, PartialEq, Eq)]
pub enum Error {
    /// The home directory was required but is unset.
    NoHomeVar,
    /// A location does not resolve to an existing file.
    InvalidLocation(String),
    /// The desktop-integration command could not run.
    CommandError(String),
    /// The schedule was empty at finalization.
    NoImagesLoaded,
    /// The descriptor list was empty, or already at the fixed capacity.
    TooImagesLoaded,
    /// A time string was not in 24-hour `HH:MM` form.
    ParseError,
}

pub type AppResult<T> = Result<T, Error>;

} // verus!
