//! Source positions, and values that carry one.

use vstd::prelude::*;

verus! {

/// A position in the source text.
#[derive(Clone, Copy, Debug, PartialEq, Eq, Hash, Structural)]
pub struct Location {
    pub file: u32,
    pub line: u32,
    pub column: u32,
}

/// A payload together with the position it came from.
#[derive(Clone, Debug, PartialEq, Eq)]
pub struct Locatable<T> {
    pub data: T,
    pub location: Location,
}

impl Default for Location {
    fn default() -> (r: Location)
        ensures
            r == (Location { file: 0, line: 0, column: 0 }),
    {
        Location { file: 0, line: 0, column: 0 }
    }
}

impl Location {
    /// Attaches this position to `data`.
    pub fn with<T>(self, data: T) -> (r: Locatable<T>)
        ensures
            r == (Locatable { data, location: self }),
    {
        Locatable { data, location: self }
    }
}

} // verus!
