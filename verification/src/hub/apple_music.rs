//! The catalog search against Apple Music.

use vstd::prelude::*;

verus! {

/// The Apple Music backend. It is a name to select by; no search stands
/// behind it yet.
#[derive(Debug, Clone, Copy, PartialEq, Eq)]
pub struct AppleMusic;

} // verus!
