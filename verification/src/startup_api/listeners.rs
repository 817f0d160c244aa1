//! Provides listeners

use vstd::prelude::*;
use crate::project::ProjectError;

verus! {

/// A listener than can be added to a type.
pub trait Listener {
    type Listened;

    /// Add a listener to freight
    fn add_listener(self, freight: &mut Self::Listened) -> Result<(), ProjectError>;
}

} // verus!
