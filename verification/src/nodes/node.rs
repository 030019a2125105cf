//! The capability that every resource record shares.

use vstd::prelude::*;

verus! {

/// A resource record that can name its own kind.
pub trait Node {
    /// The name of the kind of resource that the record describes.
    fn node_type(&self) -> String;
}

} // verus!
