//! The common shape of every GPU-side object: it carries an opaque handle.

use vstd::prelude::*;

verus! {

/// Opaque non-negative integer naming a GPU-side resource.
pub type Handle = u32;

/// The reserved sentinel handle meaning "no object".
pub const NO_OBJECT: Handle = 0;

/// Anything that owns a GPU-side object and can tell its handle.
pub trait GlObject {
    /// The handle of the underlying GPU object, at the specification level.
    spec fn handle(&self) -> Handle;

    /// The handle of the underlying GPU object.
    fn id(&self) -> (h: Handle)
        ensures
            h == self.handle(),
    ;
}

} // verus!
