use vstd::prelude::*;

verus! {

/// A native window handle, carried as the integer value of the pointer.
#[derive(Clone, Copy, Debug, PartialEq, Eq, Hash, Structural)]
pub struct SendHWND(pub isize);

} // verus!
