use vstd::prelude::*;

verus! {

/// Drives the window animations; they only run while it is enabled.
pub struct AnimationManager {
    pub enabled: bool,
}

impl AnimationManager {
    /// An enabled animation manager.
    pub fn new() -> (r: Self)
        ensures
            r.enabled,
    {
        AnimationManager { enabled: true }
    }
}

} // verus!
