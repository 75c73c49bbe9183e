//! The cancellation flag of a search, held by an explicit registry that the
//! caller owns instead of a process-wide singleton.

use vstd::prelude::*;

use std::sync::atomic::{AtomicBool, Ordering};
use std::sync::Arc;

verus! {

/// Holds the shared cancellation flag once it has been created.
pub struct CancelRegistry {
    flag: Option<Arc<AtomicBool>>,
}

impl CancelRegistry {
    /// The flag has been created.
    pub closed spec fn is_initialized(&self) -> bool {
        self.flag is Some
    }

    /// The registry's flag, once created.
    pub closed spec fn flag(&self) -> Arc<AtomicBool> {
        self.flag->0
    }

    /// `f` is the registry's flag.
    pub closed spec fn holds(&self, f: Arc<AtomicBool>) -> bool {
        self.flag == Some(f)
    }

    /// A registry whose flag is not created yet.
    pub fn new() -> (r: CancelRegistry)
        ensures
            !r.is_initialized(),
    {
        CancelRegistry { flag: None }
    }
}

/// Relies on `Arc::clone`: a second handle to the same flag.
#[verifier::external_body]
fn share_flag(f: &Arc<AtomicBool>) -> (r: Arc<AtomicBool>)
    ensures
        r == *f,
{
    Arc::clone(f)
}

/// A handle to the cancellation flag, created (unset) on first use; later
/// calls leave the registry as it is and hand out the same flag.
pub fn get_cancel_flag(registry: &mut CancelRegistry) -> (r: Arc<AtomicBool>)
    ensures
        final(registry).is_initialized(),
        final(registry).holds(r),
        r == final(registry).flag(),
        old(registry).is_initialized() ==> *final(registry) == *old(registry),
{
    match &registry.flag {
        Some(f) => share_flag(f),
        None => {
            let f = Arc::new(AtomicBool::new(false));
            let r = share_flag(&f);
            registry.flag = Some(f);
            r
        },
    }
}

/// Clears the flag at the start of a search; does nothing before the flag
/// exists.
pub fn reset_cancel_flag(registry: &CancelRegistry) {
    if let Some(f) = &registry.flag {
        f.store(false, Ordering::SeqCst);
    }
}

/// Requests cancellation of the running search; does nothing before the
/// flag exists.
pub fn cancel_generation(registry: &CancelRegistry) {
    if let Some(f) = &registry.flag {
        f.store(true, Ordering::SeqCst);
    }
}

} // verus!
