//! Runtime shell of the scaffold: the type that names the assembled runtime
//! and its initialization hook. The runtime's only concrete component is the
//! ledger in `crate::ledger`.

use vstd::prelude::*;

verus! {

/// The assembled runtime of the platform.
pub struct AlsaniaRuntime;

/// Initialize the runtime shell; no ledger state is touched.
pub fn initialize() {
}

} // verus!
