//! Platform integration.
//!
//! Archive files have no system-wide handler association on this
//! platform, so the lookup always answers that none is registered;
//! executable-permission checks live in the driver.

use vstd::prelude::*;

use crate::error::Error;

verus! {

/// The default handler registered for archive files, which this
/// platform never has: the answer is always that none exists.
pub fn get_default_ba2_handler() -> (r: Result<Option<String>, Error>)
    ensures
        r matches Ok(h) && h is None,
{
    Ok(None)
}

} // verus!
