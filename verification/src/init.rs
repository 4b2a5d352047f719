//! Process initialization.

use vstd::prelude::*;

use crate::error::{Failure, OdErrorCode};

verus! {

/// Whether the process has a crypto provider to go on with.  Another library may
/// have installed one before, or while this one tried to.
pub fn provider_ready(had_provider: bool, installed: bool, has_provider: bool) -> (ready: Result<
    (),
    Failure,
>)
    ensures
        ready is Ok <==> had_provider || installed || has_provider,
        ready matches Err(e) ==> e.is(
            OdErrorCode::Unexpected,
            "failed to install rustls crypto provider"@,
        ),
{
    if had_provider || installed || has_provider {
        Ok(())
    } else {
        Err(Failure::new(OdErrorCode::Unexpected, "failed to install rustls crypto provider"))
    }
}

} // verus!
