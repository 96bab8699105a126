//! Acknowledgments of token hand-overs.

use vstd::prelude::*;
use crate::error::ContractError;

verus! {

/// Accepts an acknowledged hand-over of a prize token and refuses a failed one.
///
/// A hand-over that was not acknowledged is fatal for the action that asked for it:
/// `Cw721TokenNotReceived`.
pub fn transfer_nft_reply(acknowledged: bool) -> (r: Result<(), ContractError>)
    ensures
        r == if acknowledged {
            Ok::<(), ContractError>(())
        } else {
            Err::<(), ContractError>(ContractError::Cw721TokenNotReceived)
        },
{
    if acknowledged {
        Ok(())
    } else {
        Err(ContractError::Cw721TokenNotReceived)
    }
}

} // verus!
