use vstd::prelude::*;

use crate::num::U256;
use crate::types::{is_address, Address};

verus! {

/// The configuration of one UserOperation pool: which EntryPoint it
/// simulates against, on which chain. The stores and clients that drive the
/// outside calls live with the driver.
pub struct UoPool {
    pub entry_point: Address,
    pub chain_id: U256,
}

impl UoPool {
    pub open spec fn wf(self) -> bool {
        is_address(self.entry_point@)
    }

    pub fn new(entry_point: Address, chain_id: U256) -> (r: UoPool)
        requires
            is_address(entry_point@),
        ensures
            r.wf(),
            r.entry_point@ == entry_point@,
            r.chain_id == chain_id,
    {
        UoPool { entry_point, chain_id }
    }
}

} // verus!
