use vstd::prelude::*;

use crate::errors::SimulateValidationError;
use crate::types::{
    is_address, SimulateValidationResult, StakeInfo, StakeInfoV, UserOperation, UserOperationV,
};
use crate::util::{bytes_prefix, clone_bytes};

verus! {

/// The signature gate: a result whose return information flags a failed
/// signature is refused outright.
pub fn signature(simulate_validation_result: &SimulateValidationResult) -> (r: Result<
    (),
    SimulateValidationError,
>)
    ensures
        r is Ok <==> !simulate_validation_result.data().return_info.sig_failed,
        r is Err ==> r == Err::<(), SimulateValidationError>(
            SimulateValidationError::SignatureValidation,
        ),
{
    let sig_failed = match simulate_validation_result {
        SimulateValidationResult::ValidationResult(d) => d.return_info.sig_failed,
        SimulateValidationResult::ValidationResultWithAggregation(d) => d.return_info.sig_failed,
    };
    if sig_failed {
        Err(SimulateValidationError::SignatureValidation)
    } else {
        Ok(())
    }
}

/// The address of the factory entity: the first 20 bytes of `initCode` when
/// it is at least 20 bytes long, otherwise the zero address.
pub open spec fn spec_factory_address(uo: UserOperationV) -> Seq<u8> {
    if uo.init_code.len() >= 20 {
        uo.init_code.subrange(0, 20)
    } else {
        Seq::new(20, |i: int| 0u8)
    }
}

/// The address of the paymaster entity: the first 20 bytes of
/// `paymasterAndData` when it is at least 20 bytes long, otherwise the zero
/// address.
pub open spec fn spec_paymaster_address(uo: UserOperationV) -> Seq<u8> {
    if uo.paymaster_and_data.len() >= 20 {
        uo.paymaster_and_data.subrange(0, 20)
    } else {
        Seq::new(20, |i: int| 0u8)
    }
}

/// The stake vector a simulation result and UserOperation determine:
/// factory, account, paymaster, in level order.
pub open spec fn spec_stake_vector(uo: UserOperationV, d: crate::types::ValidationData) -> Seq<
    StakeInfoV,
> {
    seq![
        StakeInfoV {
            address: spec_factory_address(uo),
            stake: crate::num::u256_val(d.factory_info.stake),
            unstake_delay: crate::num::u256_val(d.factory_info.unstake_delay),
        },
        StakeInfoV {
            address: uo.sender,
            stake: crate::num::u256_val(d.sender_info.stake),
            unstake_delay: crate::num::u256_val(d.sender_info.unstake_delay),
        },
        StakeInfoV {
            address: spec_paymaster_address(uo),
            stake: crate::num::u256_val(d.paymaster_info.stake),
            unstake_delay: crate::num::u256_val(d.paymaster_info.unstake_delay),
        },
    ]
}

/// The 3-vector of per-entity stake information the later checks run on.
pub open spec fn stakes_wf(stakes: Seq<StakeInfoV>) -> bool {
    stakes.len() == 3 && forall|i: int| 0 <= i < 3 ==> is_address(#[trigger] stakes[i].address)
}

/// Populates the fixed 3-vector (factory, account, paymaster) from the
/// UserOperation bytes and the simulation result.
pub fn extract_stake_info(
    user_operation: &UserOperation,
    simulate_validation_result: &SimulateValidationResult,
) -> (r: Vec<StakeInfo>)
    requires
        user_operation.wf(),
    ensures
        r@.len() == 3,
        r@[0]@ == (StakeInfoV {
            address: spec_factory_address(user_operation@),
            stake: crate::num::u256_val(simulate_validation_result.data().factory_info.stake),
            unstake_delay: crate::num::u256_val(
                simulate_validation_result.data().factory_info.unstake_delay,
            ),
        }),
        r@[1]@ == (StakeInfoV {
            address: user_operation@.sender,
            stake: crate::num::u256_val(simulate_validation_result.data().sender_info.stake),
            unstake_delay: crate::num::u256_val(
                simulate_validation_result.data().sender_info.unstake_delay,
            ),
        }),
        r@[2]@ == (StakeInfoV {
            address: spec_paymaster_address(user_operation@),
            stake: crate::num::u256_val(simulate_validation_result.data().paymaster_info.stake),
            unstake_delay: crate::num::u256_val(
                simulate_validation_result.data().paymaster_info.unstake_delay,
            ),
        }),
        stakes_wf(r@.map_values(|s: StakeInfo| s@)),
        r@.map_values(|s: StakeInfo| s@) == spec_stake_vector(
            user_operation@,
            simulate_validation_result.data(),
        ),
{
    let data = match simulate_validation_result {
        SimulateValidationResult::ValidationResult(d) => *d,
        SimulateValidationResult::ValidationResultWithAggregation(d) => *d,
    };

    let factory_address = if user_operation.init_code.len() >= 20 {
        bytes_prefix(&user_operation.init_code, 20)
    } else {
        crate::types::zero_address()
    };
    let paymaster_address = if user_operation.paymaster_and_data.len() >= 20 {
        bytes_prefix(&user_operation.paymaster_and_data, 20)
    } else {
        crate::types::zero_address()
    };

    let mut r: Vec<StakeInfo> = Vec::new();
    r.push(
        StakeInfo {
            address: factory_address,
            stake: data.factory_info.stake,
            unstake_delay: data.factory_info.unstake_delay,
        },
    );
    r.push(
        StakeInfo {
            address: clone_bytes(&user_operation.sender),
            stake: data.sender_info.stake,
            unstake_delay: data.sender_info.unstake_delay,
        },
    );
    r.push(
        StakeInfo {
            address: paymaster_address,
            stake: data.paymaster_info.stake,
            unstake_delay: data.paymaster_info.unstake_delay,
        },
    );
    proof {
        if user_operation@.init_code.len() < 20 {
            assert(r@[0]@.address =~= spec_factory_address(user_operation@));
        }
        if user_operation@.paymaster_and_data.len() < 20 {
            assert(r@[2]@.address =~= spec_paymaster_address(user_operation@));
        }
        assert(r@.map_values(|s: StakeInfo| s@) =~= spec_stake_vector(
            user_operation@,
            simulate_validation_result.data(),
        ));
    }
    r
}

} // verus!
