use vstd::prelude::*;

use crate::abi::{decode_paymaster_context, decode_paymaster_return};
use crate::callstack::{find_paymaster_call, find_paymaster_call_exec, parse_call_stack, reduce_calls};
use crate::codehash::{addresses_of, contract_addresses, equal_code_hashes, same_code_hashes};
use crate::errors::SimulateValidationError;
use crate::opcodes::{forbidden_opcodes, forbidden_verdict};
use crate::pool::UoPool;
use crate::stake::{extract_stake_info, signature, spec_stake_vector};
use crate::storage::{storage_access, storage_verdict};
use crate::types::{
    entity_of_level, CallEntry, CodeHash, SimulateValidationResult, SimulationResult,
    StakeInfo, StakeInfoV, TraceFrame, TraceFrameV, UserOperation, UserOperationV,
};
use crate::util::{bytes_view, clone_bytes};

verus! {

/// An error from the EntryPoint client, as the driver reports it back.
#[derive(Debug)]
pub enum EntryPointError {
    FailedOp { message: String },
    Other,
}

/// An error obtaining or parsing the validation trace.
#[derive(Debug)]
pub enum TraceError {
    FailedOp { message: String },
    Other,
    Parse { message: String },
}

/// Where a simulation stands between two outside calls. The driver performs
/// the call the stage asks for and feeds the outcome into the next
/// transition:
///
/// - `AwaitingValidation`: run `simulateValidation` against the EntryPoint.
/// - `AwaitingTrace`: run the traced simulation and parse the trace.
/// - `AwaitingStakeVerdict`: ask the reputation store whether the paymaster
///   is staked.
/// - `AwaitingCodeHashes`: fetch the bytecode of the listed addresses and
///   hash each.
/// - `AwaitingHashPresence`: ask the mempool whether a prior code-hash set
///   exists for this operation.
/// - `AwaitingPriorHashes`: read that prior set.
#[derive(Debug)]
pub enum SimulationStage {
    AwaitingValidation { user_op: UserOperation },
    AwaitingTrace { user_op: UserOperation, sim_result: SimulateValidationResult },
    AwaitingStakeVerdict {
        sim_result: SimulateValidationResult,
        paymaster: StakeInfo,
        addresses: Vec<Vec<u8>>,
    },
    AwaitingCodeHashes { sim_result: SimulateValidationResult, addresses: Vec<Vec<u8>> },
    AwaitingHashPresence { sim_result: SimulateValidationResult, code_hashes: Vec<CodeHash> },
    AwaitingPriorHashes { sim_result: SimulateValidationResult, code_hashes: Vec<CodeHash> },
    Done { result: SimulationResult },
    Failed { error: SimulateValidationError },
}

/// What the paymaster-context rule finds in a trace: no completed paymaster
/// validation call to check, a return frame that does not decode, or the
/// decoded context.
pub open spec fn pm_context(trace: TraceFrameV, stakes: Seq<StakeInfoV>) -> Option<Option<Seq<u8>>> {
    match find_paymaster_call(reduce_calls(trace.calls), stakes[2].address) {
        Some(c) => match c.ret {
            Some(ret) => match decode_paymaster_context(ret) {
                None => Some(None),
                Some(ctx) => Some(Some(ctx)),
            },
            None => None,
        },
        None => None,
    }
}

/// Starts a simulation: the first outside call is the validation itself.
pub fn start_simulation(user_op: UserOperation) -> (r: SimulationStage)
    ensures
        r matches SimulationStage::AwaitingValidation { user_op: u } && u@ == user_op@,
{
    SimulationStage::AwaitingValidation { user_op }
}

/// Consumes the outcome of `simulateValidation`: a failed operation is
/// rejected with its message, any other client error as unknown; a result
/// whose signature check failed is refused; otherwise the trace is next.
pub fn on_validation_result(
    stage: SimulationStage,
    outcome: Result<SimulateValidationResult, EntryPointError>,
) -> (r: SimulationStage)
    requires
        stage matches SimulationStage::AwaitingValidation { .. },
    ensures
        (outcome matches Err(EntryPointError::FailedOp { message }) ==> (
        r matches SimulationStage::Failed { error } && (
        error matches SimulateValidationError::UserOperationRejected { message: m } && m@
            == message@))),
        (outcome matches Err(EntryPointError::Other) ==> (
        r matches SimulationStage::Failed { error } && (
        error matches SimulateValidationError::UserOperationRejected { message: m } && m@
            == "unknown error"@))),
        (outcome matches Ok(res) ==> (res.data().return_info.sig_failed ==> (
        r matches SimulationStage::Failed { error } && error
            == SimulateValidationError::SignatureValidation))),
        (outcome matches Ok(res) ==> (!res.data().return_info.sig_failed ==> (stage matches
        SimulationStage::AwaitingValidation { user_op } ==> (
        r matches SimulationStage::AwaitingTrace { user_op: u, sim_result } && u@ == user_op@
            && sim_result == res)))),
{
    let user_op = match stage {
        SimulationStage::AwaitingValidation { user_op } => user_op,
        _ => {
            proof {
                assert(false);
            }
            return SimulationStage::Failed {
                error: SimulateValidationError::SignatureValidation,
            };
        },
    };
    match outcome {
        Err(EntryPointError::FailedOp { message }) => SimulationStage::Failed {
            error: SimulateValidationError::UserOperationRejected { message },
        },
        Err(EntryPointError::Other) => SimulationStage::Failed {
            error: SimulateValidationError::UserOperationRejected {
                message: "unknown error".to_owned(),
            },
        },
        Ok(res) => match signature(&res) {
            Err(e) => SimulationStage::Failed { error: e },
            Ok(()) => SimulationStage::AwaitingTrace { user_op, sim_result: res },
        },
    }
}

/// The refused stage an opcode violation produces.
pub open spec fn opcode_failure(r: SimulationStage, v: (int, crate::types::Opcode)) -> bool {
    &&& r matches SimulationStage::Failed { error }
    &&& r->Failed_error == (SimulateValidationError::OpcodeValidation {
        entity: entity_of_level(v.0),
        opcode: v.1,
    })
}

/// The refused stage a storage violation produces.
pub open spec fn storage_failure(r: SimulationStage, out: Seq<u8>) -> bool {
    &&& r matches SimulationStage::Failed { error }
    &&& r->Failed_error matches SimulateValidationError::StorageAccessValidation { slot }
    &&& r->Failed_error->StorageAccessValidation_slot@ == out
}

/// The rejected stage an undecodable paymaster return produces.
pub open spec fn unknown_rejection(r: SimulationStage) -> bool {
    &&& r matches SimulationStage::Failed { error }
    &&& r->Failed_error matches SimulateValidationError::UserOperationRejected { message }
    &&& r->Failed_error->UserOperationRejected_message@ == "unknown error"@
}

/// The stage that asks the driver for the paymaster's stake verdict.
pub open spec fn awaiting_stake(
    r: SimulationStage,
    res: SimulateValidationResult,
    stakes: Seq<StakeInfoV>,
    trace: TraceFrameV,
) -> bool {
    &&& r matches SimulationStage::AwaitingStakeVerdict { sim_result, paymaster, addresses }
    &&& r->AwaitingStakeVerdict_sim_result == res
    &&& r->AwaitingStakeVerdict_paymaster@ == stakes[2]
    &&& bytes_view(r->AwaitingStakeVerdict_addresses@) == addresses_of(trace.number_levels)
}

/// The stage that asks the driver for the code-hash fetch.
pub open spec fn awaiting_hashes(
    r: SimulationStage,
    res: SimulateValidationResult,
    trace: TraceFrameV,
) -> bool {
    &&& r matches SimulationStage::AwaitingCodeHashes { sim_result, addresses }
    &&& r->AwaitingCodeHashes_sim_result == res
    &&& bytes_view(r->AwaitingCodeHashes_addresses@) == addresses_of(trace.number_levels)
}

/// Everything the trace transition promises of a trace that was obtained
/// and parsed.
pub open spec fn trace_ok_post(
    r: SimulationStage,
    uo: UserOperationV,
    res: SimulateValidationResult,
    ep: Seq<u8>,
    trace: TraceFrameV,
) -> bool {
    let stakes = spec_stake_vector(uo, res.data());
    let fv = forbidden_verdict(trace.number_levels);
    let sv = storage_verdict(uo, ep, trace, stakes);
    let pc = pm_context(trace, stakes);
    &&& (fv matches Some(v) ==> opcode_failure(r, v))
    &&& (fv is None ==> (sv matches Some(out) ==> storage_failure(r, out)))
    &&& (fv is None && sv is None && pc == Some(Option::<Seq<u8>>::None) ==> unknown_rejection(r))
    &&& (fv is None && sv is None ==> (pc matches Some(Some(ctx)) ==> (ctx.len() > 0
        ==> awaiting_stake(r, res, stakes, trace))))
    &&& (fv is None && sv is None && pc is None ==> awaiting_hashes(r, res, trace))
    &&& (fv is None && sv is None ==> (pc matches Some(Some(ctx)) ==> (ctx.len() == 0
        ==> awaiting_hashes(r, res, trace))))
}

/// Consumes the traced simulation: client and parse errors reject the
/// operation; otherwise the stake vector is extracted and the forbidden
/// opcode, storage access and paymaster-context rules run. If the paymaster
/// returned a non-empty context, its stake must be confirmed next;
/// otherwise the code hashes are fetched.
pub fn on_trace(
    pool: &UoPool,
    stage: SimulationStage,
    outcome: Result<TraceFrame, TraceError>,
) -> (r: SimulationStage)
    requires
        pool.wf(),
        stage matches SimulationStage::AwaitingTrace { user_op, .. } && user_op.wf(),
    ensures
        (outcome matches Err(TraceError::FailedOp { message }) ==> (
        r matches SimulationStage::Failed { error } && (
        error matches SimulateValidationError::UserOperationRejected { message: m } && m@
            == message@))),
        (outcome matches Err(TraceError::Other) ==> (
        r matches SimulationStage::Failed { error } && (
        error matches SimulateValidationError::UserOperationRejected { message: m } && m@
            == "unknown error"@))),
        (outcome matches Err(TraceError::Parse { message }) ==> (
        r matches SimulationStage::Failed { error } && (
        error matches SimulateValidationError::UserOperationRejected { message: m } && m@
            == message@))),
        (stage matches SimulationStage::AwaitingTrace { user_op, sim_result } ==> (
        outcome matches Ok(trace) ==> trace_ok_post(
            r,
            user_op@,
            sim_result,
            pool.entry_point@,
            trace@,
        ))),
{
    let (user_op, sim_result) = match stage {
        SimulationStage::AwaitingTrace { user_op, sim_result } => (user_op, sim_result),
        _ => {
            proof {
                assert(false);
            }
            return SimulationStage::Failed {
                error: SimulateValidationError::SignatureValidation,
            };
        },
    };
    let trace = match outcome {
        Err(TraceError::FailedOp { message }) => {
            return SimulationStage::Failed {
                error: SimulateValidationError::UserOperationRejected { message },
            };
        },
        Err(TraceError::Other) => {
            return SimulationStage::Failed {
                error: SimulateValidationError::UserOperationRejected {
                    message: "unknown error".to_owned(),
                },
            };
        },
        Err(TraceError::Parse { message }) => {
            return SimulationStage::Failed {
                error: SimulateValidationError::UserOperationRejected { message },
            };
        },
        Ok(trace) => trace,
    };
    let stake_info_by_entity = extract_stake_info(&user_op, &sim_result);
    if let Err(e) = forbidden_opcodes(&trace) {
        return SimulationStage::Failed { error: e };
    }
    if let Err(e) = storage_access(&user_op, &pool.entry_point, &stake_info_by_entity, &trace) {
        return SimulationStage::Failed { error: e };
    }
    let mut calls: Vec<CallEntry> = Vec::new();
    proof {
        assert(calls@.map_values(|c: CallEntry| c@) =~= Seq::<crate::types::CallEntryV>::empty());
    }
    let _ = parse_call_stack(&trace, &mut calls);
    proof {
        assert(Seq::<crate::types::CallEntryV>::empty() + reduce_calls(trace@.calls)
            =~= reduce_calls(trace@.calls));
    }
    let addresses = contract_addresses(&trace);
    let pm = find_paymaster_call_exec(&calls, &stake_info_by_entity[2].address);
    let ghost stakes = spec_stake_vector(user_op@, sim_result.data());
    proof {
        assert(stake_info_by_entity@[2]@ == stakes[2]);
    }
    if let Some(p) = pm {
        let ret_present = calls[p].ret.is_some();
        if ret_present {
            let decoded = match &calls[p].ret {
                Some(ret) => decode_paymaster_return(ret),
                None => None,
            };
            match decoded {
                None => {
                    return SimulationStage::Failed {
                        error: SimulateValidationError::UserOperationRejected {
                            message: "unknown error".to_owned(),
                        },
                    };
                },
                Some(ctx) => {
                    if ctx.len() > 0 {
                        let paymaster = StakeInfo {
                            address: clone_bytes(&stake_info_by_entity[2].address),
                            stake: stake_info_by_entity[2].stake,
                            unstake_delay: stake_info_by_entity[2].unstake_delay,
                        };
                        return SimulationStage::AwaitingStakeVerdict {
                            sim_result,
                            paymaster,
                            addresses,
                        };
                    }
                },
            }
        }
    }
    SimulationStage::AwaitingCodeHashes { sim_result, addresses }
}

/// Consumes the reputation store's stake verdict for a paymaster that
/// returned a non-empty context: an unstaked paymaster is refused.
pub fn on_stake_verdict(stage: SimulationStage, stake_ok: bool) -> (r: SimulationStage)
    requires
        stage matches SimulationStage::AwaitingStakeVerdict { .. },
    ensures
        (!stake_ok ==> (r matches SimulationStage::Failed { error } && (
        error matches SimulateValidationError::CallStackValidation { message } && message@
            == "Paymaster that is not staked should not return context"@))),
        (stake_ok ==> (stage matches SimulationStage::AwaitingStakeVerdict {
            sim_result,
            addresses,
            ..
        } ==> (
        r matches SimulationStage::AwaitingCodeHashes { sim_result: sr, addresses: a } && sr
            == sim_result && bytes_view(a@) == bytes_view(addresses@)))),
{
    let (sim_result, addresses) = match stage {
        SimulationStage::AwaitingStakeVerdict { sim_result, addresses, .. } => (
            sim_result,
            addresses,
        ),
        _ => {
            proof {
                assert(false);
            }
            return SimulationStage::Failed {
                error: SimulateValidationError::SignatureValidation,
            };
        },
    };
    if !stake_ok {
        SimulationStage::Failed {
            error: SimulateValidationError::CallStackValidation {
                message: "Paymaster that is not staked should not return context".to_owned(),
            },
        }
    } else {
        SimulationStage::AwaitingCodeHashes { sim_result, addresses }
    }
}

/// Consumes the code-hash fetch: it is all or nothing, and a failed fetch
/// ends the simulation with an unknown error.
pub fn on_code_hashes(
    stage: SimulationStage,
    outcome: Result<Vec<CodeHash>, ()>,
) -> (r: SimulationStage)
    requires
        stage matches SimulationStage::AwaitingCodeHashes { .. },
    ensures
        (outcome matches Err(()) ==> (r matches SimulationStage::Failed { error } && (
        error matches SimulateValidationError::UnknownError { error: m } && m@
            == "failed to get code hashes"@))),
        (outcome matches Ok(hashes) ==> (stage matches SimulationStage::AwaitingCodeHashes {
            sim_result,
            ..
        } ==> (
        r matches SimulationStage::AwaitingHashPresence { sim_result: sr, code_hashes } && sr
            == sim_result && code_hashes@.map_values(|c: CodeHash| c@) == hashes@.map_values(
            |c: CodeHash| c@,
        )))),
{
    let sim_result = match stage {
        SimulationStage::AwaitingCodeHashes { sim_result, .. } => sim_result,
        _ => {
            proof {
                assert(false);
            }
            return SimulationStage::Failed {
                error: SimulateValidationError::SignatureValidation,
            };
        },
    };
    match outcome {
        Err(()) => SimulationStage::Failed {
            error: SimulateValidationError::UnknownError {
                error: "failed to get code hashes".to_owned(),
            },
        },
        Ok(code_hashes) => SimulationStage::AwaitingHashPresence { sim_result, code_hashes },
    }
}

/// Consumes the mempool's answer whether a prior code-hash set exists: on
/// the first simulation the fresh set is the result; on a second
/// simulation the prior set is read next; a store error is unknown.
pub fn on_hash_presence(stage: SimulationStage, outcome: Result<bool, String>) -> (r:
    SimulationStage)
    requires
        stage matches SimulationStage::AwaitingHashPresence { .. },
    ensures
        (outcome matches Err(m) ==> (r matches SimulationStage::Failed { error } && (
        error matches SimulateValidationError::UnknownError { error: e } && e@ == m@))),
        (stage matches SimulationStage::AwaitingHashPresence { sim_result, code_hashes } ==> {
            &&& (outcome matches Ok(false) ==> (
            r matches SimulationStage::Done { result } && result.simulate_validation_result
                == sim_result && result.code_hashes@.map_values(|c: CodeHash| c@)
                == code_hashes@.map_values(|c: CodeHash| c@)))
            &&& (outcome matches Ok(true) ==> (
            r matches SimulationStage::AwaitingPriorHashes { sim_result: sr, code_hashes: ch }
                && sr == sim_result && ch@.map_values(|c: CodeHash| c@) == code_hashes@.map_values(
                |c: CodeHash| c@,
            )))
        }),
{
    let (sim_result, code_hashes) = match stage {
        SimulationStage::AwaitingHashPresence { sim_result, code_hashes } => (
            sim_result,
            code_hashes,
        ),
        _ => {
            proof {
                assert(false);
            }
            return SimulationStage::Failed {
                error: SimulateValidationError::SignatureValidation,
            };
        },
    };
    match outcome {
        Err(m) => SimulationStage::Failed {
            error: SimulateValidationError::UnknownError { error: m },
        },
        Ok(false) => SimulationStage::Done {
            result: SimulationResult { simulate_validation_result: sim_result, code_hashes },
        },
        Ok(true) => SimulationStage::AwaitingPriorHashes { sim_result, code_hashes },
    }
}

/// Consumes the prior code-hash set of a second simulation: the fresh and
/// prior sets must hold the same multiset of `(address, hash)` pairs, else
/// the code changed since the first simulation.
pub fn on_prior_hashes(stage: SimulationStage, prior_code_hashes: Vec<CodeHash>) -> (r:
    SimulationStage)
    requires
        stage matches SimulationStage::AwaitingPriorHashes { .. },
    ensures
        (stage matches SimulationStage::AwaitingPriorHashes { sim_result, code_hashes } ==> {
            let fresh = code_hashes@.map_values(|c: CodeHash| c@);
            let prior = prior_code_hashes@.map_values(|c: CodeHash| c@);
            &&& (same_code_hashes(fresh, prior) ==> (
            r matches SimulationStage::Done { result } && result.simulate_validation_result
                == sim_result && result.code_hashes@.map_values(|c: CodeHash| c@) == fresh))
            &&& (!same_code_hashes(fresh, prior) ==> (
            r matches SimulationStage::Failed { error } && (
            error matches SimulateValidationError::CodeHashesValidation { message } && message@
                == "modified code after 1st simulation"@)))
        }),
{
    let (sim_result, code_hashes) = match stage {
        SimulationStage::AwaitingPriorHashes { sim_result, code_hashes } => (
            sim_result,
            code_hashes,
        ),
        _ => {
            proof {
                assert(false);
            }
            return SimulationStage::Failed {
                error: SimulateValidationError::SignatureValidation,
            };
        },
    };
    if equal_code_hashes(&code_hashes, &prior_code_hashes) {
        SimulationStage::Done {
            result: SimulationResult { simulate_validation_result: sim_result, code_hashes },
        }
    } else {
        SimulationStage::Failed {
            error: SimulateValidationError::CodeHashesValidation {
                message: "modified code after 1st simulation".to_owned(),
            },
        }
    }
}

} // verus!
