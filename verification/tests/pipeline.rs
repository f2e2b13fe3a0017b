use uopool::errors::{
    rpc_error_code, rpc_message, SimulateValidationError, INTERNAL_ERROR_CODE,
    OPCODE_VALIDATION_ERROR_CODE, SIGNATURE_FAILED_ERROR_CODE, SIMULATE_VALIDATION_ERROR_CODE,
};
use uopool::machine::{
    on_code_hashes, on_hash_presence, on_prior_hashes, on_stake_verdict, on_trace,
    on_validation_result, start_simulation, EntryPointError, SimulationStage, TraceError,
};
use uopool::num::U256;
use uopool::pool::UoPool;
use uopool::types::{
    CallEvent, CallKind, CodeHash, ContractSizeEntry, Entity, EntityInfo, LevelInfo, Opcode,
    OpcodeCount, ReturnInfo, SimulateValidationResult, TraceFrame, UserOperation, ValidationData,
};

fn addr(n: u8) -> Vec<u8> {
    let mut v = vec![0u8; 20];
    v[19] = n;
    v
}

fn zero_u256() -> U256 {
    U256 { hi: 0, lo: 0 }
}

fn validation_result(sig_failed: bool, paymaster_stake: u64) -> SimulateValidationResult {
    SimulateValidationResult::ValidationResult(ValidationData {
        factory_info: EntityInfo { stake: zero_u256(), unstake_delay: zero_u256() },
        sender_info: EntityInfo { stake: zero_u256(), unstake_delay: zero_u256() },
        paymaster_info: EntityInfo {
            stake: U256::from_u64(paymaster_stake),
            unstake_delay: zero_u256(),
        },
        return_info: ReturnInfo { sig_failed },
    })
}

fn empty_level() -> LevelInfo {
    LevelInfo { opcodes: Vec::new(), access: Vec::new(), contract_size: Vec::new() }
}

fn user_op(sender: Vec<u8>, init_code: Vec<u8>, paymaster_and_data: Vec<u8>) -> UserOperation {
    UserOperation { sender, init_code, paymaster_and_data }
}

fn pool() -> UoPool {
    UoPool::new(addr(0xEE), U256::from_u64(1))
}

fn empty_trace() -> TraceFrame {
    TraceFrame { number_levels: Vec::new(), keccak: Vec::new(), calls: Vec::new() }
}

/// The 64-byte-head ABI frame `(bytes context, uint256 value)` with the
/// given context bytes.
fn paymaster_return(context: &[u8]) -> Vec<u8> {
    let mut d = vec![0u8; 64];
    d[31] = 64;
    let mut len_word = vec![0u8; 32];
    len_word[31] = context.len() as u8;
    d.extend_from_slice(&len_word);
    d.extend_from_slice(context);
    while d.len() % 32 != 0 {
        d.push(0);
    }
    d
}

#[test]
fn happy_path_without_paymaster() {
    let uo = user_op(addr(0x11), Vec::new(), Vec::new());
    let stage = start_simulation(uo);
    let stage = on_validation_result(stage, Ok(validation_result(false, 0)));
    assert!(matches!(stage, SimulationStage::AwaitingTrace { .. }));
    let stage = on_trace(&pool(), stage, Ok(empty_trace()));
    match &stage {
        SimulationStage::AwaitingCodeHashes { addresses, .. } => {
            assert!(addresses.is_empty());
        },
        other => panic!("unexpected stage: {other:?}"),
    }
    let stage = on_code_hashes(stage, Ok(Vec::new()));
    assert!(matches!(stage, SimulationStage::AwaitingHashPresence { .. }));
    let stage = on_hash_presence(stage, Ok(false));
    match stage {
        SimulationStage::Done { result } => {
            assert!(result.code_hashes.is_empty());
        },
        other => panic!("unexpected stage: {other:?}"),
    }
}

#[test]
fn signature_failure_is_refused() {
    let uo = user_op(addr(0x11), Vec::new(), Vec::new());
    let stage = start_simulation(uo);
    let stage = on_validation_result(stage, Ok(validation_result(true, 0)));
    match stage {
        SimulationStage::Failed { error } => {
            assert_eq!(error, SimulateValidationError::SignatureValidation);
            assert_eq!(rpc_error_code(&error), SIGNATURE_FAILED_ERROR_CODE);
            assert_eq!(
                rpc_message(&error),
                "Invalid UserOp signature or paymaster signature"
            );
        },
        other => panic!("unexpected stage: {other:?}"),
    }
}

#[test]
fn failed_op_is_rejected_with_message() {
    let uo = user_op(addr(0x11), Vec::new(), Vec::new());
    let stage = start_simulation(uo);
    let stage = on_validation_result(
        stage,
        Err(EntryPointError::FailedOp { message: String::from("AA21 didn't pay prefund") }),
    );
    match stage {
        SimulationStage::Failed { error } => {
            assert_eq!(rpc_error_code(&error), SIMULATE_VALIDATION_ERROR_CODE);
            assert_eq!(rpc_message(&error), "AA21 didn't pay prefund");
        },
        other => panic!("unexpected stage: {other:?}"),
    }
}

#[test]
fn banned_opcode_at_account_level() {
    let uo = user_op(addr(0x11), Vec::new(), Vec::new());
    let stage = start_simulation(uo);
    let stage = on_validation_result(stage, Ok(validation_result(false, 0)));
    let mut level1 = empty_level();
    level1.opcodes.push(OpcodeCount { opcode: Opcode::Timestamp, count: 1 });
    let trace = TraceFrame {
        number_levels: vec![empty_level(), level1],
        keccak: Vec::new(),
        calls: Vec::new(),
    };
    let stage = on_trace(&pool(), stage, Ok(trace));
    match stage {
        SimulationStage::Failed { error } => {
            assert_eq!(
                error,
                SimulateValidationError::OpcodeValidation {
                    entity: Entity::Account,
                    opcode: Opcode::Timestamp,
                }
            );
            assert_eq!(rpc_error_code(&error), OPCODE_VALIDATION_ERROR_CODE);
            assert_eq!(rpc_message(&error), "account uses banned opcode: TIMESTAMP");
        },
        other => panic!("unexpected stage: {other:?}"),
    }
}

#[test]
fn create2_once_at_factory_is_admitted() {
    let factory = addr(0xFA);
    let mut init_code = factory.clone();
    init_code.extend_from_slice(&[1, 2, 3]);
    let uo = user_op(addr(0x11), init_code, Vec::new());
    let stage = start_simulation(uo);
    let stage = on_validation_result(stage, Ok(validation_result(false, 0)));
    let mut level0 = empty_level();
    level0.opcodes.push(OpcodeCount { opcode: Opcode::Create2, count: 1 });
    let trace = TraceFrame { number_levels: vec![level0], keccak: Vec::new(), calls: Vec::new() };
    let stage = on_trace(&pool(), stage, Ok(trace));
    assert!(matches!(stage, SimulationStage::AwaitingCodeHashes { .. }));
}

#[test]
fn create2_twice_at_factory_is_refused() {
    let factory = addr(0xFA);
    let mut init_code = factory.clone();
    init_code.extend_from_slice(&[1, 2, 3]);
    let uo = user_op(addr(0x11), init_code, Vec::new());
    let stage = start_simulation(uo);
    let stage = on_validation_result(stage, Ok(validation_result(false, 0)));
    let mut level0 = empty_level();
    level0.opcodes.push(OpcodeCount { opcode: Opcode::Create2, count: 2 });
    let trace = TraceFrame { number_levels: vec![level0], keccak: Vec::new(), calls: Vec::new() };
    let stage = on_trace(&pool(), stage, Ok(trace));
    match stage {
        SimulationStage::Failed { error } => {
            assert_eq!(
                error,
                SimulateValidationError::OpcodeValidation {
                    entity: Entity::Factory,
                    opcode: Opcode::Create2,
                }
            );
        },
        other => panic!("unexpected stage: {other:?}"),
    }
}

#[test]
fn unstaked_paymaster_returning_context_is_refused() {
    let paymaster = addr(0xAB);
    let mut pm_data = paymaster.clone();
    pm_data.extend_from_slice(&[9, 9]);
    let uo = user_op(addr(0x11), Vec::new(), pm_data);
    let stage = start_simulation(uo);
    let stage = on_validation_result(stage, Ok(validation_result(false, 0)));
    let selector = vec![0xf4, 0x65, 0xc7, 0x7e];
    let call_in = CallEvent {
        kind: CallKind::Call,
        from: Some(addr(0xEE)),
        to: Some(paymaster.clone()),
        method: Some(selector),
        value: None,
        data: None,
    };
    let ret = CallEvent {
        kind: CallKind::Return,
        from: None,
        to: None,
        method: None,
        value: None,
        data: Some(paymaster_return(&[0x01])),
    };
    let trace = TraceFrame {
        number_levels: vec![empty_level(), empty_level(), empty_level()],
        keccak: Vec::new(),
        calls: vec![call_in, ret],
    };
    let stage = on_trace(&pool(), stage, Ok(trace));
    assert!(matches!(stage, SimulationStage::AwaitingStakeVerdict { .. }));
    let stage = on_stake_verdict(stage, false);
    match stage {
        SimulationStage::Failed { error } => {
            assert_eq!(
                rpc_message(&error),
                "Paymaster that is not staked should not return context"
            );
            assert_eq!(rpc_error_code(&error), OPCODE_VALIDATION_ERROR_CODE);
        },
        other => panic!("unexpected stage: {other:?}"),
    }
}

#[test]
fn staked_paymaster_returning_context_is_admitted() {
    let paymaster = addr(0xAB);
    let mut pm_data = paymaster.clone();
    pm_data.extend_from_slice(&[9, 9]);
    let uo = user_op(addr(0x11), Vec::new(), pm_data);
    let stage = start_simulation(uo);
    let stage = on_validation_result(stage, Ok(validation_result(false, 7)));
    let selector = vec![0xf4, 0x65, 0xc7, 0x7e];
    let call_in = CallEvent {
        kind: CallKind::Call,
        from: Some(addr(0xEE)),
        to: Some(paymaster.clone()),
        method: Some(selector),
        value: None,
        data: None,
    };
    let ret = CallEvent {
        kind: CallKind::Return,
        from: None,
        to: None,
        method: None,
        value: None,
        data: Some(paymaster_return(&[0x01])),
    };
    let trace = TraceFrame {
        number_levels: vec![empty_level(), empty_level(), empty_level()],
        keccak: Vec::new(),
        calls: vec![call_in, ret],
    };
    let stage = on_trace(&pool(), stage, Ok(trace));
    assert!(matches!(stage, SimulationStage::AwaitingStakeVerdict { .. }));
    let stage = on_stake_verdict(stage, true);
    assert!(matches!(stage, SimulationStage::AwaitingCodeHashes { .. }));
}

#[test]
fn empty_paymaster_context_needs_no_stake_check() {
    let paymaster = addr(0xAB);
    let mut pm_data = paymaster.clone();
    pm_data.extend_from_slice(&[9, 9]);
    let uo = user_op(addr(0x11), Vec::new(), pm_data);
    let stage = start_simulation(uo);
    let stage = on_validation_result(stage, Ok(validation_result(false, 0)));
    let selector = vec![0xf4, 0x65, 0xc7, 0x7e];
    let call_in = CallEvent {
        kind: CallKind::Call,
        from: Some(addr(0xEE)),
        to: Some(paymaster.clone()),
        method: Some(selector),
        value: None,
        data: None,
    };
    let ret = CallEvent {
        kind: CallKind::Return,
        from: None,
        to: None,
        method: None,
        value: None,
        data: Some(paymaster_return(&[])),
    };
    let trace = TraceFrame {
        number_levels: Vec::new(),
        keccak: Vec::new(),
        calls: vec![call_in, ret],
    };
    let stage = on_trace(&pool(), stage, Ok(trace));
    // an empty context never requires the paymaster to be staked
    assert!(matches!(stage, SimulationStage::AwaitingCodeHashes { .. }));
}

#[test]
fn code_mutation_between_simulations_is_refused() {
    let uo = user_op(addr(0x11), Vec::new(), Vec::new());
    let stage = start_simulation(uo);
    let stage = on_validation_result(stage, Ok(validation_result(false, 0)));
    let mut level0 = empty_level();
    level0.contract_size.push(ContractSizeEntry { address: addr(0xC0), size: 100 });
    let trace = TraceFrame { number_levels: vec![level0], keccak: Vec::new(), calls: Vec::new() };
    let stage = on_trace(&pool(), stage, Ok(trace));
    match &stage {
        SimulationStage::AwaitingCodeHashes { addresses, .. } => {
            assert_eq!(addresses.len(), 1);
            assert_eq!(addresses[0], addr(0xC0));
        },
        other => panic!("unexpected stage: {other:?}"),
    }
    let fresh = vec![CodeHash { address: addr(0xC0), hash: vec![2u8; 32] }];
    let stage = on_code_hashes(stage, Ok(fresh));
    let stage = on_hash_presence(stage, Ok(true));
    assert!(matches!(stage, SimulationStage::AwaitingPriorHashes { .. }));
    let prior = vec![CodeHash { address: addr(0xC0), hash: vec![1u8; 32] }];
    let stage = on_prior_hashes(stage, prior);
    match stage {
        SimulationStage::Failed { error } => {
            assert_eq!(rpc_message(&error), "modified code after 1st simulation");
        },
        other => panic!("unexpected stage: {other:?}"),
    }
}

#[test]
fn second_simulation_with_unchanged_code_passes() {
    let uo = user_op(addr(0x11), Vec::new(), Vec::new());
    let stage = start_simulation(uo);
    let stage = on_validation_result(stage, Ok(validation_result(false, 0)));
    let mut level0 = empty_level();
    level0.contract_size.push(ContractSizeEntry { address: addr(0xC0), size: 100 });
    level0.contract_size.push(ContractSizeEntry { address: addr(0xC1), size: 50 });
    let trace = TraceFrame { number_levels: vec![level0], keccak: Vec::new(), calls: Vec::new() };
    let stage = on_trace(&pool(), stage, Ok(trace));
    let fresh = vec![
        CodeHash { address: addr(0xC0), hash: vec![2u8; 32] },
        CodeHash { address: addr(0xC1), hash: vec![3u8; 32] },
    ];
    let stage = on_code_hashes(stage, Ok(fresh));
    let stage = on_hash_presence(stage, Ok(true));
    // the prior set was fetched in another order; only the multiset matters
    let prior = vec![
        CodeHash { address: addr(0xC1), hash: vec![3u8; 32] },
        CodeHash { address: addr(0xC0), hash: vec![2u8; 32] },
    ];
    let stage = on_prior_hashes(stage, prior);
    match stage {
        SimulationStage::Done { result } => {
            assert_eq!(result.code_hashes.len(), 2);
        },
        other => panic!("unexpected stage: {other:?}"),
    }
}

#[test]
fn failed_code_hash_fetch_is_unknown_error() {
    let uo = user_op(addr(0x11), Vec::new(), Vec::new());
    let stage = start_simulation(uo);
    let stage = on_validation_result(stage, Ok(validation_result(false, 0)));
    let stage = on_trace(&pool(), stage, Ok(empty_trace()));
    let stage = on_code_hashes(stage, Err(()));
    match stage {
        SimulationStage::Failed { error } => {
            assert_eq!(rpc_message(&error), "failed to get code hashes");
            assert_eq!(rpc_error_code(&error), INTERNAL_ERROR_CODE);
        },
        other => panic!("unexpected stage: {other:?}"),
    }
}

#[test]
fn trace_parse_failure_is_rejected() {
    let uo = user_op(addr(0x11), Vec::new(), Vec::new());
    let stage = start_simulation(uo);
    let stage = on_validation_result(stage, Ok(validation_result(false, 0)));
    let stage = on_trace(
        &pool(),
        stage,
        Err(TraceError::Parse { message: String::from("missing field") }),
    );
    match stage {
        SimulationStage::Failed { error } => {
            assert_eq!(rpc_message(&error), "missing field");
            assert_eq!(rpc_error_code(&error), SIMULATE_VALIDATION_ERROR_CODE);
        },
        other => panic!("unexpected stage: {other:?}"),
    }
}

#[test]
fn undecodable_paymaster_return_is_rejected() {
    let paymaster = addr(0xAB);
    let mut pm_data = paymaster.clone();
    pm_data.extend_from_slice(&[9, 9]);
    let uo = user_op(addr(0x11), Vec::new(), pm_data);
    let stage = start_simulation(uo);
    let stage = on_validation_result(stage, Ok(validation_result(false, 7)));
    let selector = vec![0xf4, 0x65, 0xc7, 0x7e];
    let call_in = CallEvent {
        kind: CallKind::Call,
        from: Some(addr(0xEE)),
        to: Some(paymaster.clone()),
        method: Some(selector),
        value: None,
        data: None,
    };
    let ret = CallEvent {
        kind: CallKind::Return,
        from: None,
        to: None,
        method: None,
        value: None,
        data: Some(vec![0u8; 16]),
    };
    let trace = TraceFrame {
        number_levels: Vec::new(),
        keccak: Vec::new(),
        calls: vec![call_in, ret],
    };
    let stage = on_trace(&pool(), stage, Ok(trace));
    match stage {
        SimulationStage::Failed { error } => {
            assert_eq!(rpc_message(&error), "unknown error");
        },
        other => panic!("unexpected stage: {other:?}"),
    }
}
