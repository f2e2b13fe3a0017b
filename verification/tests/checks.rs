use uopool::abi::decode_paymaster_return;
use uopool::callstack::{lookup_method, parse_call_stack};
use uopool::codehash::equal_code_hashes;
use uopool::errors::SimulateValidationError;
use uopool::hash::keccak256;
use uopool::num::{parse_hex_u256, U256};
use uopool::slots::{associated_with_slot, parse_slots, AssocVerdict};
use uopool::stake::extract_stake_info;
use uopool::storage::storage_access;
use uopool::types::{
    AccessEntry, AccessInfo, CallEvent, CallKind, CodeHash, EntityInfo, LevelInfo, ReturnInfo,
    SimulateValidationResult, StakeInfo, TraceFrame, UserOperation, ValidationData,
};

fn addr(n: u8) -> Vec<u8> {
    let mut v = vec![0u8; 20];
    v[19] = n;
    v
}

fn hex_bytes(data: &[u8]) -> Vec<u8> {
    let mut s = String::new();
    for b in data {
        s.push_str(&format!("{b:02x}"));
    }
    s.into_bytes()
}

fn stake(address: Vec<u8>, stake: u64) -> StakeInfo {
    StakeInfo {
        address,
        stake: U256::from_u64(stake),
        unstake_delay: U256 { hi: 0, lo: 0 },
    }
}

#[test]
fn hex_parse_accepts_prefix_and_case() {
    let v = parse_hex_u256(&b"0x1A".to_vec()).unwrap();
    assert_eq!(v, U256 { hi: 0, lo: 26 });
    let v = parse_hex_u256(&b"1a".to_vec()).unwrap();
    assert_eq!(v, U256 { hi: 0, lo: 26 });
    let v = parse_hex_u256(&b"".to_vec()).unwrap();
    assert_eq!(v, U256 { hi: 0, lo: 0 });
    let v = parse_hex_u256(&b"0x".to_vec()).unwrap();
    assert_eq!(v, U256 { hi: 0, lo: 0 });
    assert!(parse_hex_u256(&b"0xzz".to_vec()).is_none());
    // 65 digits exceed 256 bits
    let long = vec![b'1'; 65];
    assert!(parse_hex_u256(&long).is_none());
    let max = vec![b'f'; 64];
    let v = parse_hex_u256(&max).unwrap();
    assert_eq!(v, U256 { hi: u128::MAX, lo: u128::MAX });
}

#[test]
fn hex_parse_matches_outside_parser() {
    let cases: Vec<&str> = vec!["0x1A", "1a", "", "0x", "deadBEEF", "0x0", "0123"];
    for c in cases {
        let mine = parse_hex_u256(&c.as_bytes().to_vec());
        let theirs = ethers::types::U256::from_str_radix(c, 16).ok();
        match (mine, theirs) {
            (Some(m), Some(t)) => {
                let mut be = [0u8; 32];
                t.to_big_endian(&mut be);
                let hi = u128::from_be_bytes(be[0..16].try_into().unwrap());
                let lo = u128::from_be_bytes(be[16..32].try_into().unwrap());
                assert_eq!(m, U256 { hi, lo }, "value mismatch on {c}");
            },
            (None, None) => {},
            (m, t) => panic!("disagreement on {c}: {m:?} vs {t:?}"),
        }
    }
}

#[test]
fn selector_table_matches_contract_signatures() {
    let vp = ethers::utils::keccak256(
        "validatePaymasterUserOp((address,uint256,bytes,bytes,uint256,uint256,uint256,uint256,uint256,bytes,bytes),bytes32,uint256)",
    );
    assert_eq!(&vp[0..4], &[0xf4, 0x65, 0xc7, 0x7e]);
    let vu = ethers::utils::keccak256(
        "validateUserOp((address,uint256,bytes,bytes,uint256,uint256,uint256,uint256,uint256,bytes,bytes),bytes32,uint256)",
    );
    assert_eq!(&vu[0..4], &[0x3a, 0x87, 0x1c, 0xdd]);
    assert_eq!(
        lookup_method(&vec![0xf4, 0x65, 0xc7, 0x7e]),
        Some(String::from("validatePaymasterUserOp"))
    );
    assert_eq!(
        lookup_method(&vec![0x3a, 0x87, 0x1c, 0xdd]),
        Some(String::from("validateUserOp"))
    );
    assert_eq!(lookup_method(&vec![0xde, 0xad, 0xbe, 0xef]), None);
}

#[test]
fn slot_association_uses_real_keccak() {
    // preimage: the paymaster address left-padded to 32 bytes, then a slot key
    let paymaster = addr(0xAB);
    let mut preimage = vec![0u8; 12];
    preimage.extend_from_slice(&paymaster);
    preimage.extend_from_slice(&[0u8; 31]);
    preimage.push(0x01);
    let derived = ethers::utils::keccak256(&preimage).to_vec();
    assert_eq!(keccak256(&preimage).len(), 32);
    assert_eq!(keccak256(&preimage), derived);

    let stakes = vec![stake(addr(0), 0), stake(addr(0x11), 0), stake(paymaster.clone(), 0)];
    let index = parse_slots(&vec![preimage.clone()], &stakes);

    // the derived slot itself and the window above it are associated
    let slot_exact = hex_bytes(&derived);
    assert_eq!(associated_with_slot(&paymaster, &slot_exact, &index), AssocVerdict::Yes);
    let num = ethers::types::U256::from_big_endian(&derived);
    let inside = num + 127u64;
    let outside = num + 128u64;
    let slot_inside = format!("{inside:x}").into_bytes();
    let slot_outside = format!("{outside:x}").into_bytes();
    assert_eq!(associated_with_slot(&paymaster, &slot_inside, &index), AssocVerdict::Yes);
    assert_eq!(associated_with_slot(&paymaster, &slot_outside, &index), AssocVerdict::No);
    // a slot that does not parse is an error only for an address with entries
    assert_eq!(associated_with_slot(&paymaster, &b"zz".to_vec(), &index), AssocVerdict::BadSlot);
    assert_eq!(associated_with_slot(&addr(0x11), &b"zz".to_vec(), &index), AssocVerdict::No);
}

#[test]
fn associated_slot_with_zero_stake_is_refused() {
    let sender = addr(0x11);
    let paymaster = addr(0xAB);
    let entry_point = addr(0xEE);
    let mut preimage = vec![0u8; 12];
    preimage.extend_from_slice(&paymaster);
    preimage.extend_from_slice(&[0u8; 31]);
    preimage.push(0x01);
    let derived = ethers::utils::keccak256(&preimage).to_vec();
    let slot_text = hex_bytes(&derived);

    let uo = UserOperation {
        sender: sender.clone(),
        init_code: Vec::new(),
        paymaster_and_data: paymaster.clone(),
    };
    let stakes = vec![stake(addr(0), 0), stake(sender.clone(), 0), stake(paymaster.clone(), 0)];
    let touched = AccessEntry {
        address: addr(0xC2),
        access: AccessInfo { reads: vec![slot_text.clone()], writes: Vec::new() },
    };
    let level2 = LevelInfo {
        opcodes: Vec::new(),
        access: vec![touched],
        contract_size: Vec::new(),
    };
    let trace = TraceFrame {
        number_levels: vec![
            LevelInfo { opcodes: Vec::new(), access: Vec::new(), contract_size: Vec::new() },
            LevelInfo { opcodes: Vec::new(), access: Vec::new(), contract_size: Vec::new() },
            level2,
        ],
        keccak: vec![preimage],
        calls: Vec::new(),
    };
    let r = storage_access(&uo, &entry_point, &stakes, &trace);
    match r {
        Err(SimulateValidationError::StorageAccessValidation { slot }) => {
            assert_eq!(slot, slot_text);
        },
        other => panic!("unexpected outcome: {other:?}"),
    }
}

#[test]
fn associated_slot_with_stake_is_admitted() {
    let sender = addr(0x11);
    let paymaster = addr(0xAB);
    let entry_point = addr(0xEE);
    let mut preimage = vec![0u8; 12];
    preimage.extend_from_slice(&paymaster);
    preimage.push(0x01);
    let derived = ethers::utils::keccak256(&preimage).to_vec();
    let slot_text = hex_bytes(&derived);

    let uo = UserOperation {
        sender: sender.clone(),
        init_code: Vec::new(),
        paymaster_and_data: paymaster.clone(),
    };
    let stakes = vec![stake(addr(0), 0), stake(sender.clone(), 0), stake(paymaster.clone(), 5)];
    let touched = AccessEntry {
        address: addr(0xC2),
        access: AccessInfo { reads: vec![slot_text.clone()], writes: Vec::new() },
    };
    let level2 = LevelInfo {
        opcodes: Vec::new(),
        access: vec![touched],
        contract_size: Vec::new(),
    };
    let trace = TraceFrame {
        number_levels: vec![
            LevelInfo { opcodes: Vec::new(), access: Vec::new(), contract_size: Vec::new() },
            LevelInfo { opcodes: Vec::new(), access: Vec::new(), contract_size: Vec::new() },
            level2,
        ],
        keccak: vec![preimage],
        calls: Vec::new(),
    };
    assert!(storage_access(&uo, &entry_point, &stakes, &trace).is_ok());
}

#[test]
fn unrelated_slot_is_refused() {
    let sender = addr(0x11);
    let entry_point = addr(0xEE);
    let uo = UserOperation {
        sender: sender.clone(),
        init_code: Vec::new(),
        paymaster_and_data: Vec::new(),
    };
    let stakes = vec![stake(addr(0), 0), stake(sender.clone(), 0), stake(addr(0), 0)];
    let touched = AccessEntry {
        address: addr(0xC2),
        access: AccessInfo { reads: Vec::new(), writes: vec![b"1234".to_vec()] },
    };
    let level1 = LevelInfo {
        opcodes: Vec::new(),
        access: vec![touched],
        contract_size: Vec::new(),
    };
    let trace = TraceFrame {
        number_levels: vec![
            LevelInfo { opcodes: Vec::new(), access: Vec::new(), contract_size: Vec::new() },
            level1,
        ],
        keccak: Vec::new(),
        calls: Vec::new(),
    };
    let r = storage_access(&uo, &entry_point, &stakes, &trace);
    match r {
        Err(SimulateValidationError::StorageAccessValidation { slot }) => {
            assert_eq!(slot, b"1234".to_vec());
        },
        other => panic!("unexpected outcome: {other:?}"),
    }
}

#[test]
fn entity_own_storage_requires_stake() {
    // the touched address is the entity itself: allowed only when staked
    let sender = addr(0x11);
    let entry_point = addr(0xEE);
    let account_contract = sender.clone();
    let uo = UserOperation {
        sender: sender.clone(),
        init_code: Vec::new(),
        paymaster_and_data: Vec::new(),
    };
    // the touched address equals the paymaster entity's own address
    let paymaster = addr(0xAB);
    let stakes = vec![stake(addr(0), 0), stake(sender.clone(), 0), stake(paymaster.clone(), 0)];
    let touched = AccessEntry {
        address: paymaster.clone(),
        access: AccessInfo { reads: vec![b"07".to_vec()], writes: Vec::new() },
    };
    let level2 = LevelInfo {
        opcodes: Vec::new(),
        access: vec![touched],
        contract_size: Vec::new(),
    };
    let trace = TraceFrame {
        number_levels: vec![
            LevelInfo { opcodes: Vec::new(), access: Vec::new(), contract_size: Vec::new() },
            LevelInfo { opcodes: Vec::new(), access: Vec::new(), contract_size: Vec::new() },
            level2,
        ],
        keccak: Vec::new(),
        calls: Vec::new(),
    };
    let refused = storage_access(&uo, &entry_point, &stakes, &trace);
    assert!(matches!(
        refused,
        Err(SimulateValidationError::StorageAccessValidation { .. })
    ));
    let staked = vec![stake(addr(0), 0), stake(sender.clone(), 0), stake(paymaster, 3)];
    assert!(storage_access(&uo, &entry_point, &staked, &trace).is_ok());
    let _ = account_contract;
}

#[test]
fn sender_storage_is_exempt() {
    let sender = addr(0x11);
    let entry_point = addr(0xEE);
    let uo = UserOperation {
        sender: sender.clone(),
        init_code: Vec::new(),
        paymaster_and_data: Vec::new(),
    };
    let stakes = vec![stake(addr(0), 0), stake(sender.clone(), 0), stake(addr(0), 0)];
    let touched = AccessEntry {
        address: sender.clone(),
        access: AccessInfo { reads: vec![b"zz-not-hex".to_vec()], writes: Vec::new() },
    };
    let level1 = LevelInfo {
        opcodes: Vec::new(),
        access: vec![touched],
        contract_size: Vec::new(),
    };
    let trace = TraceFrame {
        number_levels: vec![
            LevelInfo { opcodes: Vec::new(), access: Vec::new(), contract_size: Vec::new() },
            level1,
        ],
        keccak: Vec::new(),
        calls: Vec::new(),
    };
    assert!(storage_access(&uo, &entry_point, &stakes, &trace).is_ok());
}

#[test]
fn reducer_is_deterministic_and_stable() {
    let ev_call = CallEvent {
        kind: CallKind::Call,
        from: Some(addr(1)),
        to: Some(addr(2)),
        method: Some(vec![0xf4, 0x65, 0xc7, 0x7e]),
        value: Some(U256::from_u64(5)),
        data: None,
    };
    let ev_create = CallEvent {
        kind: CallKind::Create2,
        from: Some(addr(1)),
        to: Some(addr(3)),
        method: None,
        value: None,
        data: None,
    };
    let ev_ret = CallEvent {
        kind: CallKind::Return,
        from: None,
        to: None,
        method: None,
        value: None,
        data: Some(vec![0xAA]),
    };
    let ev_rev = CallEvent {
        kind: CallKind::Revert,
        from: None,
        to: None,
        method: None,
        value: None,
        data: Some(vec![0xBB]),
    };
    let clone_event = |e: &CallEvent| CallEvent {
        kind: e.kind,
        from: e.from.clone(),
        to: e.to.clone(),
        method: e.method.clone(),
        value: e.value,
        data: e.data.clone(),
    };
    let trace = TraceFrame {
        number_levels: Vec::new(),
        keccak: Vec::new(),
        calls: vec![
            clone_event(&ev_call),
            clone_event(&ev_create),
            clone_event(&ev_ret),
            clone_event(&ev_rev),
            clone_event(&ev_ret),
        ],
    };
    let mut first = Vec::new();
    parse_call_stack(&trace, &mut first).unwrap();
    let mut second = Vec::new();
    parse_call_stack(&trace, &mut second).unwrap();
    assert_eq!(first, second);
    // the trailing return hit an empty stack and was ignored
    assert_eq!(first.len(), 2);
    // the create frame closes first, without method or payload
    assert_eq!(first[0].kind, CallKind::Create2);
    assert_eq!(first[0].method, None);
    assert_eq!(first[0].ret, None);
    // the reverted frame keeps its method, value and revert data
    assert_eq!(first[1].kind, CallKind::Call);
    assert_eq!(first[1].method, Some(String::from("validatePaymasterUserOp")));
    assert_eq!(first[1].rev, Some(vec![0xBB]));
    assert_eq!(first[1].value, Some(U256::from_u64(5)));
}

#[test]
fn reducer_ignores_pop_on_empty_stack() {
    let ev_ret = CallEvent {
        kind: CallKind::Return,
        from: None,
        to: None,
        method: None,
        value: None,
        data: Some(vec![0xAA]),
    };
    let trace = TraceFrame { number_levels: Vec::new(), keccak: Vec::new(), calls: vec![ev_ret] };
    let mut out = Vec::new();
    parse_call_stack(&trace, &mut out).unwrap();
    assert!(out.is_empty());
}

#[test]
fn storage_error_message_includes_slot_text() {
    let e = SimulateValidationError::StorageAccessValidation { slot: b"1234".to_vec() };
    assert_eq!(
        uopool::errors::rpc_message(&e),
        "Storage access validation failed for slot: 1234"
    );
    assert_eq!(
        uopool::errors::rpc_error_code(&e),
        uopool::errors::OPCODE_VALIDATION_ERROR_CODE
    );
}

#[test]
fn execution_errors_map_to_the_execution_code() {
    let e = SimulateValidationError::UserOperationExecution {
        message: String::from("reverted"),
    };
    assert_eq!(uopool::errors::rpc_error_code(&e), uopool::errors::EXECUTION_ERROR_CODE);
    assert_eq!(uopool::errors::rpc_message(&e), "reverted");
}

#[test]
fn code_hash_multiset_comparison() {
    let a = vec![
        CodeHash { address: addr(1), hash: vec![1u8; 32] },
        CodeHash { address: addr(2), hash: vec![2u8; 32] },
        CodeHash { address: addr(1), hash: vec![1u8; 32] },
    ];
    let b_permuted = vec![
        CodeHash { address: addr(1), hash: vec![1u8; 32] },
        CodeHash { address: addr(1), hash: vec![1u8; 32] },
        CodeHash { address: addr(2), hash: vec![2u8; 32] },
    ];
    let b_short = vec![
        CodeHash { address: addr(1), hash: vec![1u8; 32] },
        CodeHash { address: addr(2), hash: vec![2u8; 32] },
    ];
    let b_other = vec![
        CodeHash { address: addr(1), hash: vec![1u8; 32] },
        CodeHash { address: addr(2), hash: vec![2u8; 32] },
        CodeHash { address: addr(2), hash: vec![2u8; 32] },
    ];
    assert!(equal_code_hashes(&a, &b_permuted));
    assert!(!equal_code_hashes(&a, &b_short));
    assert!(!equal_code_hashes(&a, &b_other));
}

#[test]
fn paymaster_return_decoding_matches_outside_encoder() {
    let context = vec![1u8, 2, 3, 4, 5];
    let encoded = ethers::abi::encode(&[
        ethers::abi::Token::Bytes(context.clone()),
        ethers::abi::Token::Uint(ethers::types::U256::from(42u64)),
    ]);
    let decoded = decode_paymaster_return(&encoded).unwrap();
    assert_eq!(decoded, context);

    let empty = ethers::abi::encode(&[
        ethers::abi::Token::Bytes(Vec::new()),
        ethers::abi::Token::Uint(ethers::types::U256::from(0u64)),
    ]);
    let decoded = decode_paymaster_return(&empty).unwrap();
    assert!(decoded.is_empty());

    assert!(decode_paymaster_return(&vec![0u8; 16]).is_none());
}

#[test]
fn mempool_id_matches_outside_formula() {
    let entry_point = ethers::types::Address::from_slice(&addr(0xEE));
    let chain_id = ethers::types::U256::from(5u64);
    let checksum = ethers::utils::to_checksum(&entry_point, None);
    let expected = ethers::utils::keccak256(
        [
            ethers::abi::AbiEncode::encode(checksum),
            ethers::abi::AbiEncode::encode(chain_id),
        ]
        .concat(),
    )
    .to_vec();
    let got = uopool::hash::mempool_id(&addr(0xEE), &U256 { hi: 0, lo: 5 });
    assert_eq!(got, expected);
}

#[test]
fn stake_extraction_reads_entity_addresses() {
    let factory = addr(0xFA);
    let paymaster = addr(0xAB);
    let mut init_code = factory.clone();
    init_code.extend_from_slice(&[7, 7]);
    let mut pm_data = paymaster.clone();
    pm_data.extend_from_slice(&[8]);
    let uo = UserOperation { sender: addr(0x11), init_code, paymaster_and_data: pm_data };
    let res = SimulateValidationResult::ValidationResultWithAggregation(ValidationData {
        factory_info: EntityInfo { stake: U256::from_u64(1), unstake_delay: U256::from_u64(2) },
        sender_info: EntityInfo { stake: U256::from_u64(3), unstake_delay: U256::from_u64(4) },
        paymaster_info: EntityInfo { stake: U256::from_u64(5), unstake_delay: U256::from_u64(6) },
        return_info: ReturnInfo { sig_failed: false },
    });
    let stakes = extract_stake_info(&uo, &res);
    assert_eq!(stakes.len(), 3);
    assert_eq!(stakes[0].address, factory);
    assert_eq!(stakes[0].stake, U256::from_u64(1));
    assert_eq!(stakes[1].address, addr(0x11));
    assert_eq!(stakes[1].stake, U256::from_u64(3));
    assert_eq!(stakes[2].address, paymaster);
    assert_eq!(stakes[2].stake, U256::from_u64(5));

    // short initCode and paymasterAndData mean the entity is absent
    let uo2 = UserOperation { sender: addr(0x11), init_code: vec![1, 2], paymaster_and_data: Vec::new() };
    let stakes2 = extract_stake_info(&uo2, &res);
    assert_eq!(stakes2[0].address, vec![0u8; 20]);
    assert_eq!(stakes2[2].address, vec![0u8; 20]);
}
