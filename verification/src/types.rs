use vstd::prelude::*;

use crate::num::{u256_val, U256};
use crate::util::bytes_view;

verus! {

// ---------------------------------------------------------------------------
// Addresses
// ---------------------------------------------------------------------------

/// A 20-byte account address, held as plain bytes.
pub type Address = Vec<u8>;

/// Well-formedness of an address: exactly 20 bytes.
pub open spec fn is_address(a: Seq<u8>) -> bool {
    a.len() == 20
}

/// The zero address stands for "entity absent".
pub open spec fn is_zero_address(a: Seq<u8>) -> bool {
    crate::util::spec_is_zero_bytes(a)
}

pub fn zero_address() -> (r: Address)
    ensures
        r@.len() == 20,
        is_zero_address(r@),
{
    let mut a: Vec<u8> = Vec::new();
    let mut i: usize = 0;
    while i < 20
        invariant
            0 <= i <= 20,
            a@.len() == i,
            forall|j: int| 0 <= j < i ==> a@[j] == 0u8,
        decreases 20 - i,
    {
        a.push(0u8);
        i = i + 1;
    }
    a
}

/// The view of an optional byte string.
pub open spec fn ov(o: Option<Vec<u8>>) -> Option<Seq<u8>> {
    match o {
        Some(v) => Some(v@),
        None => None,
    }
}

// ---------------------------------------------------------------------------
// UserOperation
// ---------------------------------------------------------------------------

/// The fields of an ERC-4337 UserOperation that the simulation core reads;
/// the rest of the on-chain struct is opaque to it.
#[derive(Clone, Debug)]
pub struct UserOperation {
    pub sender: Address,
    pub init_code: Vec<u8>,
    pub paymaster_and_data: Vec<u8>,
}

pub ghost struct UserOperationV {
    pub sender: Seq<u8>,
    pub init_code: Seq<u8>,
    pub paymaster_and_data: Seq<u8>,
}

impl View for UserOperation {
    type V = UserOperationV;

    open spec fn view(&self) -> UserOperationV {
        UserOperationV {
            sender: self.sender@,
            init_code: self.init_code@,
            paymaster_and_data: self.paymaster_and_data@,
        }
    }
}

impl UserOperation {
    pub open spec fn wf(self) -> bool {
        is_address(self.sender@)
    }
}

// ---------------------------------------------------------------------------
// Stake information
// ---------------------------------------------------------------------------

/// Per-entity stake information extracted from the simulation result.
#[derive(Clone, Debug)]
pub struct StakeInfo {
    pub address: Address,
    pub stake: U256,
    pub unstake_delay: U256,
}

pub ghost struct StakeInfoV {
    pub address: Seq<u8>,
    pub stake: nat,
    pub unstake_delay: nat,
}

impl View for StakeInfo {
    type V = StakeInfoV;

    open spec fn view(&self) -> StakeInfoV {
        StakeInfoV {
            address: self.address@,
            stake: u256_val(self.stake),
            unstake_delay: u256_val(self.unstake_delay),
        }
    }
}

/// The three entity levels, in the order the EntryPoint marks them inside a
/// trace.
#[derive(Clone, Copy, Debug, PartialEq, Eq, Structural)]
pub enum Entity {
    Factory,
    Account,
    Paymaster,
}

/// The entity a level index stands for.
pub open spec fn entity_of_level(i: int) -> Entity {
    if i == 0 {
        Entity::Factory
    } else if i == 1 {
        Entity::Account
    } else {
        Entity::Paymaster
    }
}

pub fn level_entity(i: usize) -> (r: Entity)
    requires
        i < 3,
    ensures
        r == entity_of_level(i as int),
{
    if i == 0 {
        Entity::Factory
    } else if i == 1 {
        Entity::Account
    } else {
        Entity::Paymaster
    }
}

// ---------------------------------------------------------------------------
// Simulation result returned by the EntryPoint
// ---------------------------------------------------------------------------

/// Stake and delay reported for one entity.
#[derive(Clone, Copy, Debug)]
pub struct EntityInfo {
    pub stake: U256,
    pub unstake_delay: U256,
}

/// The part of the EntryPoint's return information this core reads.
#[derive(Clone, Copy, Debug)]
pub struct ReturnInfo {
    pub sig_failed: bool,
}

#[derive(Clone, Copy, Debug)]
pub struct ValidationData {
    pub factory_info: EntityInfo,
    pub sender_info: EntityInfo,
    pub paymaster_info: EntityInfo,
    pub return_info: ReturnInfo,
}

/// The two shapes a successful `simulateValidation` reports.
#[derive(Clone, Copy, Debug)]
pub enum SimulateValidationResult {
    ValidationResult(ValidationData),
    ValidationResultWithAggregation(ValidationData),
}

impl SimulateValidationResult {
    /// The shared payload of either variant.
    pub open spec fn data(self) -> ValidationData {
        match self {
            SimulateValidationResult::ValidationResult(d) => d,
            SimulateValidationResult::ValidationResultWithAggregation(d) => d,
        }
    }
}

// ---------------------------------------------------------------------------
// Trace frame
// ---------------------------------------------------------------------------

/// An opcode as the trace reports it. Only the banned ones and `CREATE2`
/// steer any rule; every other name is folded into `Other`.
#[derive(Clone, Copy, Debug, PartialEq, Eq, Structural)]
pub enum Opcode {
    Gasprice,
    Gaslimit,
    Difficulty,
    Timestamp,
    Basefee,
    Blockhash,
    Number,
    Selfbalance,
    Balance,
    Origin,
    Gas,
    Create,
    Coinbase,
    Selfdestruct,
    Random,
    Prevrandao,
    Create2,
    Other,
}

/// One entry of a level's opcode-count table.
#[derive(Clone, Copy, Debug)]
pub struct OpcodeCount {
    pub opcode: Opcode,
    pub count: u64,
}

/// Read and written storage slots of one touched address; each slot is the
/// hex string under which the tracer reported it.
#[derive(Debug)]
pub struct AccessInfo {
    pub reads: Vec<Vec<u8>>,
    pub writes: Vec<Vec<u8>>,
}

pub ghost struct AccessInfoV {
    pub reads: Seq<Seq<u8>>,
    pub writes: Seq<Seq<u8>>,
}

impl View for AccessInfo {
    type V = AccessInfoV;

    open spec fn view(&self) -> AccessInfoV {
        AccessInfoV { reads: bytes_view(self.reads@), writes: bytes_view(self.writes@) }
    }
}

#[derive(Debug)]
pub struct AccessEntry {
    pub address: Address,
    pub access: AccessInfo,
}

pub ghost struct AccessEntryV {
    pub address: Seq<u8>,
    pub access: AccessInfoV,
}

impl View for AccessEntry {
    type V = AccessEntryV;

    open spec fn view(&self) -> AccessEntryV {
        AccessEntryV { address: self.address@, access: self.access@ }
    }
}

#[derive(Debug)]
pub struct ContractSizeEntry {
    pub address: Address,
    pub size: u64,
}

pub ghost struct ContractSizeEntryV {
    pub address: Seq<u8>,
    pub size: nat,
}

impl View for ContractSizeEntry {
    type V = ContractSizeEntryV;

    open spec fn view(&self) -> ContractSizeEntryV {
        ContractSizeEntryV { address: self.address@, size: self.size as nat }
    }
}

/// What the tracer recorded for one entity level.
#[derive(Debug)]
pub struct LevelInfo {
    pub opcodes: Vec<OpcodeCount>,
    pub access: Vec<AccessEntry>,
    pub contract_size: Vec<ContractSizeEntry>,
}

pub ghost struct LevelInfoV {
    pub opcodes: Seq<OpcodeCount>,
    pub access: Seq<AccessEntryV>,
    pub contract_size: Seq<ContractSizeEntryV>,
}

impl View for LevelInfo {
    type V = LevelInfoV;

    open spec fn view(&self) -> LevelInfoV {
        LevelInfoV {
            opcodes: self.opcodes@,
            access: self.access@.map_values(|e: AccessEntry| e@),
            contract_size: self.contract_size@.map_values(|e: ContractSizeEntry| e@),
        }
    }
}

/// The kind of a flat call event.
#[derive(Clone, Copy, Debug, PartialEq, Eq, Structural)]
pub enum CallKind {
    Call,
    CallCode,
    DelegateCall,
    StaticCall,
    Create,
    Create2,
    Return,
    Revert,
}

impl CallKind {
    /// Whether the kind is one of the two create forms.
    pub open spec fn is_create(self) -> bool {
        self == CallKind::Create || self == CallKind::Create2
    }

    /// Whether the event closes the innermost open frame.
    pub open spec fn is_terminator(self) -> bool {
        self == CallKind::Return || self == CallKind::Revert
    }
}

/// One flat event of the traced call sequence.
#[derive(Debug, PartialEq)]
pub struct CallEvent {
    pub kind: CallKind,
    pub from: Option<Address>,
    pub to: Option<Address>,
    pub method: Option<Vec<u8>>,
    pub value: Option<U256>,
    pub data: Option<Vec<u8>>,
}

pub ghost struct CallEventV {
    pub kind: CallKind,
    pub from: Option<Seq<u8>>,
    pub to: Option<Seq<u8>>,
    pub method: Option<Seq<u8>>,
    pub value: Option<nat>,
    pub data: Option<Seq<u8>>,
}

impl View for CallEvent {
    type V = CallEventV;

    open spec fn view(&self) -> CallEventV {
        CallEventV {
            kind: self.kind,
            from: ov(self.from),
            to: ov(self.to),
            method: ov(self.method),
            value: match self.value {
                Some(v) => Some(u256_val(v)),
                None => None,
            },
            data: ov(self.data),
        }
    }
}

/// One completed call frame emitted by the call-stack reducer.
#[derive(Debug, PartialEq)]
pub struct CallEntry {
    pub kind: CallKind,
    pub from: Option<Address>,
    pub to: Option<Address>,
    pub method: Option<String>,
    pub ret: Option<Vec<u8>>,
    pub rev: Option<Vec<u8>>,
    pub value: Option<U256>,
}

pub ghost struct CallEntryV {
    pub kind: CallKind,
    pub from: Option<Seq<u8>>,
    pub to: Option<Seq<u8>>,
    pub method: Option<Seq<char>>,
    pub ret: Option<Seq<u8>>,
    pub rev: Option<Seq<u8>>,
    pub value: Option<nat>,
}

impl View for CallEntry {
    type V = CallEntryV;

    open spec fn view(&self) -> CallEntryV {
        CallEntryV {
            kind: self.kind,
            from: ov(self.from),
            to: ov(self.to),
            method: match self.method {
                Some(ref m) => Some(m@),
                None => None,
            },
            ret: ov(self.ret),
            rev: ov(self.rev),
            value: match self.value {
                Some(v) => Some(u256_val(v)),
                None => None,
            },
        }
    }
}

/// The structured trace of one `simulateValidation` call, as the trace
/// parser hands it to the core.
#[derive(Debug)]
pub struct TraceFrame {
    pub number_levels: Vec<LevelInfo>,
    pub keccak: Vec<Vec<u8>>,
    pub calls: Vec<CallEvent>,
}

pub ghost struct TraceFrameV {
    pub number_levels: Seq<LevelInfoV>,
    pub keccak: Seq<Seq<u8>>,
    pub calls: Seq<CallEventV>,
}

impl View for TraceFrame {
    type V = TraceFrameV;

    open spec fn view(&self) -> TraceFrameV {
        TraceFrameV {
            number_levels: self.number_levels@.map_values(|l: LevelInfo| l@),
            keccak: bytes_view(self.keccak@),
            calls: self.calls@.map_values(|c: CallEvent| c@),
        }
    }
}

// ---------------------------------------------------------------------------
// Code hashes
// ---------------------------------------------------------------------------

/// A contract address together with the keccak hash of its bytecode.
#[derive(Clone, Debug, PartialEq)]
pub struct CodeHash {
    pub address: Address,
    pub hash: Vec<u8>,
}

pub ghost struct CodeHashV {
    pub address: Seq<u8>,
    pub hash: Seq<u8>,
}

impl View for CodeHash {
    type V = CodeHashV;

    open spec fn view(&self) -> CodeHashV {
        CodeHashV { address: self.address@, hash: self.hash@ }
    }
}

// ---------------------------------------------------------------------------
// Results
// ---------------------------------------------------------------------------

/// What a successful simulation returns.
#[derive(Debug)]
pub struct SimulationResult {
    pub simulate_validation_result: SimulateValidationResult,
    pub code_hashes: Vec<CodeHash>,
}

/// What a successful verification returns.
#[derive(Debug)]
pub struct VerificationResult {
    pub simulation_result: SimulationResult,
}

} // verus!
