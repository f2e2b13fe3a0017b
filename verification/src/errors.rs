use vstd::prelude::*;

use crate::strutil::{concat_str, lossy_string};
use crate::types::{Entity, Opcode};

verus! {

// JSON-RPC error codes of the ERC-4337 API, plus the standard internal-error
// code.
pub const SIMULATE_VALIDATION_ERROR_CODE: i32 = -32500;
pub const OPCODE_VALIDATION_ERROR_CODE: i32 = -32502;
pub const SIGNATURE_FAILED_ERROR_CODE: i32 = -32507;
pub const EXECUTION_ERROR_CODE: i32 = -32521;
pub const INTERNAL_ERROR_CODE: i32 = -32603;

/// Why a UserOperation was refused admission, or why the pipeline could not
/// decide.
#[derive(Debug, PartialEq)]
pub enum SimulateValidationError {
    SignatureValidation,
    UserOperationRejected { message: String },
    OpcodeValidation { entity: Entity, opcode: Opcode },
    UserOperationExecution { message: String },
    StorageAccessValidation { slot: Vec<u8> },
    CallStackValidation { message: String },
    CodeHashesValidation { message: String },
    UnknownError { error: String },
}

/// The JSON-RPC error code each error kind maps to.
pub open spec fn spec_rpc_error_code(e: SimulateValidationError) -> i32 {
    match e {
        SimulateValidationError::SignatureValidation => SIGNATURE_FAILED_ERROR_CODE,
        SimulateValidationError::UserOperationRejected { .. } => SIMULATE_VALIDATION_ERROR_CODE,
        SimulateValidationError::OpcodeValidation { .. } => OPCODE_VALIDATION_ERROR_CODE,
        SimulateValidationError::UserOperationExecution { .. } => EXECUTION_ERROR_CODE,
        SimulateValidationError::StorageAccessValidation { .. } => OPCODE_VALIDATION_ERROR_CODE,
        SimulateValidationError::CallStackValidation { .. } => OPCODE_VALIDATION_ERROR_CODE,
        SimulateValidationError::CodeHashesValidation { .. } => OPCODE_VALIDATION_ERROR_CODE,
        SimulateValidationError::UnknownError { .. } => INTERNAL_ERROR_CODE,
    }
}

pub fn rpc_error_code(e: &SimulateValidationError) -> (r: i32)
    ensures
        r == spec_rpc_error_code(*e),
{
    match e {
        SimulateValidationError::SignatureValidation => SIGNATURE_FAILED_ERROR_CODE,
        SimulateValidationError::UserOperationRejected { .. } => SIMULATE_VALIDATION_ERROR_CODE,
        SimulateValidationError::OpcodeValidation { .. } => OPCODE_VALIDATION_ERROR_CODE,
        SimulateValidationError::UserOperationExecution { .. } => EXECUTION_ERROR_CODE,
        SimulateValidationError::StorageAccessValidation { .. } => OPCODE_VALIDATION_ERROR_CODE,
        SimulateValidationError::CallStackValidation { .. } => OPCODE_VALIDATION_ERROR_CODE,
        SimulateValidationError::CodeHashesValidation { .. } => OPCODE_VALIDATION_ERROR_CODE,
        SimulateValidationError::UnknownError { .. } => INTERNAL_ERROR_CODE,
    }
}

/// The entity name as the rules report it.
pub open spec fn spec_entity_name(e: Entity) -> Seq<char> {
    match e {
        Entity::Factory => "factory"@,
        Entity::Account => "account"@,
        Entity::Paymaster => "paymaster"@,
    }
}

pub fn entity_name(e: Entity) -> (r: String)
    ensures
        r@ == spec_entity_name(e),
{
    match e {
        Entity::Factory => "factory".to_owned(),
        Entity::Account => "account".to_owned(),
        Entity::Paymaster => "paymaster".to_owned(),
    }
}

/// The opcode name as the rules report it. Only opcodes that a rule can name
/// in an error carry their own text.
pub open spec fn spec_opcode_name(op: Opcode) -> Seq<char> {
    match op {
        Opcode::Gasprice => "GASPRICE"@,
        Opcode::Gaslimit => "GASLIMIT"@,
        Opcode::Difficulty => "DIFFICULTY"@,
        Opcode::Timestamp => "TIMESTAMP"@,
        Opcode::Basefee => "BASEFEE"@,
        Opcode::Blockhash => "BLOCKHASH"@,
        Opcode::Number => "NUMBER"@,
        Opcode::Selfbalance => "SELFBALANCE"@,
        Opcode::Balance => "BALANCE"@,
        Opcode::Origin => "ORIGIN"@,
        Opcode::Gas => "GAS"@,
        Opcode::Create => "CREATE"@,
        Opcode::Coinbase => "COINBASE"@,
        Opcode::Selfdestruct => "SELFDESTRUCT"@,
        Opcode::Random => "RANDOM"@,
        Opcode::Prevrandao => "PREVRANDAO"@,
        Opcode::Create2 => "CREATE2"@,
        Opcode::Other => "UNKNOWN"@,
    }
}

pub fn opcode_name(op: Opcode) -> (r: String)
    ensures
        r@ == spec_opcode_name(op),
{
    match op {
        Opcode::Gasprice => "GASPRICE".to_owned(),
        Opcode::Gaslimit => "GASLIMIT".to_owned(),
        Opcode::Difficulty => "DIFFICULTY".to_owned(),
        Opcode::Timestamp => "TIMESTAMP".to_owned(),
        Opcode::Basefee => "BASEFEE".to_owned(),
        Opcode::Blockhash => "BLOCKHASH".to_owned(),
        Opcode::Number => "NUMBER".to_owned(),
        Opcode::Selfbalance => "SELFBALANCE".to_owned(),
        Opcode::Balance => "BALANCE".to_owned(),
        Opcode::Origin => "ORIGIN".to_owned(),
        Opcode::Gas => "GAS".to_owned(),
        Opcode::Create => "CREATE".to_owned(),
        Opcode::Coinbase => "COINBASE".to_owned(),
        Opcode::Selfdestruct => "SELFDESTRUCT".to_owned(),
        Opcode::Random => "RANDOM".to_owned(),
        Opcode::Prevrandao => "PREVRANDAO".to_owned(),
        Opcode::Create2 => "CREATE2".to_owned(),
        Opcode::Other => "UNKNOWN".to_owned(),
    }
}

/// The message text each error carries over JSON-RPC.
pub open spec fn spec_rpc_message(e: SimulateValidationError) -> Seq<char> {
    match e {
        SimulateValidationError::SignatureValidation => {
            "Invalid UserOp signature or paymaster signature"@
        },
        SimulateValidationError::UserOperationRejected { message } => message@,
        SimulateValidationError::OpcodeValidation { entity, opcode } => {
            spec_entity_name(entity) + " uses banned opcode: "@ + spec_opcode_name(opcode)
        },
        SimulateValidationError::UserOperationExecution { message } => message@,
        SimulateValidationError::StorageAccessValidation { slot } => {
            "Storage access validation failed for slot: "@ + slot@.map_values(|b: u8| b as char)
        },
        SimulateValidationError::CallStackValidation { message } => message@,
        SimulateValidationError::CodeHashesValidation { message } => message@,
        SimulateValidationError::UnknownError { error } => error@,
    }
}

/// Whether every byte of the slot text of a storage-access error is ASCII;
/// the rendered message is pinned down only then.
pub open spec fn rpc_message_exact(e: SimulateValidationError) -> bool {
    match e {
        SimulateValidationError::StorageAccessValidation { slot } => forall|i: int|
            0 <= i < slot@.len() ==> slot@[i] < 128,
        _ => true,
    }
}

pub fn rpc_message(e: &SimulateValidationError) -> (r: String)
    ensures
        rpc_message_exact(*e) ==> r@ == spec_rpc_message(*e),
{
    match e {
        SimulateValidationError::SignatureValidation => {
            "Invalid UserOp signature or paymaster signature".to_owned()
        },
        SimulateValidationError::UserOperationRejected { message } => message.clone(),
        SimulateValidationError::OpcodeValidation { entity, opcode } => {
            let head = concat_str(entity_name(*entity).as_str(), " uses banned opcode: ");
            concat_str(head.as_str(), opcode_name(*opcode).as_str())
        },
        SimulateValidationError::UserOperationExecution { message } => message.clone(),
        SimulateValidationError::StorageAccessValidation { slot } => {
            concat_str("Storage access validation failed for slot: ", lossy_string(slot).as_str())
        },
        SimulateValidationError::CallStackValidation { message } => message.clone(),
        SimulateValidationError::CodeHashesValidation { message } => message.clone(),
        SimulateValidationError::UnknownError { error } => error.clone(),
    }
}

} // verus!
