use vstd::prelude::*;

use crate::errors::SimulateValidationError;
use crate::types::{entity_of_level, level_entity, LevelInfo, LevelInfoV, Opcode, OpcodeCount, TraceFrame};

verus! {

/// The banned opcode set of the validation rules.
pub open spec fn is_banned(op: Opcode) -> bool {
    match op {
        Opcode::Gasprice => true,
        Opcode::Gaslimit => true,
        Opcode::Difficulty => true,
        Opcode::Timestamp => true,
        Opcode::Basefee => true,
        Opcode::Blockhash => true,
        Opcode::Number => true,
        Opcode::Selfbalance => true,
        Opcode::Balance => true,
        Opcode::Origin => true,
        Opcode::Gas => true,
        Opcode::Create => true,
        Opcode::Coinbase => true,
        Opcode::Selfdestruct => true,
        Opcode::Random => true,
        Opcode::Prevrandao => true,
        Opcode::Create2 => false,
        Opcode::Other => false,
    }
}

pub fn banned_opcode(op: Opcode) -> (r: bool)
    ensures
        r == is_banned(op),
{
    match op {
        Opcode::Create2 => false,
        Opcode::Other => false,
        _ => true,
    }
}

/// The first banned opcode of a level's table, in table order.
pub open spec fn first_banned(ops: Seq<OpcodeCount>) -> Option<Opcode>
    decreases ops.len(),
{
    if ops.len() == 0 {
        None
    } else if is_banned(ops[0].opcode) {
        Some(ops[0].opcode)
    } else {
        first_banned(ops.drop_first())
    }
}

/// The count recorded for an opcode, by first occurrence.
pub open spec fn find_count(ops: Seq<OpcodeCount>, op: Opcode) -> Option<u64>
    decreases ops.len(),
{
    if ops.len() == 0 {
        None
    } else if ops[0].opcode == op {
        Some(ops[0].count)
    } else {
        find_count(ops.drop_first(), op)
    }
}

/// The opcode a level is rejected for, if any: a banned opcode first, then a
/// `CREATE2` anywhere but once at the factory level.
pub open spec fn level_opcode_verdict(i: int, ops: Seq<OpcodeCount>) -> Option<Opcode> {
    match first_banned(ops) {
        Some(op) => Some(op),
        None => match find_count(ops, Opcode::Create2) {
            Some(c) => if i == 0 && c == 1 {
                None
            } else {
                Some(Opcode::Create2)
            },
            None => None,
        },
    }
}

/// The first level with an opcode violation, in level order; levels the
/// trace never reached are clean.
pub open spec fn forbidden_verdict(levels: Seq<LevelInfoV>) -> Option<(int, Opcode)> {
    if levels.len() > 0 && level_opcode_verdict(0, levels[0].opcodes) is Some {
        Some((0, level_opcode_verdict(0, levels[0].opcodes)->Some_0))
    } else if levels.len() > 1 && level_opcode_verdict(1, levels[1].opcodes) is Some {
        Some((1, level_opcode_verdict(1, levels[1].opcodes)->Some_0))
    } else if levels.len() > 2 && level_opcode_verdict(2, levels[2].opcodes) is Some {
        Some((2, level_opcode_verdict(2, levels[2].opcodes)->Some_0))
    } else {
        None
    }
}

/// The count recorded for `CREATE2` in a level's table, if any.
fn find_create2_count(level: &LevelInfo) -> (r: Option<u64>)
    ensures
        r == find_count(level@.opcodes, Opcode::Create2),
{
    let ghost ops = level@.opcodes;
    proof {
        assert(ops.skip(0) =~= ops);
    }
    let mut j: usize = 0;
    while j < level.opcodes.len()
        invariant
            0 <= j <= level.opcodes.len(),
            ops == level@.opcodes,
            ops.len() == level.opcodes.len(),
            find_count(ops, Opcode::Create2) == find_count(ops.skip(j as int), Opcode::Create2),
        decreases level.opcodes.len() - j,
    {
        let entry = level.opcodes[j];
        proof {
            assert(ops.skip(j as int)[0] == ops[j as int]);
            assert(ops.skip(j as int).drop_first() =~= ops.skip(j as int + 1));
        }
        if entry.opcode == Opcode::Create2 {
            return Some(entry.count);
        }
        j = j + 1;
    }
    proof {
        assert(ops.skip(ops.len() as int).len() == 0);
    }
    None
}

/// Scans one level's opcode table for its verdict.
fn check_level(i: usize, level: &LevelInfo) -> (r: Option<Opcode>)
    requires
        i < 3,
    ensures
        r == level_opcode_verdict(i as int, level@.opcodes),
{
    let ghost ops = level@.opcodes;
    proof {
        assert(ops.skip(0) =~= ops);
    }
    let mut j: usize = 0;
    while j < level.opcodes.len()
        invariant
            0 <= j <= level.opcodes.len(),
            ops == level@.opcodes,
            ops.len() == level.opcodes.len(),
            first_banned(ops) == first_banned(ops.skip(j as int)),
        decreases level.opcodes.len() - j,
    {
        let entry = level.opcodes[j];
        proof {
            assert(ops.skip(j as int)[0] == ops[j as int]);
            assert(ops.skip(j as int).drop_first() =~= ops.skip(j as int + 1));
        }
        if banned_opcode(entry.opcode) {
            proof {
                assert(first_banned(ops.skip(j as int)) == Some(entry.opcode));
            }
            return Some(entry.opcode);
        }
        j = j + 1;
    }
    proof {
        assert(ops.skip(ops.len() as int).len() == 0);
        assert(first_banned(ops) is None);
    }
    let create2_count = find_create2_count(level);
    match create2_count {
        Some(c) => if i == 0 && c == 1 {
            None
        } else {
            Some(Opcode::Create2)
        },
        None => None,
    }
}

proof fn lemma_first_banned_some(ops: Seq<OpcodeCount>, j: int)
    requires
        0 <= j < ops.len(),
        is_banned(ops[j].opcode),
    ensures
        first_banned(ops) is Some,
    decreases ops.len(),
{
    if !is_banned(ops[0].opcode) {
        assert(ops.drop_first()[j - 1] == ops[j]);
        lemma_first_banned_some(ops.drop_first(), j - 1);
    }
}

/// A banned opcode at any level the trace reached is rejected: the
/// forbidden-opcode verdict cannot be clean.
pub proof fn lemma_banned_opcode_rejected(levels: Seq<LevelInfoV>, i: int, j: int)
    requires
        0 <= i < 3,
        i < levels.len(),
        0 <= j < levels[i].opcodes.len(),
        is_banned(levels[i].opcodes[j].opcode),
    ensures
        forbidden_verdict(levels) is Some,
{
    lemma_first_banned_some(levels[i].opcodes, j);
    if forbidden_verdict(levels) is None {
        assert(level_opcode_verdict(i, levels[i].opcodes) is None);
        assert(false);
    }
}

/// The factory's `CREATE2` rule: with no banned opcode anywhere, a trace
/// whose factory level records `CREATE2` with count `c` is admitted exactly
/// when `c` is one and no other level records `CREATE2`.
pub proof fn lemma_create2_factory_rule(levels: Seq<LevelInfoV>, c: u64)
    requires
        1 <= levels.len() <= 3,
        find_count(levels[0].opcodes, Opcode::Create2) == Some(c),
        forall|i: int| 0 <= i < levels.len() ==> first_banned(#[trigger] levels[i].opcodes) is None,
    ensures
        forbidden_verdict(levels) is None <==> (c == 1 && forall|i: int|
            1 <= i < levels.len() ==> find_count(
                #[trigger] levels[i].opcodes,
                Opcode::Create2,
            ) is None),
{
    if forbidden_verdict(levels) is None {
        assert(level_opcode_verdict(0, levels[0].opcodes) is None);
        assert(c == 1);
        assert forall|i: int| 1 <= i < levels.len() implies find_count(
            #[trigger] levels[i].opcodes,
            Opcode::Create2,
        ) is None by {
            assert(level_opcode_verdict(i, levels[i].opcodes) is None);
            if find_count(levels[i].opcodes, Opcode::Create2) is Some {
                assert(level_opcode_verdict(i, levels[i].opcodes) is Some);
            }
        }
    }
    if c == 1 && (forall|i: int|
        1 <= i < levels.len() ==> find_count(
            #[trigger] levels[i].opcodes,
            Opcode::Create2,
        ) is None) {
        assert(level_opcode_verdict(0, levels[0].opcodes) is None);
        if levels.len() > 1 {
            assert(find_count(levels[1].opcodes, Opcode::Create2) is None);
            assert(level_opcode_verdict(1, levels[1].opcodes) is None);
        }
        if levels.len() > 2 {
            assert(find_count(levels[2].opcodes, Opcode::Create2) is None);
            assert(level_opcode_verdict(2, levels[2].opcodes) is None);
        }
    }
}

/// The forbidden-opcode rule over all three entity levels.
pub fn forbidden_opcodes(trace: &TraceFrame) -> (r: Result<(), SimulateValidationError>)
    ensures
        r is Ok <==> forbidden_verdict(trace@.number_levels) is None,
        r matches Err(e) ==> {
            &&& forbidden_verdict(trace@.number_levels) matches Some(v)
            &&& e == (SimulateValidationError::OpcodeValidation {
                entity: entity_of_level(v.0),
                opcode: v.1,
            })
        },
{
    let mut i: usize = 0;
    while i < 3
        invariant
            0 <= i <= 3,
            forall|k: int|
                0 <= k < i && k < trace@.number_levels.len() ==> level_opcode_verdict(
                    k,
                    #[trigger] trace@.number_levels[k].opcodes,
                ) is None,
        decreases 3 - i,
    {
        if i < trace.number_levels.len() {
            let verdict = check_level(i, &trace.number_levels[i]);
            if let Some(op) = verdict {
                return Err(
                    SimulateValidationError::OpcodeValidation {
                        entity: level_entity(i),
                        opcode: op,
                    },
                );
            }
        }
        i = i + 1;
    }
    Ok(())
}

} // verus!
