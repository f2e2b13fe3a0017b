use vstd::prelude::*;

use crate::errors::SimulateValidationError;
use crate::slots::{
    associated_with_slot, index_matches, index_wf, lemma_assoc_agree, parse_slots, spec_associated,
    AssocVerdict, SlotIndex,
};
use crate::stake::stakes_wf;
use crate::types::{is_address, AccessEntryV, StakeInfo, StakeInfoV, TraceFrame, TraceFrameV, UserOperation, UserOperationV};
use crate::util::{bytes_eq, bytes_view, clone_bytes};

verus! {

// ---------------------------------------------------------------------------
// The storage-access rule, slot by slot.
// ---------------------------------------------------------------------------

/// Why one touched slot is refused, if it is: the slot text of the error.
///
/// A slot is allowed when it is associated with the sender (with the
/// touching entity staked while an `initCode` deploys the account), equal to
/// the touching entity's own address space, or associated with that entity
/// (staked). An empty slot string never marks the slot as stake-requiring,
/// so the stake check is skipped for it.
pub open spec fn slot_error(
    uo: UserOperationV,
    keccak: Seq<Seq<u8>>,
    stakes: Seq<StakeInfoV>,
    i: int,
    addr: Seq<u8>,
    slot: Seq<u8>,
) -> Option<Seq<u8>> {
    let sa = spec_associated(keccak, stakes, uo.sender, slot);
    if sa == AssocVerdict::BadSlot {
        Some(slot)
    } else if sa == AssocVerdict::Yes {
        if uo.init_code.len() > 0 {
            if slot.len() > 0 && stakes[i].stake == 0 {
                Some(slot)
            } else {
                None
            }
        } else {
            None
        }
    } else if addr == stakes[i].address {
        if slot.len() > 0 && stakes[i].stake == 0 {
            Some(slot)
        } else {
            None
        }
    } else {
        let ea = spec_associated(keccak, stakes, stakes[i].address, slot);
        if ea == AssocVerdict::BadSlot {
            Some(slot)
        } else if ea == AssocVerdict::Yes {
            if slot.len() > 0 && stakes[i].stake == 0 {
                Some(slot)
            } else {
                None
            }
        } else {
            Some(slot)
        }
    }
}

/// The first refused slot of a list, in list order.
pub open spec fn slots_error(
    uo: UserOperationV,
    keccak: Seq<Seq<u8>>,
    stakes: Seq<StakeInfoV>,
    i: int,
    addr: Seq<u8>,
    slots: Seq<Seq<u8>>,
) -> Option<Seq<u8>>
    decreases slots.len(),
{
    if slots.len() == 0 {
        None
    } else {
        match slot_error(uo, keccak, stakes, i, addr, slots[0]) {
            Some(s) => Some(s),
            None => slots_error(uo, keccak, stakes, i, addr, slots.drop_first()),
        }
    }
}

/// The slots one access entry touches: reads first, then writes.
pub open spec fn access_slots(e: AccessEntryV) -> Seq<Seq<u8>> {
    e.access.reads + e.access.writes
}

/// The first refused slot over the touched addresses of one level; the
/// sender's and the EntryPoint's own storage is exempt.
pub open spec fn pairs_error(
    uo: UserOperationV,
    ep: Seq<u8>,
    keccak: Seq<Seq<u8>>,
    stakes: Seq<StakeInfoV>,
    i: int,
    pairs: Seq<AccessEntryV>,
) -> Option<Seq<u8>>
    decreases pairs.len(),
{
    if pairs.len() == 0 {
        None
    } else {
        let head = if pairs[0].address == uo.sender || pairs[0].address == ep {
            None
        } else {
            slots_error(uo, keccak, stakes, i, pairs[0].address, access_slots(pairs[0]))
        };
        match head {
            Some(s) => Some(s),
            None => pairs_error(uo, ep, keccak, stakes, i, pairs.drop_first()),
        }
    }
}

/// The first refused slot of one level, or `None` for a level the trace
/// never reached.
pub open spec fn level_storage_error(
    uo: UserOperationV,
    ep: Seq<u8>,
    trace: TraceFrameV,
    stakes: Seq<StakeInfoV>,
    i: int,
) -> Option<Seq<u8>> {
    if i < trace.number_levels.len() {
        pairs_error(uo, ep, trace.keccak, stakes, i, trace.number_levels[i].access)
    } else {
        None
    }
}

/// The verdict of the storage-access rule: the first refused slot over the
/// three levels, in level order.
pub open spec fn storage_verdict(
    uo: UserOperationV,
    ep: Seq<u8>,
    trace: TraceFrameV,
    stakes: Seq<StakeInfoV>,
) -> Option<Seq<u8>> {
    if level_storage_error(uo, ep, trace, stakes, 0) is Some {
        level_storage_error(uo, ep, trace, stakes, 0)
    } else if level_storage_error(uo, ep, trace, stakes, 1) is Some {
        level_storage_error(uo, ep, trace, stakes, 1)
    } else if level_storage_error(uo, ep, trace, stakes, 2) is Some {
        level_storage_error(uo, ep, trace, stakes, 2)
    } else {
        None
    }
}

proof fn lemma_slots_error_step(
    uo: UserOperationV,
    keccak: Seq<Seq<u8>>,
    stakes: Seq<StakeInfoV>,
    i: int,
    addr: Seq<u8>,
    slots: Seq<Seq<u8>>,
    s: int,
)
    requires
        0 <= s < slots.len(),
        slots_error(uo, keccak, stakes, i, addr, slots) == slots_error(
            uo,
            keccak,
            stakes,
            i,
            addr,
            slots.skip(s),
        ),
    ensures
        slot_error(uo, keccak, stakes, i, addr, slots[s]) is Some ==> slots_error(
            uo,
            keccak,
            stakes,
            i,
            addr,
            slots,
        ) == slot_error(uo, keccak, stakes, i, addr, slots[s]),
        slot_error(uo, keccak, stakes, i, addr, slots[s]) is None ==> slots_error(
            uo,
            keccak,
            stakes,
            i,
            addr,
            slots,
        ) == slots_error(uo, keccak, stakes, i, addr, slots.skip(s + 1)),
{
    assert(slots.skip(s)[0] == slots[s]);
    assert(slots.skip(s).drop_first() =~= slots.skip(s + 1));
}

proof fn lemma_pairs_error_step(
    uo: UserOperationV,
    ep: Seq<u8>,
    keccak: Seq<Seq<u8>>,
    stakes: Seq<StakeInfoV>,
    i: int,
    pairs: Seq<AccessEntryV>,
    pi: int,
)
    requires
        0 <= pi < pairs.len(),
        pairs_error(uo, ep, keccak, stakes, i, pairs) == pairs_error(
            uo,
            ep,
            keccak,
            stakes,
            i,
            pairs.skip(pi),
        ),
    ensures
        ({
            let head = if pairs[pi].address == uo.sender || pairs[pi].address == ep {
                None
            } else {
                slots_error(uo, keccak, stakes, i, pairs[pi].address, access_slots(pairs[pi]))
            };
            &&& (head is Some ==> pairs_error(uo, ep, keccak, stakes, i, pairs) == head)
            &&& (head is None ==> pairs_error(uo, ep, keccak, stakes, i, pairs) == pairs_error(
                uo,
                ep,
                keccak,
                stakes,
                i,
                pairs.skip(pi + 1),
            ))
        }),
{
    assert(pairs.skip(pi)[0] == pairs[pi]);
    assert(pairs.skip(pi).drop_first() =~= pairs.skip(pi + 1));
}

/// The per-slot decision of the storage-access rule.
fn check_slot(
    user_operation: &UserOperation,
    stake_info_by_entity: &Vec<StakeInfo>,
    index: &SlotIndex,
    i: usize,
    pair_address: &Vec<u8>,
    slot: &Vec<u8>,
    Ghost(kv): Ghost<Seq<Seq<u8>>>,
) -> (r: Result<(), SimulateValidationError>)
    requires
        user_operation.wf(),
        stakes_wf(stake_info_by_entity@.map_values(|s2: StakeInfo| s2@)),
        i < 3,
        index_wf(index@),
        index_matches(index@, kv, stake_info_by_entity@.map_values(|s2: StakeInfo| s2@)),
    ensures
        ({
            let serr = slot_error(
                user_operation@,
                kv,
                stake_info_by_entity@.map_values(|s2: StakeInfo| s2@),
                i as int,
                pair_address@,
                slot@,
            );
            &&& (r is Ok <==> serr is None)
            &&& (r matches Err(e) ==> serr == Some(slot@) && (e matches
                SimulateValidationError::StorageAccessValidation { slot: sl } && sl@ == slot@))
        }),
{
    let ghost uo = user_operation@;
    let ghost stakes = stake_info_by_entity@.map_values(|s2: StakeInfo| s2@);
    proof {
        assert(stakes[i as int] == stake_info_by_entity@[i as int]@);
    }
    let sa = associated_with_slot(&user_operation.sender, slot, index);
    proof {
        lemma_assoc_agree(index@, kv, stakes, uo.sender, slot@);
    }
    let mut staked = false;
    if sa == AssocVerdict::BadSlot {
        return Err(
            SimulateValidationError::StorageAccessValidation { slot: clone_bytes(slot) },
        );
    } else if sa == AssocVerdict::Yes {
        if user_operation.init_code.len() > 0 {
            staked = true;
        } else {
            return Ok(());
        }
    } else {
        if bytes_eq(pair_address, &stake_info_by_entity[i].address) {
            staked = true;
        } else {
            let ea = associated_with_slot(&stake_info_by_entity[i].address, slot, index);
            proof {
                lemma_assoc_agree(index@, kv, stakes, stakes[i as int].address, slot@);
            }
            if ea == AssocVerdict::BadSlot {
                return Err(
                    SimulateValidationError::StorageAccessValidation { slot: clone_bytes(slot) },
                );
            } else if ea == AssocVerdict::Yes {
                staked = true;
            } else {
                return Err(
                    SimulateValidationError::StorageAccessValidation { slot: clone_bytes(slot) },
                );
            }
        }
    }
    if staked && slot.len() > 0 && stake_info_by_entity[i].stake.is_zero() {
        return Err(
            SimulateValidationError::StorageAccessValidation { slot: clone_bytes(slot) },
        );
    }
    Ok(())
}

/// Applies the storage-access rule: every slot touched by an entity outside
/// the sender's and the EntryPoint's own storage must be associated with the
/// sender or belong to the entity, with the entity staked where the rules
/// require it; the first refused slot is reported.
pub fn storage_access(
    user_operation: &UserOperation,
    entry_point: &Vec<u8>,
    stake_info_by_entity: &Vec<StakeInfo>,
    trace: &TraceFrame,
) -> (r: Result<(), SimulateValidationError>)
    requires
        user_operation.wf(),
        is_address(entry_point@),
        stakes_wf(stake_info_by_entity@.map_values(|s: StakeInfo| s@)),
    ensures
        r is Ok <==> storage_verdict(
            user_operation@,
            entry_point@,
            trace@,
            stake_info_by_entity@.map_values(|s: StakeInfo| s@),
        ) is None,
        r matches Err(e) ==> {
            &&& storage_verdict(
                user_operation@,
                entry_point@,
                trace@,
                stake_info_by_entity@.map_values(|s: StakeInfo| s@),
            ) matches Some(out)
            &&& e matches SimulateValidationError::StorageAccessValidation { slot } && slot@ == out
        },
{
    let ghost uo = user_operation@;
    let ghost ep = entry_point@;
    let ghost tv = trace@;
    let ghost kv = tv.keccak;
    let ghost stakes = stake_info_by_entity@.map_values(|s: StakeInfo| s@);
    let index = parse_slots(&trace.keccak, stake_info_by_entity);
    proof {
        assert(bytes_view(trace.keccak@) == kv);
    }
    let mut i: usize = 0;
    while i < 3
        invariant
            0 <= i <= 3,
            uo == user_operation@,
            ep == entry_point@,
            tv == trace@,
            kv == tv.keccak,
            stakes == stake_info_by_entity@.map_values(|s: StakeInfo| s@),
            user_operation.wf(),
            is_address(ep),
            stakes_wf(stakes),
            index_wf(index@),
            index_matches(index@, kv, stakes),
            forall|k: int| 0 <= k < i ==> level_storage_error(uo, ep, tv, stakes, k) is None,
        decreases 3 - i,
    {
        if i < trace.number_levels.len() {
            let level = &trace.number_levels[i];
            let ghost pairs = tv.number_levels[i as int].access;
            proof {
                assert(tv.number_levels[i as int] == trace.number_levels@[i as int]@);
                assert(pairs.skip(0) =~= pairs);
            }
            let mut pi: usize = 0;
            while pi < level.access.len()
                invariant
                    0 <= pi <= level.access.len(),
                    uo == user_operation@,
                    ep == entry_point@,
                    tv == trace@,
                    kv == tv.keccak,
                    stakes == stake_info_by_entity@.map_values(|s: StakeInfo| s@),
                    user_operation.wf(),
                    is_address(ep),
                    stakes_wf(stakes),
                    index_wf(index@),
                    index_matches(index@, kv, stakes),
                    i < 3,
                    i < trace.number_levels@.len(),
                    forall|k: int| 0 <= k < i ==> level_storage_error(uo, ep, tv, stakes, k) is None,
                    level == &trace.number_levels@[i as int],
                    pairs == tv.number_levels[i as int].access,
                    pairs.len() == level.access@.len(),
                    pairs_error(uo, ep, kv, stakes, i as int, pairs) == pairs_error(
                        uo,
                        ep,
                        kv,
                        stakes,
                        i as int,
                        pairs.skip(pi as int),
                    ),
                decreases level.access.len() - pi,
            {
                let pair = &level.access[pi];
                proof {
                    assert(pairs[pi as int] == level.access@[pi as int]@);
                }
                let is_sender = bytes_eq(&pair.address, &user_operation.sender);
                let is_ep = bytes_eq(&pair.address, entry_point);
                if !is_sender && !is_ep {
                    let ghost slotseq = access_slots(pairs[pi as int]);
                    let reads_len = pair.access.reads.len();
                    let writes_len = pair.access.writes.len();
                    proof {
                        assert(slotseq.len() == reads_len + writes_len);
                        assert(slotseq.skip(0) =~= slotseq);
                    }
                    let mut s: usize = 0;
                    while s < reads_len
                        invariant
                            0 <= s <= reads_len,
                            uo == user_operation@,
                            kv == tv.keccak,
                            stakes == stake_info_by_entity@.map_values(|s2: StakeInfo| s2@),
                            user_operation.wf(),
                            stakes_wf(stakes),
                            index_wf(index@),
                            index_matches(index@, kv, stakes),
                            i < 3,
                            ep == entry_point@,
                            tv == trace@,
                            is_address(ep),
                            i < trace.number_levels@.len(),
                            forall|k: int|
                                0 <= k < i ==> level_storage_error(uo, ep, tv, stakes, k) is None,
                            pairs == tv.number_levels[i as int].access,
                            pi < pairs.len(),
                            pairs[pi as int].address != uo.sender,
                            pairs[pi as int].address != ep,
                            pairs_error(uo, ep, kv, stakes, i as int, pairs) == pairs_error(
                                uo,
                                ep,
                                kv,
                                stakes,
                                i as int,
                                pairs.skip(pi as int),
                            ),
                            pairs[pi as int] == pair@,
                            slotseq == access_slots(pairs[pi as int]),
                            reads_len == pair.access.reads@.len(),
                            writes_len == pair.access.writes@.len(),
                            slotseq.len() == reads_len + writes_len,
                            slots_error(uo, kv, stakes, i as int, pairs[pi as int].address, slotseq)
                                == slots_error(
                                uo,
                                kv,
                                stakes,
                                i as int,
                                pairs[pi as int].address,
                                slotseq.skip(s as int),
                            ),
                        decreases reads_len - s,
                    {
                        let slot: &Vec<u8> = &pair.access.reads[s];
                        proof {
                            assert(slotseq[s as int] == pairs[pi as int].access.reads[s as int]);
                            assert(slotseq[s as int] == slot@);
                        }
                        let outcome = check_slot(
                            user_operation,
                            stake_info_by_entity,
                            &index,
                            i,
                            &pair.address,
                            slot,
                            Ghost(kv),
                        );
                        proof {
                            lemma_slots_error_step(
                                uo,
                                kv,
                                stakes,
                                i as int,
                                pairs[pi as int].address,
                                slotseq,
                                s as int,
                            );
                        }
                        if let Err(e) = outcome {
                            proof {
                                lemma_pairs_error_step(uo, ep, kv, stakes, i as int, pairs, pi as int);
                            }
                            return Err(e);
                        }
                        s = s + 1;
                    }
                    let mut w: usize = 0;
                    while w < writes_len
                        invariant
                            0 <= w <= writes_len,
                            uo == user_operation@,
                            kv == tv.keccak,
                            stakes == stake_info_by_entity@.map_values(|s2: StakeInfo| s2@),
                            user_operation.wf(),
                            stakes_wf(stakes),
                            index_wf(index@),
                            index_matches(index@, kv, stakes),
                            i < 3,
                            ep == entry_point@,
                            tv == trace@,
                            is_address(ep),
                            i < trace.number_levels@.len(),
                            forall|k: int|
                                0 <= k < i ==> level_storage_error(uo, ep, tv, stakes, k) is None,
                            pairs == tv.number_levels[i as int].access,
                            pi < pairs.len(),
                            pairs[pi as int].address != uo.sender,
                            pairs[pi as int].address != ep,
                            pairs_error(uo, ep, kv, stakes, i as int, pairs) == pairs_error(
                                uo,
                                ep,
                                kv,
                                stakes,
                                i as int,
                                pairs.skip(pi as int),
                            ),
                            pairs[pi as int] == pair@,
                            slotseq == access_slots(pairs[pi as int]),
                            reads_len == pair.access.reads@.len(),
                            writes_len == pair.access.writes@.len(),
                            slotseq.len() == reads_len + writes_len,
                            slots_error(uo, kv, stakes, i as int, pairs[pi as int].address, slotseq)
                                == slots_error(
                                uo,
                                kv,
                                stakes,
                                i as int,
                                pairs[pi as int].address,
                                slotseq.skip(reads_len + w as int),
                            ),
                        decreases writes_len - w,
                    {
                        let slot: &Vec<u8> = &pair.access.writes[w];
                        proof {
                            assert(slotseq[reads_len + w as int] == pairs[pi as int].access.writes[
                                w as int]);
                            assert(slotseq[reads_len + w as int] == slot@);
                        }
                        let outcome = check_slot(
                            user_operation,
                            stake_info_by_entity,
                            &index,
                            i,
                            &pair.address,
                            slot,
                            Ghost(kv),
                        );
                        proof {
                            lemma_slots_error_step(
                                uo,
                                kv,
                                stakes,
                                i as int,
                                pairs[pi as int].address,
                                slotseq,
                                reads_len + w as int,
                            );
                        }
                        if let Err(e) = outcome {
                            proof {
                                lemma_pairs_error_step(uo, ep, kv, stakes, i as int, pairs, pi as int);
                            }
                            return Err(e);
                        }
                        w = w + 1;
                    }
                    proof {
                        assert(slotseq.skip(slotseq.len() as int).len() == 0);
                        assert(slots_error(
                            uo,
                            kv,
                            stakes,
                            i as int,
                            pairs[pi as int].address,
                            slotseq,
                        ) is None);
                        lemma_pairs_error_step(uo, ep, kv, stakes, i as int, pairs, pi as int);
                    }
                } else {
                    proof {
                        lemma_pairs_error_step(uo, ep, kv, stakes, i as int, pairs, pi as int);
                    }
                }
                pi = pi + 1;
            }
            proof {
                assert(pairs.skip(pairs.len() as int).len() == 0);
                assert(pairs_error(uo, ep, kv, stakes, i as int, pairs) is None);
                assert(level_storage_error(uo, ep, tv, stakes, i as int) is None);
            }
        } else {
            proof {
                assert(level_storage_error(uo, ep, tv, stakes, i as int) is None);
            }
        }
        i = i + 1;
    }
    Ok(())
}

// ---------------------------------------------------------------------------
// What admission guarantees, slot by slot.
// ---------------------------------------------------------------------------

proof fn lemma_slots_error_none_all(
    uo: UserOperationV,
    keccak: Seq<Seq<u8>>,
    stakes: Seq<StakeInfoV>,
    i: int,
    addr: Seq<u8>,
    slots: Seq<Seq<u8>>,
)
    requires
        slots_error(uo, keccak, stakes, i, addr, slots) is None,
    ensures
        forall|s: int|
            0 <= s < slots.len() ==> slot_error(uo, keccak, stakes, i, addr, #[trigger] slots[s]) is None,
    decreases slots.len(),
{
    if slots.len() > 0 {
        lemma_slots_error_none_all(uo, keccak, stakes, i, addr, slots.drop_first());
        assert(forall|s: int|
            0 <= s < slots.drop_first().len() ==> #[trigger] slots.drop_first()[s] == slots[s + 1]);
        assert forall|s: int|
            0 <= s < slots.len() implies slot_error(
            uo,
            keccak,
            stakes,
            i,
            addr,
            #[trigger] slots[s],
        ) is None by {
            if s > 0 {
                assert(slots.drop_first()[s - 1] == slots[s]);
            }
        }
    }
}

proof fn lemma_pairs_error_none_all(
    uo: UserOperationV,
    ep: Seq<u8>,
    keccak: Seq<Seq<u8>>,
    stakes: Seq<StakeInfoV>,
    i: int,
    pairs: Seq<AccessEntryV>,
)
    requires
        pairs_error(uo, ep, keccak, stakes, i, pairs) is None,
    ensures
        forall|pi: int|
            0 <= pi < pairs.len() && (#[trigger] pairs[pi]).address != uo.sender
                && pairs[pi].address != ep ==> slots_error(
                uo,
                keccak,
                stakes,
                i,
                pairs[pi].address,
                access_slots(pairs[pi]),
            ) is None,
    decreases pairs.len(),
{
    if pairs.len() > 0 {
        lemma_pairs_error_none_all(uo, ep, keccak, stakes, i, pairs.drop_first());
        assert forall|pi: int|
            0 <= pi < pairs.len() && (#[trigger] pairs[pi]).address != uo.sender
                && pairs[pi].address != ep implies slots_error(
            uo,
            keccak,
            stakes,
            i,
            pairs[pi].address,
            access_slots(pairs[pi]),
        ) is None by {
            if pi > 0 {
                assert(pairs.drop_first()[pi - 1] == pairs[pi]);
            }
        }
    }
}

/// What admission guarantees: every slot a checked entity touches outside
/// the sender's and the EntryPoint's storage is sender-associated,
/// entity-equal or entity-associated, and in the branches that demand a
/// stake the entity's stake is positive. Empty slot strings are left out:
/// on them the stake check is skipped.
pub proof fn lemma_storage_admission(
    uo: UserOperationV,
    ep: Seq<u8>,
    trace: TraceFrameV,
    stakes: Seq<StakeInfoV>,
    i: int,
    pi: int,
    s: int,
)
    requires
        storage_verdict(uo, ep, trace, stakes) is None,
        0 <= i < 3,
        i < trace.number_levels.len(),
        0 <= pi < trace.number_levels[i].access.len(),
        trace.number_levels[i].access[pi].address != uo.sender,
        trace.number_levels[i].access[pi].address != ep,
        0 <= s < access_slots(trace.number_levels[i].access[pi]).len(),
        access_slots(trace.number_levels[i].access[pi])[s].len() > 0,
    ensures
        ({
            let pair = trace.number_levels[i].access[pi];
            let slot = access_slots(pair)[s];
            let sa = spec_associated(trace.keccak, stakes, uo.sender, slot);
            ||| (sa == AssocVerdict::Yes && (uo.init_code.len() > 0 ==> stakes[i].stake > 0))
            ||| (sa == AssocVerdict::No && pair.address == stakes[i].address && stakes[i].stake > 0)
            ||| (sa == AssocVerdict::No && pair.address != stakes[i].address && spec_associated(
                trace.keccak,
                stakes,
                stakes[i].address,
                slot,
            ) == AssocVerdict::Yes && stakes[i].stake > 0)
        }),
{
    let pair = trace.number_levels[i].access[pi];
    let slot = access_slots(pair)[s];
    assert(level_storage_error(uo, ep, trace, stakes, i) is None);
    lemma_pairs_error_none_all(uo, ep, trace.keccak, stakes, i, trace.number_levels[i].access);
    assert(slots_error(uo, trace.keccak, stakes, i, pair.address, access_slots(pair)) is None);
    lemma_slots_error_none_all(uo, trace.keccak, stakes, i, pair.address, access_slots(pair));
    assert(slot_error(uo, trace.keccak, stakes, i, pair.address, slot) is None);
}

} // verus!
