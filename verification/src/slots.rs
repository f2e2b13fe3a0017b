use vstd::prelude::*;

use crate::hash::{keccak256, keccak256_of};
use crate::num::{be_bytes_to_u256, be_val, parse_hex_u256, parse_hex_val, u256_eq, u256_in_window};
use crate::types::{StakeInfo, StakeInfoV};
use crate::util::{
    bytes_eq, bytes_view, clone_bytes, is_zero_bytes, spec_is_zero_bytes, spec_starts_with,
    starts_with,
};

verus! {

// ---------------------------------------------------------------------------
// The slot index: for each entity address, the storage slots derived from
// hashing that address.
// ---------------------------------------------------------------------------

pub struct SlotEntry {
    pub address: Vec<u8>,
    pub slots: Vec<Vec<u8>>,
}

pub ghost struct SlotEntryV {
    pub address: Seq<u8>,
    pub slots: Seq<Seq<u8>>,
}

impl View for SlotEntry {
    type V = SlotEntryV;

    open spec fn view(&self) -> SlotEntryV {
        SlotEntryV { address: self.address@, slots: bytes_view(self.slots@) }
    }
}

/// Association table from entity address to its derived slots.
pub struct SlotIndex {
    pub entries: Vec<SlotEntry>,
}

impl View for SlotIndex {
    type V = Seq<SlotEntryV>;

    open spec fn view(&self) -> Seq<SlotEntryV> {
        entries_view(self.entries@)
    }
}

/// The view of a sequence of index entries.
pub open spec fn entries_view(entries: Seq<SlotEntry>) -> Seq<SlotEntryV> {
    entries.map_values(|e: SlotEntry| e@)
}

/// The slots held for an address, by first matching entry.
pub open spec fn index_lookup(entries: Seq<SlotEntryV>, a: Seq<u8>) -> Option<Seq<Seq<u8>>>
    decreases entries.len(),
{
    if entries.len() == 0 {
        None
    } else if entries[0].address == a {
        Some(entries[0].slots)
    } else {
        index_lookup(entries.drop_first(), a)
    }
}

pub open spec fn index_has(entries: Seq<SlotEntryV>, a: Seq<u8>) -> bool {
    index_lookup(entries, a) is Some
}

pub open spec fn index_contains_slot(entries: Seq<SlotEntryV>, a: Seq<u8>, k: Seq<u8>) -> bool {
    match index_lookup(entries, a) {
        Some(s) => s.contains(k),
        None => false,
    }
}

/// Entry addresses are pairwise distinct and every held slot is a 32-byte
/// keccak output.
pub open spec fn index_wf(entries: Seq<SlotEntryV>) -> bool {
    &&& forall|i: int, j: int|
        0 <= i < j < entries.len() ==> #[trigger] entries[i].address != #[trigger] entries[j].address
    &&& forall|i: int, k: int|
        0 <= i < entries.len() && 0 <= k < entries[i].slots.len()
            ==> #[trigger] entries[i].slots[k].len() == 32
}

proof fn lemma_index_lookup_none(entries: Seq<SlotEntryV>, a: Seq<u8>)
    ensures
        (index_lookup(entries, a) is None) <==> (forall|i: int|
            0 <= i < entries.len() ==> #[trigger] entries[i].address != a),
    decreases entries.len(),
{
    if entries.len() > 0 {
        let tail = entries.drop_first();
        lemma_index_lookup_none(tail, a);
        assert(forall|i: int| 0 <= i < tail.len() ==> #[trigger] tail[i] == entries[i + 1]);
        if entries[0].address == a {
            assert(!(forall|i: int|
                0 <= i < entries.len() ==> #[trigger] entries[i].address != a)) by {
                assert(entries[0].address == a);
            }
        } else {
            if index_lookup(tail, a) is None {
                assert forall|i: int| 0 <= i < entries.len() implies #[trigger] entries[i].address
                    != a by {
                    if i > 0 {
                        assert(tail[i - 1] == entries[i]);
                        assert(tail[i - 1].address != a);
                    }
                }
            } else {
                assert(exists|i: int| 0 <= i < tail.len() && #[trigger] tail[i].address == a);
                let i = choose|i: int| 0 <= i < tail.len() && #[trigger] tail[i].address == a;
                assert(entries[i + 1].address == a);
            }
        }
    }
}

proof fn lemma_index_lookup_push(entries: Seq<SlotEntryV>, e: SlotEntryV, a: Seq<u8>)
    ensures
        index_lookup(entries.push(e), a) == (if index_has(entries, a) {
            index_lookup(entries, a)
        } else if e.address == a {
            Some(e.slots)
        } else {
            None
        }),
    decreases entries.len(),
{
    if entries.len() == 0 {
        assert(entries.push(e).drop_first() =~= entries);
    } else {
        lemma_index_lookup_push(entries.drop_first(), e, a);
        assert(entries.push(e).drop_first() =~= entries.drop_first().push(e));
        assert(entries.push(e)[0] == entries[0]);
    }
}

// ---------------------------------------------------------------------------
// What the index holds, said over the trace and the stake vector alone.
// ---------------------------------------------------------------------------

/// A keccak preimage associates a slot with an entity when it starts with
/// the entity's address left-padded to 32 bytes.
pub open spec fn pad_address(a: Seq<u8>) -> Seq<u8> {
    Seq::new(12, |i: int| 0u8) + a
}

/// A non-zero address held by one of the three entities.
pub open spec fn entity_addr_active(stakes: Seq<StakeInfoV>, a: Seq<u8>) -> bool {
    !spec_is_zero_bytes(a) && exists|i: int|
        0 <= i < stakes.len() && #[trigger] stakes[i].address == a
}

/// Whether any traced keccak preimage associates a slot with address `a`.
pub open spec fn entity_has_slots(keccak: Seq<Seq<u8>>, stakes: Seq<StakeInfoV>, a: Seq<u8>) -> bool {
    entity_addr_active(stakes, a) && exists|j: int|
        0 <= j < keccak.len() && spec_starts_with(#[trigger] keccak[j], pad_address(a))
}

/// Whether `k` is a slot associated with address `a` by some traced keccak
/// preimage.
pub open spec fn is_assoc_slot(
    keccak: Seq<Seq<u8>>,
    stakes: Seq<StakeInfoV>,
    a: Seq<u8>,
    k: Seq<u8>,
) -> bool {
    entity_addr_active(stakes, a) && exists|j: int|
        0 <= j < keccak.len() && spec_starts_with(#[trigger] keccak[j], pad_address(a)) && k
            == keccak256_of(keccak[j])
}

/// The full contract of the slot index against the trace.
pub open spec fn index_matches(
    entries: Seq<SlotEntryV>,
    keccak: Seq<Seq<u8>>,
    stakes: Seq<StakeInfoV>,
) -> bool {
    &&& forall|a: Seq<u8>| #[trigger] index_has(entries, a) <==> entity_has_slots(keccak, stakes, a)
    &&& forall|a: Seq<u8>, k: Seq<u8>|
        #[trigger] index_contains_slot(entries, a, k) <==> is_assoc_slot(keccak, stakes, a, k)
}

/// `entity_has_slots`, restricted to the first `n` entities.
pub open spec fn has_upto(
    keccak: Seq<Seq<u8>>,
    stakes: Seq<StakeInfoV>,
    n: int,
    a: Seq<u8>,
) -> bool {
    &&& !spec_is_zero_bytes(a)
    &&& exists|ii: int| 0 <= ii < n && #[trigger] stakes[ii].address == a
    &&& exists|j: int| 0 <= j < keccak.len() && spec_starts_with(#[trigger] keccak[j], pad_address(a))
}

/// `is_assoc_slot`, restricted to the first `n` entities.
pub open spec fn slot_upto(
    keccak: Seq<Seq<u8>>,
    stakes: Seq<StakeInfoV>,
    n: int,
    a: Seq<u8>,
    k: Seq<u8>,
) -> bool {
    &&& !spec_is_zero_bytes(a)
    &&& exists|ii: int| 0 <= ii < n && #[trigger] stakes[ii].address == a
    &&& exists|j: int|
        0 <= j < keccak.len() && spec_starts_with(#[trigger] keccak[j], pad_address(a)) && k
            == keccak256_of(keccak[j])
}

fn pad_address_bytes(a: &Vec<u8>) -> (r: Vec<u8>)
    ensures
        r@ == pad_address(a@),
{
    let mut r: Vec<u8> = Vec::new();
    let mut i: usize = 0;
    while i < 12
        invariant
            0 <= i <= 12,
            r@.len() == i,
            forall|j: int| 0 <= j < i ==> r@[j] == 0u8,
        decreases 12 - i,
    {
        r.push(0u8);
        i = i + 1;
    }
    let mut j: usize = 0;
    while j < a.len()
        invariant
            0 <= j <= a.len(),
            r@.len() == 12 + j,
            forall|m: int| 0 <= m < 12 ==> r@[m] == 0u8,
            forall|m: int| 0 <= m < j ==> r@[12 + m] == a@[m],
        decreases a.len() - j,
    {
        r.push(a[j]);
        j = j + 1;
    }
    proof {
        assert(r@ =~= pad_address(a@));
    }
    r
}

/// Finds the entry for an address, if the index holds one.
fn index_find(entries: &Vec<SlotEntry>, a: &Vec<u8>) -> (r: Option<usize>)
    ensures
        match r {
            Some(p) => {
                &&& p < entries@.len()
                &&& entries@[p as int]@.address == a@
                &&& index_lookup(entries_view(entries@), a@) == Some(entries@[p as int]@.slots)
            },
            None => index_lookup(entries_view(entries@), a@) is None,
        },
{
    let ghost ev = entries_view(entries@);
    proof {
        assert(ev.skip(0) =~= ev);
    }
    let mut p: usize = 0;
    while p < entries.len()
        invariant
            0 <= p <= entries.len(),
            ev == entries_view(entries@),
            ev.len() == entries@.len(),
            index_lookup(ev, a@) == index_lookup(ev.skip(p as int), a@),
        decreases entries.len() - p,
    {
        proof {
            assert(ev.skip(p as int)[0] == ev[p as int]);
            assert(ev.skip(p as int).drop_first() =~= ev.skip(p as int + 1));
        }
        if bytes_eq(&entries[p].address, a) {
            return Some(p);
        }
        p = p + 1;
    }
    proof {
        assert(ev.skip(ev.len() as int).len() == 0);
    }
    None
}

/// Builds the slot-association index: for every traced keccak preimage that
/// starts with an entity's left-padded non-zero address, the preimage's
/// keccak hash is recorded as a slot of that entity.
pub fn parse_slots(keccak: &Vec<Vec<u8>>, stake_info_by_entity: &Vec<StakeInfo>) -> (r: SlotIndex)
    ensures
        index_wf(r@),
        index_matches(r@, bytes_view(keccak@), stake_info_by_entity@.map_values(|s: StakeInfo| s@)),
{
    let ghost kv = bytes_view(keccak@);
    let ghost stakes = stake_info_by_entity@.map_values(|s: StakeInfo| s@);
    let mut entries: Vec<SlotEntry> = Vec::new();
    let mut i: usize = 0;
    while i < stake_info_by_entity.len()
        invariant
            0 <= i <= stake_info_by_entity.len(),
            kv == bytes_view(keccak@),
            stakes == stake_info_by_entity@.map_values(|s: StakeInfo| s@),
            stakes.len() == stake_info_by_entity@.len(),
            index_wf(entries_view(entries@)),
            forall|a: Seq<u8>|
                #[trigger] index_has(entries_view(entries@), a) <==> has_upto(
                    kv,
                    stakes,
                    i as int,
                    a,
                ),
            forall|a: Seq<u8>, k: Seq<u8>|
                #[trigger] index_contains_slot(entries_view(entries@), a, k) <==> slot_upto(
                    kv,
                    stakes,
                    i as int,
                    a,
                    k,
                ),
        decreases stake_info_by_entity.len() - i,
    {
        let ghost pre = entries_view(entries@);
        let addr = &stake_info_by_entity[i].address;
        proof {
            assert(stakes[i as int] == stake_info_by_entity@[i as int]@);
            assert(stakes[i as int].address == addr@);
        }
        if is_zero_bytes(addr) {
            proof {
                assert forall|a: Seq<u8>| #[trigger] index_has(pre, a) <==> has_upto(
                    kv,
                    stakes,
                    i as int + 1,
                    a,
                ) by {
                    if has_upto(kv, stakes, i as int + 1, a) && !has_upto(kv, stakes, i as int, a) {
                        let ii = choose|ii: int|
                            0 <= ii < i as int + 1 && #[trigger] stakes[ii].address == a;
                        assert(ii == i as int);
                        assert(spec_is_zero_bytes(a));
                    }
                }
                assert forall|a: Seq<u8>, k: Seq<u8>|
                    #[trigger] index_contains_slot(pre, a, k) <==> slot_upto(
                        kv,
                        stakes,
                        i as int + 1,
                        a,
                        k,
                    ) by {
                    if slot_upto(kv, stakes, i as int + 1, a, k) && !slot_upto(
                        kv,
                        stakes,
                        i as int,
                        a,
                        k,
                    ) {
                        let ii = choose|ii: int|
                            0 <= ii < i as int + 1 && #[trigger] stakes[ii].address == a;
                        assert(ii == i as int);
                        assert(spec_is_zero_bytes(a));
                    }
                }
            }
        } else {
            let already = index_find(&entries, addr);
            if already.is_some() {
                proof {
                    assert(index_has(pre, addr@));
                    assert forall|a: Seq<u8>| #[trigger] index_has(pre, a) <==> has_upto(
                        kv,
                        stakes,
                        i as int + 1,
                        a,
                    ) by {
                        if a == addr@ {
                            assert(has_upto(kv, stakes, i as int, a));
                        } else if has_upto(kv, stakes, i as int + 1, a) && !has_upto(
                            kv,
                            stakes,
                            i as int,
                            a,
                        ) {
                            let ii = choose|ii: int|
                                0 <= ii < i as int + 1 && #[trigger] stakes[ii].address == a;
                            assert(ii == i as int);
                            assert(a == addr@);
                        }
                    }
                    assert forall|a: Seq<u8>, k: Seq<u8>|
                        #[trigger] index_contains_slot(pre, a, k) <==> slot_upto(
                            kv,
                            stakes,
                            i as int + 1,
                            a,
                            k,
                        ) by {
                        if a == addr@ {
                            if index_contains_slot(pre, a, k) {
                                assert(slot_upto(kv, stakes, i as int, a, k));
                            }
                            if slot_upto(kv, stakes, i as int + 1, a, k) {
                                // the preimage clauses do not depend on which
                                // entity holds the address
                                assert(has_upto(kv, stakes, i as int, a));
                                let ii = choose|ii: int|
                                    0 <= ii < i as int && #[trigger] stakes[ii].address == a;
                                assert(slot_upto(kv, stakes, i as int, a, k));
                            }
                        } else if slot_upto(kv, stakes, i as int + 1, a, k) && !slot_upto(
                            kv,
                            stakes,
                            i as int,
                            a,
                            k,
                        ) {
                            let ii = choose|ii: int|
                                0 <= ii < i as int + 1 && #[trigger] stakes[ii].address == a;
                            assert(ii == i as int);
                            assert(a == addr@);
                        }
                    }
                }
            } else {
                let pad = pad_address_bytes(addr);
                let mut slots: Vec<Vec<u8>> = Vec::new();
                let mut j: usize = 0;
                while j < keccak.len()
                    invariant
                        0 <= j <= keccak.len(),
                        kv == bytes_view(keccak@),
                        kv.len() == keccak@.len(),
                        pad@ == pad_address(addr@),
                        forall|m: int| 0 <= m < slots@.len() ==> #[trigger] slots@[m]@.len() == 32,
                        forall|k: Seq<u8>|
                            #[trigger] bytes_view(slots@).contains(k) <==> (exists|jj: int|
                                0 <= jj < j && spec_starts_with(
                                    #[trigger] kv[jj],
                                    pad_address(addr@),
                                ) && k == keccak256_of(kv[jj])),
                    decreases keccak.len() - j,
                {
                    let ghost old_slots = bytes_view(slots@);
                    proof {
                        assert(kv[j as int] == keccak@[j as int]@);
                    }
                    if starts_with(&keccak[j], &pad) {
                        let h = keccak256(&keccak[j]);
                        slots.push(h);
                        proof {
                            assert(bytes_view(slots@) =~= old_slots.push(h@));
                            assert forall|k: Seq<u8>| #[trigger] bytes_view(slots@).contains(k)
                                <==> (old_slots.contains(k) || k == h@) by {
                                let sv = bytes_view(slots@);
                                if sv.contains(k) {
                                    let m = choose|m: int| 0 <= m < sv.len() && sv[m] == k;
                                    if m < old_slots.len() {
                                        assert(old_slots[m] == k);
                                    }
                                }
                                if old_slots.contains(k) {
                                    let m = choose|m: int|
                                        0 <= m < old_slots.len() && old_slots[m] == k;
                                    assert(sv[m] == k);
                                }
                                if k == h@ {
                                    assert(sv[old_slots.len() as int] == k);
                                }
                            }
                        }
                    }
                    j = j + 1;
                }
                if slots.len() > 0 {
                    let ghost entry_v = SlotEntryV { address: addr@, slots: bytes_view(slots@) };
                    proof {
                        lemma_index_lookup_none(pre, addr@);
                    }
                    entries.push(SlotEntry { address: clone_bytes(addr), slots });
                    proof {
                        let post = entries_view(entries@);
                        assert(post =~= pre.push(entry_v));
                        assert forall|a: Seq<u8>| true implies #[trigger] index_lookup(post, a)
                            == (if index_has(pre, a) {
                            index_lookup(pre, a)
                        } else if a == addr@ {
                            Some(entry_v.slots)
                        } else {
                            None
                        }) by {
                            lemma_index_lookup_push(pre, entry_v, a);
                        }
                        assert(index_wf(post)) by {
                            assert(forall|m: int| 0 <= m < pre.len() ==> #[trigger] post[m] == pre[m]);
                            assert(post[pre.len() as int] == entry_v);
                            assert(forall|m: int|
                                0 <= m < entry_v.slots.len() ==> #[trigger] entry_v.slots[m].len()
                                    == 32);
                        }
                        // the new entry holds a matching preimage, so the
                        // address is active with slots
                        assert(entry_v.slots.contains(entry_v.slots[0]));
                        assert forall|a: Seq<u8>| #[trigger] index_has(post, a) <==> has_upto(
                            kv,
                            stakes,
                            i as int + 1,
                            a,
                        ) by {
                            if a == addr@ {
                                assert(index_has(post, a));
                                assert(has_upto(kv, stakes, i as int + 1, a)) by {
                                    assert(stakes[i as int].address == a);
                                    let jj = choose|jj: int|
                                        0 <= jj < kv.len() && spec_starts_with(
                                            #[trigger] kv[jj],
                                            pad_address(addr@),
                                        ) && entry_v.slots[0] == keccak256_of(kv[jj]);
                                }
                            } else {
                                assert(index_lookup(post, a) == index_lookup(pre, a));
                                if has_upto(kv, stakes, i as int + 1, a) && !has_upto(
                                    kv,
                                    stakes,
                                    i as int,
                                    a,
                                ) {
                                    let ii = choose|ii: int|
                                        0 <= ii < i as int + 1 && #[trigger] stakes[ii].address
                                            == a;
                                    assert(ii == i as int);
                                    assert(a == addr@);
                                }
                            }
                        }
                        assert forall|a: Seq<u8>, k: Seq<u8>|
                            #[trigger] index_contains_slot(post, a, k) <==> slot_upto(
                                kv,
                                stakes,
                                i as int + 1,
                                a,
                                k,
                            ) by {
                            if a == addr@ {
                                assert(index_lookup(post, a) == Some(entry_v.slots));
                                assert(index_contains_slot(post, a, k) == entry_v.slots.contains(
                                    k,
                                ));
                                assert(entry_v.slots.contains(k) <==> (exists|jj: int|
                                    0 <= jj < kv.len() && spec_starts_with(
                                        #[trigger] kv[jj],
                                        pad_address(addr@),
                                    ) && k == keccak256_of(kv[jj])));
                                assert(stakes[i as int].address == a);
                                if index_contains_slot(post, a, k) {
                                    let jj = choose|jj: int|
                                        0 <= jj < kv.len() && spec_starts_with(
                                            #[trigger] kv[jj],
                                            pad_address(addr@),
                                        ) && k == keccak256_of(kv[jj]);
                                    assert(slot_upto(kv, stakes, i as int + 1, a, k));
                                }
                                if slot_upto(kv, stakes, i as int + 1, a, k) {
                                    let jj = choose|jj: int|
                                        0 <= jj < kv.len() && spec_starts_with(
                                            #[trigger] kv[jj],
                                            pad_address(a),
                                        ) && k == keccak256_of(kv[jj]);
                                    assert(entry_v.slots.contains(k));
                                }
                            } else {
                                assert(index_lookup(post, a) == index_lookup(pre, a));
                                assert(index_contains_slot(post, a, k) == index_contains_slot(
                                    pre,
                                    a,
                                    k,
                                ));
                                if slot_upto(kv, stakes, i as int, a, k) {
                                    let ii = choose|ii: int|
                                        0 <= ii < i as int && #[trigger] stakes[ii].address == a;
                                    assert(slot_upto(kv, stakes, i as int + 1, a, k));
                                }
                                if slot_upto(kv, stakes, i as int + 1, a, k) && !slot_upto(
                                    kv,
                                    stakes,
                                    i as int,
                                    a,
                                    k,
                                ) {
                                    let ii = choose|ii: int|
                                        0 <= ii < i as int + 1 && #[trigger] stakes[ii].address
                                            == a;
                                    assert(ii == i as int);
                                    assert(a == addr@);
                                }
                            }
                        }
                    }
                } else {
                    proof {
                        assert forall|a: Seq<u8>| #[trigger] index_has(pre, a) <==> has_upto(
                            kv,
                            stakes,
                            i as int + 1,
                            a,
                        ) by {
                            if a == addr@ {
                                assert(!index_has(pre, a));
                                if has_upto(kv, stakes, i as int + 1, a) {
                                    let jj = choose|jj: int|
                                        0 <= jj < kv.len() && spec_starts_with(
                                            #[trigger] kv[jj],
                                            pad_address(a),
                                        );
                                    assert(bytes_view(slots@).contains(keccak256_of(kv[jj])));
                                }
                            } else if has_upto(kv, stakes, i as int + 1, a) && !has_upto(
                                kv,
                                stakes,
                                i as int,
                                a,
                            ) {
                                let ii = choose|ii: int|
                                    0 <= ii < i as int + 1 && #[trigger] stakes[ii].address == a;
                                assert(ii == i as int);
                                assert(a == addr@);
                            }
                        }
                        assert forall|a: Seq<u8>, k: Seq<u8>|
                            #[trigger] index_contains_slot(pre, a, k) <==> slot_upto(
                                kv,
                                stakes,
                                i as int + 1,
                                a,
                                k,
                            ) by {
                            if a == addr@ {
                                assert(!index_has(pre, a));
                                if slot_upto(kv, stakes, i as int + 1, a, k) {
                                    let jj = choose|jj: int|
                                        0 <= jj < kv.len() && spec_starts_with(
                                            #[trigger] kv[jj],
                                            pad_address(a),
                                        ) && k == keccak256_of(kv[jj]);
                                    assert(bytes_view(slots@).contains(keccak256_of(kv[jj])));
                                }
                            } else if slot_upto(kv, stakes, i as int + 1, a, k) && !slot_upto(
                                kv,
                                stakes,
                                i as int,
                                a,
                                k,
                            ) {
                                let ii = choose|ii: int|
                                    0 <= ii < i as int + 1 && #[trigger] stakes[ii].address == a;
                                assert(ii == i as int);
                                assert(a == addr@);
                            }
                        }
                    }
                }
            }
        }
        i = i + 1;
    }
    proof {
        let ev = entries_view(entries@);
        assert forall|a: Seq<u8>| #[trigger] index_has(ev, a) <==> entity_has_slots(
            kv,
            stakes,
            a,
        ) by {
            assert(index_has(ev, a) <==> has_upto(kv, stakes, stakes.len() as int, a));
        }
        assert forall|a: Seq<u8>, k: Seq<u8>| #[trigger] index_contains_slot(ev, a, k)
            <==> is_assoc_slot(kv, stakes, a, k) by {
            assert(index_contains_slot(ev, a, k) <==> slot_upto(
                kv,
                stakes,
                stakes.len() as int,
                a,
                k,
            ));
        }
    }
    SlotIndex { entries }
}

// ---------------------------------------------------------------------------
// The association test for one slot string.
// ---------------------------------------------------------------------------

/// The three-way outcome of the association test.
#[derive(Clone, Copy, Debug, PartialEq, Eq, Structural)]
pub enum AssocVerdict {
    Yes,
    No,
    BadSlot,
}

pub open spec fn in_window_nat(slot: nat, base: nat) -> bool {
    base <= slot && slot < base + 128
}

/// The association test over the index: the slot read as a number equals the
/// address, or lies in the 128-slot window above one of the address's
/// derived slots. A slot that does not parse is reported only when the
/// address has derived slots at all.
pub open spec fn index_associated(entries: Seq<SlotEntryV>, addr: Seq<u8>, slot: Seq<u8>) -> AssocVerdict {
    let p = parse_hex_val(slot);
    if p is Some && p->Some_0 == be_val(addr) {
        AssocVerdict::Yes
    } else if !index_has(entries, addr) {
        AssocVerdict::No
    } else if p is None {
        AssocVerdict::BadSlot
    } else if exists|k: Seq<u8>|
        #[trigger] index_contains_slot(entries, addr, k) && in_window_nat(p->Some_0, be_val(k)) {
        AssocVerdict::Yes
    } else {
        AssocVerdict::No
    }
}

/// The same test said over the trace and stake vector alone.
pub open spec fn spec_associated(
    keccak: Seq<Seq<u8>>,
    stakes: Seq<StakeInfoV>,
    addr: Seq<u8>,
    slot: Seq<u8>,
) -> AssocVerdict {
    let p = parse_hex_val(slot);
    if p is Some && p->Some_0 == be_val(addr) {
        AssocVerdict::Yes
    } else if !entity_has_slots(keccak, stakes, addr) {
        AssocVerdict::No
    } else if p is None {
        AssocVerdict::BadSlot
    } else if exists|k: Seq<u8>|
        #[trigger] is_assoc_slot(keccak, stakes, addr, k) && in_window_nat(p->Some_0, be_val(k)) {
        AssocVerdict::Yes
    } else {
        AssocVerdict::No
    }
}

/// An index that matches the trace decides association exactly as the trace
/// does.
pub proof fn lemma_assoc_agree(
    entries: Seq<SlotEntryV>,
    keccak: Seq<Seq<u8>>,
    stakes: Seq<StakeInfoV>,
    addr: Seq<u8>,
    slot: Seq<u8>,
)
    requires
        index_matches(entries, keccak, stakes),
    ensures
        index_associated(entries, addr, slot) == spec_associated(keccak, stakes, addr, slot),
{
    assert(index_has(entries, addr) == entity_has_slots(keccak, stakes, addr));
    let p = parse_hex_val(slot);
    if p is Some {
        let v = p->Some_0;
        if exists|k: Seq<u8>|
            #[trigger] index_contains_slot(entries, addr, k) && in_window_nat(v, be_val(k)) {
            let k = choose|k: Seq<u8>|
                #[trigger] index_contains_slot(entries, addr, k) && in_window_nat(v, be_val(k));
            assert(is_assoc_slot(keccak, stakes, addr, k) && in_window_nat(v, be_val(k)));
        }
        if exists|k: Seq<u8>|
            #[trigger] is_assoc_slot(keccak, stakes, addr, k) && in_window_nat(v, be_val(k)) {
            let k = choose|k: Seq<u8>|
                #[trigger] is_assoc_slot(keccak, stakes, addr, k) && in_window_nat(v, be_val(k));
            assert(index_contains_slot(entries, addr, k) && in_window_nat(v, be_val(k)));
        }
    }
}

/// Decides whether a slot is associated with an address: an exact numeric
/// match on the address, or membership in the 128-slot window above one of
/// the address's derived slots.
pub fn associated_with_slot(address: &Vec<u8>, slot: &Vec<u8>, slots_by_entity: &SlotIndex) -> (r:
    AssocVerdict)
    requires
        address@.len() == 20,
        index_wf(slots_by_entity@),
    ensures
        r == index_associated(slots_by_entity@, address@, slot@),
{
    let parsed = parse_hex_u256(slot);
    let addr_num = crate::num::address_value(address);
    if let Some(v) = parsed {
        if u256_eq(&v, &addr_num) {
            return AssocVerdict::Yes;
        }
    }
    let found = index_find(&slots_by_entity.entries, address);
    let p = match found {
        None => {
            return AssocVerdict::No;
        },
        Some(p) => p,
    };
    let v = match parsed {
        None => {
            return AssocVerdict::BadSlot;
        },
        Some(v) => v,
    };
    let ghost entriesv = slots_by_entity@;
    let ghost slotsv = entriesv[p as int].slots;
    let entry = &slots_by_entity.entries[p];
    let mut m: usize = 0;
    while m < entry.slots.len()
        invariant
            0 <= m <= entry.slots.len(),
            entriesv == slots_by_entity@,
            index_wf(entriesv),
            p < entriesv.len(),
            entriesv[p as int] == entry@,
            slotsv == entry@.slots,
            slotsv.len() == entry.slots@.len(),
            index_lookup(entriesv, address@) == Some(slotsv),
            parse_hex_val(slot@) == Some(crate::num::u256_val(v)),
            crate::num::u256_val(v) != be_val(address@),
            forall|mm: int|
                0 <= mm < m ==> !in_window_nat(
                    crate::num::u256_val(v),
                    be_val(#[trigger] slotsv[mm]),
                ),
        decreases entry.slots.len() - m,
    {
        proof {
            assert(slotsv[m as int] == entry.slots@[m as int]@);
            assert(entriesv[p as int].slots[m as int].len() == 32);
        }
        let base = be_bytes_to_u256(&entry.slots[m]);
        if u256_in_window(&v, &base) {
            proof {
                assert(slotsv.contains(slotsv[m as int]));
                assert(index_contains_slot(entriesv, address@, slotsv[m as int]));
            }
            return AssocVerdict::Yes;
        }
        m = m + 1;
    }
    proof {
        assert forall|k: Seq<u8>|
            !(#[trigger] index_contains_slot(entriesv, address@, k) && in_window_nat(
                crate::num::u256_val(v),
                be_val(k),
            )) by {
            if index_contains_slot(entriesv, address@, k) {
                let mm = choose|mm: int| 0 <= mm < slotsv.len() && slotsv[mm] == k;
                assert(!in_window_nat(crate::num::u256_val(v), be_val(slotsv[mm])));
            }
        }
    }
    AssocVerdict::No
}

} // verus!
