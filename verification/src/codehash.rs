use vstd::prelude::*;

use crate::types::{CodeHash, CodeHashV, ContractSizeEntryV, LevelInfoV, TraceFrame};
use crate::util::{bytes_eq, bytes_view, clone_bytes};

verus! {

// ---------------------------------------------------------------------------
// The contract addresses a trace touched.
// ---------------------------------------------------------------------------

/// All addresses appearing in any level's contract-size table, level by
/// level, in table order.
pub open spec fn addresses_of(levels: Seq<LevelInfoV>) -> Seq<Seq<u8>>
    decreases levels.len(),
{
    if levels.len() == 0 {
        Seq::empty()
    } else {
        levels[0].contract_size.map_values(|c: ContractSizeEntryV| c.address) + addresses_of(
            levels.drop_first(),
        )
    }
}

proof fn lemma_addresses_of_skip(levels: Seq<LevelInfoV>, i: int)
    requires
        0 <= i < levels.len(),
    ensures
        addresses_of(levels.skip(i)) == levels[i].contract_size.map_values(
            |c: ContractSizeEntryV| c.address,
        ) + addresses_of(levels.skip(i + 1)),
{
    assert(levels.skip(i)[0] == levels[i]);
    assert(levels.skip(i).drop_first() =~= levels.skip(i + 1));
}

/// Collects every address whose contract size the tracer recorded.
pub fn contract_addresses(trace: &TraceFrame) -> (r: Vec<Vec<u8>>)
    ensures
        bytes_view(r@) == addresses_of(trace@.number_levels),
{
    let ghost lv = trace@.number_levels;
    let mut r: Vec<Vec<u8>> = Vec::new();
    proof {
        assert(lv.skip(0) =~= lv);
        assert(addresses_of(lv) =~= bytes_view(r@) + addresses_of(lv.skip(0)));
    }
    let mut i: usize = 0;
    while i < trace.number_levels.len()
        invariant
            0 <= i <= trace.number_levels.len(),
            lv == trace@.number_levels,
            lv.len() == trace.number_levels@.len(),
            addresses_of(lv) == bytes_view(r@) + addresses_of(lv.skip(i as int)),
        decreases trace.number_levels.len() - i,
    {
        let level = &trace.number_levels[i];
        let ghost table = lv[i as int].contract_size;
        let ghost tm = table.map_values(|c: ContractSizeEntryV| c.address);
        proof {
            lemma_addresses_of_skip(lv, i as int);
            assert(lv[i as int] == trace.number_levels@[i as int]@);
            assert(tm.skip(0) =~= tm);
        }
        let mut k: usize = 0;
        while k < level.contract_size.len()
            invariant
                0 <= k <= level.contract_size.len(),
                lv == trace@.number_levels,
                lv.len() == trace.number_levels@.len(),
                i < trace.number_levels@.len(),
                level == &trace.number_levels@[i as int],
                table == lv[i as int].contract_size,
                tm == table.map_values(|c: ContractSizeEntryV| c.address),
                table.len() == level.contract_size@.len(),
                addresses_of(lv) == bytes_view(r@) + (tm.skip(k as int) + addresses_of(
                    lv.skip(i as int + 1),
                )),
            decreases level.contract_size.len() - k,
        {
            let ghost pre = bytes_view(r@);
            proof {
                assert(table[k as int] == level.contract_size@[k as int]@);
                assert(tm[k as int] == table[k as int].address);
            }
            r.push(clone_bytes(&level.contract_size[k].address));
            proof {
                assert(bytes_view(r@) =~= pre.push(tm[k as int]));
                assert(pre + (tm.skip(k as int) + addresses_of(lv.skip(i as int + 1)))
                    =~= bytes_view(r@) + (tm.skip(k as int + 1) + addresses_of(
                    lv.skip(i as int + 1),
                )));
            }
            k = k + 1;
        }
        proof {
            assert(tm.skip(tm.len() as int).len() == 0);
            assert(bytes_view(r@) + (tm.skip(tm.len() as int) + addresses_of(
                lv.skip(i as int + 1),
            )) =~= bytes_view(r@) + addresses_of(lv.skip(i as int + 1)));
        }
        i = i + 1;
    }
    proof {
        assert(lv.skip(lv.len() as int).len() == 0);
        assert(bytes_view(r@) + Seq::<Seq<u8>>::empty() =~= bytes_view(r@));
    }
    r
}

// ---------------------------------------------------------------------------
// Multiset equality of code-hash lists.
// ---------------------------------------------------------------------------

/// How often `x` occurs in a code-hash list.
pub open spec fn count_hash(s: Seq<CodeHashV>, x: CodeHashV) -> nat
    decreases s.len(),
{
    if s.len() == 0 {
        0
    } else {
        (if s[0] == x {
            1nat
        } else {
            0nat
        }) + count_hash(s.drop_first(), x)
    }
}

/// Two code-hash lists hold the same multiset of `(address, hash)` pairs.
pub open spec fn same_code_hashes(a: Seq<CodeHashV>, b: Seq<CodeHashV>) -> bool {
    a.len() == b.len() && forall|x: CodeHashV|
        #![trigger count_hash(a, x)]
        #![trigger count_hash(b, x)]
        count_hash(a, x) == count_hash(b, x)
}

proof fn lemma_count_zero(s: Seq<CodeHashV>, x: CodeHashV)
    requires
        !s.contains(x),
    ensures
        count_hash(s, x) == 0,
    decreases s.len(),
{
    if s.len() > 0 {
        assert(s[0] != x);
        assert(!s.drop_first().contains(x)) by {
            if s.drop_first().contains(x) {
                let m = choose|m: int|
                    0 <= m < s.drop_first().len() && s.drop_first()[m] == x;
                assert(s[m + 1] == x);
            }
        }
        lemma_count_zero(s.drop_first(), x);
    }
}

proof fn lemma_count_skip_step(s: Seq<CodeHashV>, x: CodeHashV, p: int)
    requires
        0 <= p < s.len(),
    ensures
        count_hash(s.skip(p), x) == (if s[p] == x {
            1nat
        } else {
            0nat
        }) + count_hash(s.skip(p + 1), x),
{
    assert(s.skip(p)[0] == s[p]);
    assert(s.skip(p).drop_first() =~= s.skip(p + 1));
}

fn code_hash_eq(a: &CodeHash, b: &CodeHash) -> (r: bool)
    ensures
        r == (a@ == b@),
{
    let r = bytes_eq(&a.address, &b.address) && bytes_eq(&a.hash, &b.hash);
    proof {
        if a@ == b@ {
            assert(a@.address == b@.address);
            assert(a@.hash == b@.hash);
        }
    }
    r
}

/// How often `x` occurs in a code-hash list.
fn count_code_hash(v: &Vec<CodeHash>, x: &CodeHash) -> (r: usize)
    ensures
        r as nat == count_hash(v@.map_values(|c: CodeHash| c@), x@),
{
    let ghost cv = v@.map_values(|c: CodeHash| c@);
    proof {
        assert(cv.skip(0) =~= cv);
    }
    let mut n: usize = 0;
    let mut p: usize = 0;
    while p < v.len()
        invariant
            0 <= p <= v.len(),
            n <= p,
            cv == v@.map_values(|c: CodeHash| c@),
            cv.len() == v@.len(),
            count_hash(cv, x@) == n + count_hash(cv.skip(p as int), x@),
        decreases v.len() - p,
    {
        proof {
            lemma_count_skip_step(cv, x@, p as int);
            assert(cv[p as int] == v@[p as int]@);
        }
        if code_hash_eq(&v[p], x) {
            n = n + 1;
        }
        p = p + 1;
    }
    proof {
        assert(cv.skip(cv.len() as int).len() == 0);
    }
    n
}

/// Whether two code-hash lists hold the same multiset of `(address, hash)`
/// pairs, as the code-mutation defence compares them.
pub fn equal_code_hashes(code_hashes: &Vec<CodeHash>, prev_code_hashes: &Vec<CodeHash>) -> (r:
    bool)
    ensures
        r == same_code_hashes(
            code_hashes@.map_values(|c: CodeHash| c@),
            prev_code_hashes@.map_values(|c: CodeHash| c@),
        ),
{
    let ghost av = code_hashes@.map_values(|c: CodeHash| c@);
    let ghost bv = prev_code_hashes@.map_values(|c: CodeHash| c@);
    if code_hashes.len() != prev_code_hashes.len() {
        return false;
    }
    let mut i: usize = 0;
    while i < code_hashes.len()
        invariant
            0 <= i <= code_hashes.len(),
            av == code_hashes@.map_values(|c: CodeHash| c@),
            bv == prev_code_hashes@.map_values(|c: CodeHash| c@),
            av.len() == code_hashes@.len(),
            av.len() == bv.len(),
            forall|ii: int|
                0 <= ii < i ==> count_hash(av, #[trigger] av[ii]) == count_hash(bv, av[ii]),
        decreases code_hashes.len() - i,
    {
        proof {
            assert(av[i as int] == code_hashes@[i as int]@);
        }
        let ca = count_code_hash(code_hashes, &code_hashes[i]);
        let cb = count_code_hash(prev_code_hashes, &code_hashes[i]);
        if ca != cb {
            proof {
                assert(count_hash(av, av[i as int]) != count_hash(bv, av[i as int]));
            }
            return false;
        }
        i = i + 1;
    }
    let mut k: usize = 0;
    while k < prev_code_hashes.len()
        invariant
            0 <= k <= prev_code_hashes.len(),
            av == code_hashes@.map_values(|c: CodeHash| c@),
            bv == prev_code_hashes@.map_values(|c: CodeHash| c@),
            bv.len() == prev_code_hashes@.len(),
            av.len() == bv.len(),
            forall|ii: int|
                0 <= ii < av.len() ==> count_hash(av, #[trigger] av[ii]) == count_hash(bv, av[ii]),
            forall|kk: int|
                0 <= kk < k ==> count_hash(av, #[trigger] bv[kk]) == count_hash(bv, bv[kk]),
        decreases prev_code_hashes.len() - k,
    {
        proof {
            assert(bv[k as int] == prev_code_hashes@[k as int]@);
        }
        let ca = count_code_hash(code_hashes, &prev_code_hashes[k]);
        let cb = count_code_hash(prev_code_hashes, &prev_code_hashes[k]);
        if ca != cb {
            proof {
                assert(count_hash(av, bv[k as int]) != count_hash(bv, bv[k as int]));
            }
            return false;
        }
        k = k + 1;
    }
    proof {
        assert forall|x: CodeHashV|
            #![trigger count_hash(av, x)]
            #![trigger count_hash(bv, x)]
            count_hash(av, x) == count_hash(bv, x) by {
            if av.contains(x) {
                let ii = choose|ii: int| 0 <= ii < av.len() && av[ii] == x;
                assert(count_hash(av, av[ii]) == count_hash(bv, av[ii]));
            } else if bv.contains(x) {
                let kk = choose|kk: int| 0 <= kk < bv.len() && bv[kk] == x;
                assert(count_hash(av, bv[kk]) == count_hash(bv, bv[kk]));
            } else {
                lemma_count_zero(av, x);
                lemma_count_zero(bv, x);
            }
        }
    }
    true
}

// ---------------------------------------------------------------------------
// Order independence of the comparison.
// ---------------------------------------------------------------------------

/// Fetching the code hashes in another order permutes the list but keeps
/// the multiset, so the comparison's verdict does not change.
pub proof fn lemma_compare_order_independent(
    a: Seq<CodeHashV>,
    b1: Seq<CodeHashV>,
    b2: Seq<CodeHashV>,
)
    requires
        same_code_hashes(b1, b2),
    ensures
        same_code_hashes(a, b1) == same_code_hashes(a, b2),
{
    if same_code_hashes(a, b1) {
        assert forall|x: CodeHashV|
            #![trigger count_hash(a, x)]
            #![trigger count_hash(b2, x)]
            count_hash(a, x) == count_hash(b2, x) by {
            assert(count_hash(a, x) == count_hash(b1, x));
            assert(count_hash(b1, x) == count_hash(b2, x));
        }
    }
    if same_code_hashes(a, b2) {
        assert forall|x: CodeHashV|
            #![trigger count_hash(a, x)]
            #![trigger count_hash(b1, x)]
            count_hash(a, x) == count_hash(b1, x) by {
            assert(count_hash(a, x) == count_hash(b2, x));
            assert(count_hash(b2, x) == count_hash(b1, x));
        }
    }
}

/// A second simulation against an unchanged chain fetches the same multiset
/// of code hashes, so comparing it with the stored first set succeeds.
pub proof fn lemma_second_simulation_accepts(first: Seq<CodeHashV>, second: Seq<CodeHashV>)
    requires
        same_code_hashes(first, second),
    ensures
        same_code_hashes(second, first),
{
    assert forall|x: CodeHashV|
        #![trigger count_hash(second, x)]
        #![trigger count_hash(first, x)]
        count_hash(second, x) == count_hash(first, x) by {
        assert(count_hash(first, x) == count_hash(second, x));
    }
}

} // verus!
