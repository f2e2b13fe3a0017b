use vstd::prelude::*;

use crate::errors::SimulateValidationError;
use crate::types::{
    ov, CallEntry, CallEntryV, CallEvent, CallEventV, CallKind, TraceFrame,
};
use crate::util::{bytes_eq, clone_bytes};

verus! {

// ---------------------------------------------------------------------------
// The selector table: 4-byte selectors of the contract functions the
// reducer can name.
// ---------------------------------------------------------------------------

pub open spec fn sel4(a: u8, b: u8, c: u8, d: u8) -> Seq<u8> {
    seq![a, b, c, d]
}

/// The human-readable name recorded for a 4-byte selector; unknown
/// selectors have none.
pub open spec fn selector_name(sel: Seq<u8>) -> Option<Seq<char>> {
    if sel == sel4(0x3a, 0x87, 0x1c, 0xdd) {
        Some("validateUserOp"@)
    } else if sel == sel4(0xf4, 0x65, 0xc7, 0x7e) {
        Some("validatePaymasterUserOp"@)
    } else if sel == sel4(0xa9, 0xa2, 0x34, 0x09) {
        Some("postOp"@)
    } else if sel == sel4(0xee, 0x21, 0x94, 0x23) {
        Some("simulateValidation"@)
    } else if sel == sel4(0x1f, 0xad, 0x94, 0x8c) {
        Some("handleOps"@)
    } else if sel == sel4(0x1d, 0x73, 0x27, 0x56) {
        Some("innerHandleOp"@)
    } else if sel == sel4(0x9b, 0x24, 0x9f, 0x69) {
        Some("getSenderAddress"@)
    } else if sel == sel4(0x57, 0x0e, 0x1a, 0x36) {
        Some("createSender"@)
    } else {
        None
    }
}

fn sel_eq(sel: &Vec<u8>, a: u8, b: u8, c: u8, d: u8) -> (r: bool)
    ensures
        r == (sel@ == sel4(a, b, c, d)),
{
    let r = sel.len() == 4 && sel[0] == a && sel[1] == b && sel[2] == c && sel[3] == d;
    proof {
        if r {
            assert(sel@ =~= sel4(a, b, c, d));
        }
    }
    r
}

/// Looks a selector up in the static table.
pub fn lookup_method(sel: &Vec<u8>) -> (r: Option<String>)
    ensures
        match r {
            Some(name) => selector_name(sel@) == Some(name@),
            None => selector_name(sel@) is None,
        },
{
    if sel_eq(sel, 0x3a, 0x87, 0x1c, 0xdd) {
        Some("validateUserOp".to_owned())
    } else if sel_eq(sel, 0xf4, 0x65, 0xc7, 0x7e) {
        Some("validatePaymasterUserOp".to_owned())
    } else if sel_eq(sel, 0xa9, 0xa2, 0x34, 0x09) {
        Some("postOp".to_owned())
    } else if sel_eq(sel, 0xee, 0x21, 0x94, 0x23) {
        Some("simulateValidation".to_owned())
    } else if sel_eq(sel, 0x1f, 0xad, 0x94, 0x8c) {
        Some("handleOps".to_owned())
    } else if sel_eq(sel, 0x1d, 0x73, 0x27, 0x56) {
        Some("innerHandleOp".to_owned())
    } else if sel_eq(sel, 0x9b, 0x24, 0x9f, 0x69) {
        Some("getSenderAddress".to_owned())
    } else if sel_eq(sel, 0x57, 0x0e, 0x1a, 0x36) {
        Some("createSender".to_owned())
    } else {
        None
    }
}

// ---------------------------------------------------------------------------
// Folding the flat event sequence into completed call entries.
// ---------------------------------------------------------------------------

/// The method name recorded for a frame, from its optional selector.
pub open spec fn method_name_of(sel: Option<Seq<u8>>) -> Option<Seq<char>> {
    match sel {
        Some(s) => selector_name(s),
        None => None,
    }
}

/// One step of the reducer: a call-like event opens a frame, a terminator
/// closes the innermost one and emits its entry; a terminator on an empty
/// stack is ignored.
pub open spec fn reduce_step(
    stack: Seq<CallEventV>,
    out: Seq<CallEntryV>,
    ev: CallEventV,
) -> (Seq<CallEventV>, Seq<CallEntryV>) {
    if ev.kind.is_terminator() {
        if stack.len() == 0 {
            (stack, out)
        } else {
            let top = stack.last();
            let entry = if top.kind.is_create() {
                CallEntryV {
                    kind: top.kind,
                    from: top.from,
                    to: top.to,
                    method: None,
                    ret: None,
                    rev: None,
                    value: None,
                }
            } else if ev.kind == CallKind::Revert {
                CallEntryV {
                    kind: top.kind,
                    from: top.from,
                    to: top.to,
                    method: method_name_of(top.method),
                    ret: None,
                    rev: ev.data,
                    value: top.value,
                }
            } else {
                CallEntryV {
                    kind: top.kind,
                    from: top.from,
                    to: top.to,
                    method: method_name_of(top.method),
                    ret: ev.data,
                    rev: None,
                    value: None,
                }
            };
            (stack.drop_last(), out.push(entry))
        }
    } else {
        (stack.push(ev), out)
    }
}

pub open spec fn reduce_calls_rec(
    events: Seq<CallEventV>,
    stack: Seq<CallEventV>,
    out: Seq<CallEntryV>,
) -> Seq<CallEntryV>
    decreases events.len(),
{
    if events.len() == 0 {
        out
    } else {
        let next = reduce_step(stack, out, events[0]);
        reduce_calls_rec(events.drop_first(), next.0, next.1)
    }
}

/// The completed call entries a flat event sequence folds into.
pub open spec fn reduce_calls(events: Seq<CallEventV>) -> Seq<CallEntryV> {
    reduce_calls_rec(events, Seq::empty(), Seq::empty())
}

fn clone_opt_bytes(o: &Option<Vec<u8>>) -> (r: Option<Vec<u8>>)
    ensures
        ov(r) == ov(*o),
{
    match o {
        Some(v) => Some(clone_bytes(v)),
        None => None,
    }
}

fn is_terminator_kind(k: CallKind) -> (r: bool)
    ensures
        r == k.is_terminator(),
{
    k == CallKind::Return || k == CallKind::Revert
}

fn is_create_kind(k: CallKind) -> (r: bool)
    ensures
        r == k.is_create(),
{
    k == CallKind::Create || k == CallKind::Create2
}

/// Folds the trace's flat call events into completed call entries, appended
/// to `calls`.
pub fn parse_call_stack(trace: &TraceFrame, calls: &mut Vec<CallEntry>) -> (r: Result<
    (),
    SimulateValidationError,
>)
    ensures
        r is Ok,
        final(calls)@.map_values(|c: CallEntry| c@) == old(calls)@.map_values(|c: CallEntry| c@)
            + reduce_calls(trace@.calls),
{
    let ghost evs = trace@.calls;
    let ghost init = old(calls)@.map_values(|c: CallEntry| c@);
    let mut stack: Vec<CallEvent> = Vec::new();
    proof {
        assert(evs.skip(0) =~= evs);
        assert(stack@.map_values(|e: CallEvent| e@) =~= Seq::<CallEventV>::empty());
        assert(calls@.map_values(|c: CallEntry| c@) =~= init + Seq::<CallEntryV>::empty());
        assert(calls@.map_values(|c: CallEntry| c@).skip(init.len() as int)
            =~= Seq::<CallEntryV>::empty());
        assert(calls@.map_values(|c: CallEntry| c@).take(init.len() as int) =~= init);
    }
    let mut j: usize = 0;
    while j < trace.calls.len()
        invariant
            0 <= j <= trace.calls.len(),
            evs == trace@.calls,
            evs.len() == trace.calls@.len(),
            init == old(calls)@.map_values(|c: CallEntry| c@),
            reduce_calls(evs) == reduce_calls_rec(
                evs.skip(j as int),
                stack@.map_values(|e: CallEvent| e@),
                calls@.map_values(|c: CallEntry| c@).skip(init.len() as int),
            ),
            init.len() <= calls@.len(),
            init == calls@.map_values(|c: CallEntry| c@).take(init.len() as int),
        decreases trace.calls.len() - j,
    {
        proof {
            assert(evs.skip(j as int)[0] == evs[j as int]);
            assert(evs.skip(j as int).drop_first() =~= evs.skip(j as int + 1));
            assert(evs[j as int] == trace.calls@[j as int]@);
        }
        let ghost stack_v = stack@.map_values(|e: CallEvent| e@);
        let ghost out_v = calls@.map_values(|c: CallEntry| c@).skip(init.len() as int);
        let ev = &trace.calls[j];
        if is_terminator_kind(ev.kind) {
            let top_opt = stack.pop();
            match top_opt {
                None => {
                    proof {
                        assert(stack_v.len() == 0);
                        assert(reduce_step(stack_v, out_v, evs[j as int]) == (stack_v, out_v));
                        assert(stack@.map_values(|e: CallEvent| e@) =~= stack_v);
                    }
                },
                Some(top) => {
                    proof {
                        assert(stack_v.last() == top@);
                        assert(stack@.map_values(|e: CallEvent| e@) =~= stack_v.drop_last());
                    }
                    let entry: CallEntry;
                    if is_create_kind(top.kind) {
                        entry = CallEntry {
                            kind: top.kind,
                            from: top.from,
                            to: top.to,
                            method: None,
                            ret: None,
                            rev: None,
                            value: None,
                        };
                    } else {
                        let method: Option<String> = match &top.method {
                            Some(sel) => lookup_method(sel),
                            None => None,
                        };
                        if ev.kind == CallKind::Revert {
                            entry = CallEntry {
                                kind: top.kind,
                                from: top.from,
                                to: top.to,
                                method,
                                ret: None,
                                rev: clone_opt_bytes(&ev.data),
                                value: top.value,
                            };
                        } else {
                            entry = CallEntry {
                                kind: top.kind,
                                from: top.from,
                                to: top.to,
                                method,
                                ret: clone_opt_bytes(&ev.data),
                                rev: None,
                                value: None,
                            };
                        }
                    }
                    proof {
                        assert(entry@ == reduce_step(stack_v, out_v, evs[j as int]).1.last());
                    }
                    calls.push(entry);
                    proof {
                        assert(calls@.map_values(|c: CallEntry| c@) =~= init + out_v.push(entry@));
                        assert(calls@.map_values(|c: CallEntry| c@).skip(init.len() as int)
                            =~= out_v.push(entry@));
                        assert(calls@.map_values(|c: CallEntry| c@).take(init.len() as int)
                            =~= init);
                    }
                },
            }
        } else {
            stack.push(clone_call_event(ev));
            proof {
                assert(stack@.map_values(|e: CallEvent| e@) =~= stack_v.push(ev@));
            }
        }
        j = j + 1;
    }
    proof {
        assert(evs.skip(evs.len() as int).len() == 0);
        assert(calls@.map_values(|c: CallEntry| c@) =~= init + calls@.map_values(
            |c: CallEntry| c@,
        ).skip(init.len() as int));
    }
    Ok(())
}

/// A deep copy of one call event.
fn clone_call_event(e: &CallEvent) -> (r: CallEvent)
    ensures
        r@ == e@,
{
    CallEvent {
        kind: e.kind,
        from: clone_opt_bytes(&e.from),
        to: clone_opt_bytes(&e.to),
        method: clone_opt_bytes(&e.method),
        value: e.value,
        data: clone_opt_bytes(&e.data),
    }
}

/// The reducer is a function of the event sequence alone: equal inputs give
/// equal outputs.
pub proof fn lemma_reducer_deterministic(
    first: Seq<CallEntryV>,
    second: Seq<CallEntryV>,
    events: Seq<CallEventV>,
)
    requires
        first == reduce_calls(events),
        second == reduce_calls(events),
    ensures
        first == second,
{
}

// ---------------------------------------------------------------------------
// The paymaster-context rule's search.
// ---------------------------------------------------------------------------

/// The first completed call of `validatePaymasterUserOp` on the paymaster's
/// address.
pub open spec fn find_paymaster_call(entries: Seq<CallEntryV>, paymaster: Seq<u8>) -> Option<
    CallEntryV,
>
    decreases entries.len(),
{
    if entries.len() == 0 {
        None
    } else if entries[0].method == Some("validatePaymasterUserOp"@) && entries[0].to == Some(
        paymaster,
    ) {
        Some(entries[0])
    } else {
        find_paymaster_call(entries.drop_first(), paymaster)
    }
}

/// Finds the first completed `validatePaymasterUserOp` call addressed to the
/// paymaster.
pub fn find_paymaster_call_exec(calls: &Vec<CallEntry>, paymaster: &Vec<u8>) -> (r: Option<usize>)
    ensures
        match r {
            Some(p) => {
                &&& p < calls@.len()
                &&& find_paymaster_call(calls@.map_values(|c: CallEntry| c@), paymaster@) == Some(
                    calls@[p as int]@,
                )
            },
            None => find_paymaster_call(calls@.map_values(|c: CallEntry| c@), paymaster@) is None,
        },
{
    let ghost cv = calls@.map_values(|c: CallEntry| c@);
    proof {
        assert(cv.skip(0) =~= cv);
    }
    let target: String = "validatePaymasterUserOp".to_owned();
    let mut p: usize = 0;
    while p < calls.len()
        invariant
            0 <= p <= calls.len(),
            cv == calls@.map_values(|c: CallEntry| c@),
            cv.len() == calls@.len(),
            target@ == "validatePaymasterUserOp"@,
            find_paymaster_call(cv, paymaster@) == find_paymaster_call(
                cv.skip(p as int),
                paymaster@,
            ),
        decreases calls.len() - p,
    {
        proof {
            assert(cv.skip(p as int)[0] == cv[p as int]);
            assert(cv.skip(p as int).drop_first() =~= cv.skip(p as int + 1));
        }
        let c = &calls[p];
        let method_matches = match &c.method {
            Some(m) => m.eq(&target),
            None => false,
        };
        let to_matches = match &c.to {
            Some(t) => bytes_eq(t, paymaster),
            None => false,
        };
        if method_matches && to_matches {
            return Some(p);
        }
        p = p + 1;
    }
    proof {
        assert(cv.skip(cv.len() as int).len() == 0);
    }
    None
}

} // verus!
