//! Properties of the machine that span several instructions or calls.
use vstd::prelude::*;
use vstd::utf8::encode_utf8;
use crate::opcode::{Opcode, opcode_byte, opcode_of, expected_imms, MAX_OPCODE_BYTE};
use crate::module::{ModuleV, main_name, find_code};
use crate::semantics::{
    VMState, FrameV, Outcome, Fetch, step, run, fetch, set_ip, exec_op, pop, push, store, load,
    g_store, g_load, slot_position, operand_order, order_holds, invert, sign_bit, slice_bounds,
    clamp_slice, arr_mk, arr_load, invoke, and_or, negate, int_arith, trunc_div, coalesce,
};
use crate::text::{digits, digit_char, int_chars};
use vstd::utf8::encode_scalar;
use crate::value::{
    ValueV, Order, order_values, order_items, order_bytes, kind_rank, has_float, items_have_float,
};
use crate::vm::Fault;

verus! {

/// Every instruction is encoded by one byte, no larger than
/// [`MAX_OPCODE_BYTE`], and decoding that byte gives the instruction back.
pub proof fn lemma_opcode_roundtrip(op: Opcode)
    ensures
        opcode_byte(op) <= MAX_OPCODE_BYTE,
        opcode_of(opcode_byte(op)) == Some(op),
{
}

/// A byte that decodes to an instruction is that instruction's byte.
pub proof fn lemma_decode_then_encode(b: u8)
    ensures
        opcode_of(b) matches Some(op) ==> opcode_byte(op) == b,
        opcode_of(b) is None <==> b > MAX_OPCODE_BYTE,
{
}

/// The machine is well formed: some call is active and the bottom call is the
/// main chunk.
pub open spec fn well_formed(s: VMState) -> bool {
    &&& s.call_stack.len() > 0
    &&& s.call_stack[0].chunk_name == main_name()
}

/// A step that does not fault keeps the machine well formed: the bottom call
/// of the main chunk is never popped.
pub proof fn lemma_step_keeps_well_formed(s: VMState)
    requires
        well_formed(s),
        !(step(s).out is Fault),
    ensures
        well_formed(step(s).state),
{
    match fetch(s) {
        Fetch::Byte(s1, b) => {
            lemma_set_ip_keeps_well_formed(s, (s.call_stack.last().ip + 1) as usize);
            match opcode_of(b) {
                Some(op) => lemma_op_keeps_well_formed(s1, op),
                None => {},
            }
        },
        _ => {},
    }
}

proof fn lemma_set_ip_keeps_well_formed(s: VMState, ip: usize)
    requires
        well_formed(s),
    ensures
        well_formed(set_ip(s, ip)),
{
    let t = set_ip(s, ip);
    assert(t.call_stack[0].chunk_name == s.call_stack[0].chunk_name);
}

proof fn lemma_imm_keeps_well_formed(s: VMState)
    requires
        well_formed(s),
    ensures
        fetch(s) matches Fetch::Byte(s1, _) ==> well_formed(s1),
{
    if fetch(s) is Byte {
        lemma_set_ip_keeps_well_formed(s, (s.call_stack.last().ip + 1) as usize);
    }
}

proof fn lemma_op_keeps_well_formed(s: VMState, op: Opcode)
    requires
        well_formed(s),
        !(exec_op(s, op).out is Fault),
    ensures
        well_formed(exec_op(s, op).state),
{
    let t = exec_op(s, op);
    match op {
        Opcode::Jump | Opcode::JumpIfF | Opcode::Constant | Opcode::LStore | Opcode::LLoad => {
            lemma_imm_keeps_well_formed(s);
            if let Fetch::Byte(s1, b) = fetch(s) {
                lemma_set_ip_keeps_well_formed(s1, (s1.call_stack.last().ip + b) as usize);
                if let Some((s2, _)) = pop(s1) {
                    lemma_set_ip_keeps_well_formed(s2, (s2.call_stack.last().ip + b) as usize);
                }
            }
        },
        Opcode::Invoke => {
            if let Some((s1, _)) = pop(s) {
                lemma_imm_keeps_well_formed(s1);
            }
        },
        Opcode::Return => {
            if s.call_stack.last().chunk_name != main_name() {
                assert(s.call_stack.len() > 1);
                assert(t.state.call_stack[0] == s.call_stack[0]);
            }
        },
        _ => {
            assert(t.state.call_stack == s.call_stack);
        },
    }
}

/// A well-formed machine never faults for want of an active call.
pub proof fn lemma_well_formed_has_frame(s: VMState)
    requires
        well_formed(s),
    ensures
        step(s).out != Outcome::Fault(Fault::NoFrame),
{
}


/// A new machine (see [`VM::new`](crate::vm::VM::new)) is well formed.
pub proof fn lemma_new_is_well_formed(m: ModuleV)
    ensures
        well_formed(
            VMState {
                call_stack: seq![FrameV { ip: 0, chunk_name: main_name(), stack_offset: 0 }],
                stack: Seq::empty(),
                globals: Map::empty(),
                module: m,
            },
        ),
{
}

/// A run that does not fault keeps the machine well formed.
pub proof fn lemma_run_keeps_well_formed(s: VMState, fuel: nat)
    requires
        well_formed(s),
        !(run(s, fuel).out is Fault),
    ensures
        well_formed(run(s, fuel).state),
    decreases fuel,
{
    if fuel > 0 {
        lemma_step_keeps_well_formed(s);
        if step(s).out is Continue {
            lemma_run_keeps_well_formed(step(s).state, (fuel - 1) as nat);
        }
    }
}

/// Running `a` steps and then `b` more is running `a + b` steps.
pub proof fn lemma_run_split(s: VMState, a: nat, b: nat)
    ensures
        run(s, a + b) == (if run(s, a).out is Continue { run(run(s, a).state, b) } else { run(s, a) }),
    decreases a,
{
    if a > 0 {
        if step(s).out is Continue {
            lemma_run_split(step(s).state, (a - 1) as nat, b);
            assert((a + b - 1) as nat == ((a - 1) as nat) + b);
        }
    }
}

/// What a local store writes, a load of the same slot reads back: after a
/// store that succeeds, a load of that slot pushes the value that was on top
/// of the stack before the store.
pub proof fn lemma_store_then_load(s: VMState, slot: int)
    requires
        0 <= slot,
        store(s, slot).out is Continue,
    ensures
        load(store(s, slot).state, slot).out is Continue,
        load(store(s, slot).state, slot).state.stack == store(s, slot).state.stack.push(s.stack.last()),
{
    let t = store(s, slot).state;
    let p = slot_position(s, slot)->Ok_0;
    assert(slot_position(t, slot) == slot_position(s, slot));
    assert(t.stack[p] == s.stack.last());
}

/// What a global store writes, a global load of the same name reads back.
pub proof fn lemma_global_store_then_load(s: VMState, name: Seq<char>)
    requires
        s.stack.len() >= 2,
        s.stack.last() == ValueV::Str(name),
    ensures
        g_store(s).out is Continue,
        g_load(push(g_store(s).state, ValueV::Str(name))).state.stack
            == g_store(s).state.stack.push(s.stack[s.stack.len() - 2]),
{
    let t = g_store(s).state;
    let u = push(t, ValueV::Str(name));
    assert(u.stack.drop_last() =~= t.stack);
}

/// A global store leaves the other globals as they were.
pub proof fn lemma_global_store_keeps_others(s: VMState, name: Seq<char>, other: Seq<char>)
    requires
        s.stack.len() >= 2,
        s.stack.last() == ValueV::Str(name),
        other != name,
    ensures
        g_store(s).state.globals.contains_key(other) == s.globals.contains_key(other),
        s.globals.contains_key(other) ==> g_store(s).state.globals[other] == s.globals[other],
{
}


/// Every chunk's code is no longer than a machine word can count, as holds of
/// every module in memory.
pub open spec fn code_fits(m: ModuleV) -> bool {
    forall|i: int| 0 <= i < m.chunks.len() ==> #[trigger] m.chunks[i].1.len() <= usize::MAX
}

proof fn lemma_find_code_fits(chunks: Seq<(Seq<char>, Seq<u8>)>, name: Seq<char>)
    requires
        forall|i: int| 0 <= i < chunks.len() ==> #[trigger] chunks[i].1.len() <= usize::MAX,
    ensures
        find_code(chunks, name) matches Some(c) ==> c.len() <= usize::MAX,
    decreases chunks.len(),
{
    if chunks.len() > 0 && chunks[0].0 != name {
        let rest = chunks.subrange(1, chunks.len() as int);
        assert forall|i: int| 0 <= i < rest.len() implies #[trigger] rest[i].1.len() <= usize::MAX by {
            assert(rest[i] == chunks[i + 1]);
        }
        lemma_find_code_fits(rest, name);
    }
}

/// The bytes an instruction occupies agree with
/// [`Opcode::num_expected_imms`](crate::opcode::Opcode::num_expected_imms):
/// an instruction that completes without jumping, calling, returning or
/// building an array moves the current frame past its byte and its immediate
/// bytes, and leaves the call stack's depth as it was.
pub proof fn lemma_instruction_length(s: VMState, op: Opcode)
    requires
        code_fits(s.module),
        fetch(s) matches Fetch::Byte(_, b) && opcode_of(b) == Some(op),
        step(s).out is Continue,
        op != Opcode::Jump,
        op != Opcode::JumpIfF,
        op != Opcode::Invoke,
        op != Opcode::ArrMk,
        op != Opcode::Return,
    ensures
        step(s).state.call_stack.len() == s.call_stack.len(),
        step(s).state.call_stack.last().ip == s.call_stack.last().ip + 1 + expected_imms(op),
{
    lemma_find_code_fits(s.module.chunks, s.call_stack.last().chunk_name);
    let s1 = set_ip(s, (s.call_stack.last().ip + 1) as usize);
    let t = exec_op(s1, op);
    assert(s1.call_stack.len() == s.call_stack.len());
    assert(s1.call_stack.last().ip == s.call_stack.last().ip + 1);
    match op {
        Opcode::Constant | Opcode::LStore | Opcode::LLoad => {
            lemma_find_code_fits(s1.module.chunks, s1.call_stack.last().chunk_name);
            if let Fetch::Byte(s2, _) = fetch(s1) {
                assert(s2.call_stack.len() == s1.call_stack.len());
                assert(s2.call_stack.last().ip == s1.call_stack.last().ip + 1);
                if let Some((s3, _)) = pop(s2) {
                    assert(s3.call_stack == s2.call_stack);
                }
            }
        },
        _ => {
            assert(t.state.call_stack == s1.call_stack);
        },
    }
}


/// The order with its two sides exchanged.
pub open spec fn flip(o: Order) -> Order {
    match o {
        Order::Less => Order::Greater,
        Order::Greater => Order::Less,
        other => other,
    }
}

/// Exchanging two byte strings reverses their order.
pub proof fn lemma_order_bytes_flip(a: Seq<u8>, b: Seq<u8>)
    ensures
        order_bytes(b, a) == flip(order_bytes(a, b)),
    decreases a.len(),
{
    if a.len() > 0 && b.len() > 0 && a[0] == b[0] {
        lemma_order_bytes_flip(a.subrange(1, a.len() as int), b.subrange(1, b.len() as int));
    }
}

/// Exchanging two values reverses their order (and leaves an undecided float
/// comparison undecided).
pub proof fn lemma_order_flip(a: ValueV, b: ValueV)
    ensures
        order_values(b, a) == flip(order_values(a, b)),
    decreases a,
{
    if kind_rank(a) == kind_rank(b) {
        match (a, b) {
            (ValueV::Str(x), ValueV::Str(y)) => lemma_order_bytes_flip(encode_utf8(x), encode_utf8(y)),
            (ValueV::Arr(x), ValueV::Arr(y)) => lemma_order_items_flip(x, y),
            (ValueV::Opt(Some(p)), ValueV::Opt(Some(q))) => lemma_order_flip(*p, *q),
            _ => {},
        }
    }
}

/// Exchanging two item sequences reverses their order.
pub proof fn lemma_order_items_flip(x: Seq<ValueV>, y: Seq<ValueV>)
    ensures
        order_items(y, x) == flip(order_items(x, y)),
    decreases x,
{
    if x.len() > 0 && y.len() > 0 {
        lemma_order_flip(x[0], y[0]);
        if order_values(x[0], y[0]) == Order::Equal {
            lemma_order_items_flip(x.subrange(1, x.len() as int), y.subrange(1, y.len() as int));
        }
    }
}

/// A float occurs in some item exactly when it occurs in the sequence.
pub proof fn lemma_items_have_float(items: Seq<ValueV>)
    ensures
        items_have_float(items) <==> exists|i: int| 0 <= i < items.len() && #[trigger] has_float(items[i]),
    decreases items.len(),
{
    if items.len() > 0 {
        let p = items.subrange(0, items.len() - 1);
        lemma_items_have_float(p);
        if items_have_float(p) {
            let i = choose|i: int| 0 <= i < p.len() && #[trigger] has_float(p[i]);
            assert(p[i] == items[i]);
            assert(has_float(items[i]));
        }
        let last = items.len() - 1;
        assert(has_float(items[last]) ==> exists|i: int| 0 <= i < items.len() && #[trigger] has_float(items[i]));
        if exists|i: int| 0 <= i < items.len() && #[trigger] has_float(items[i]) {
            let i = choose|i: int| 0 <= i < items.len() && #[trigger] has_float(items[i]);
            if i < items.len() - 1 {
                assert(p[i] == items[i]);
                assert(has_float(p[i]));
            }
        }
    }
}

proof fn lemma_order_bytes_refl(a: Seq<u8>)
    ensures
        order_bytes(a, a) == Order::Equal,
    decreases a.len(),
{
    if a.len() > 0 {
        lemma_order_bytes_refl(a.subrange(1, a.len() as int));
    }
}

/// A value without floats is equal to itself in the order.
pub proof fn lemma_order_refl(a: ValueV)
    requires
        !has_float(a),
    ensures
        order_values(a, a) == Order::Equal,
    decreases a,
{
    match a {
        ValueV::Str(x) => lemma_order_bytes_refl(encode_utf8(x)),
        ValueV::Arr(x) => lemma_order_items_refl(x),
        ValueV::Opt(Some(p)) => lemma_order_refl(*p),
        _ => {},
    }
}

/// An item sequence without floats is equal to itself in the order.
pub proof fn lemma_order_items_refl(x: Seq<ValueV>)
    requires
        !items_have_float(x),
    ensures
        order_items(x, x) == Order::Equal,
    decreases x,
{
    if x.len() > 0 {
        lemma_items_have_float(x);
        assert(!has_float(x[0]));
        lemma_order_refl(x[0]);
        let r = x.subrange(1, x.len() as int);
        lemma_items_have_float(r);
        assert forall|i: int| 0 <= i < r.len() implies !#[trigger] has_float(r[i]) by {
            assert(r[i] == x[i + 1]);
        }
        lemma_order_items_refl(r);
    }
}

/// The comparison instructions come in complementary pairs: on operands whose
/// order is decided, `LT` holds exactly when `GTE` does not, `GT` exactly when
/// `LTE` does not, and `Eq` exactly when `Neq` does not; and `LT` on `a, b`
/// agrees with `GT` on `b, a`.
pub proof fn lemma_comparisons_complement(a: ValueV, b: ValueV)
    requires
        operand_order(a, b) != Order::Deferred,
    ensures
        order_holds(Opcode::LT, operand_order(a, b)) == !order_holds(Opcode::GTE, operand_order(a, b)),
        order_holds(Opcode::GT, operand_order(a, b)) == !order_holds(Opcode::LTE, operand_order(a, b)),
        order_holds(Opcode::Eq, operand_order(a, b)) == !order_holds(Opcode::Neq, operand_order(a, b)),
        order_holds(Opcode::LT, operand_order(a, b)) == order_holds(Opcode::GT, operand_order(b, a)),
{
    lemma_order_flip(a, b);
}


/// `Invert` undoes itself: inverting a number twice gives it back (an
/// integer other than the least one, whose inverse does not exist; a float
/// by its sign bit).
pub proof fn lemma_invert_twice(s: VMState)
    requires
        invert(s).out is Continue,
    ensures
        invert(invert(s).state).out is Continue,
        invert(invert(s).state).state == s,
{
    let t = invert(s).state;
    let (s1, v) = pop(s).unwrap();
    assert(t.stack.drop_last() =~= s1.stack);
    match v {
        ValueV::Float(bits) => {
            assert(bits ^ sign_bit() ^ sign_bit() == bits) by (bit_vector);
        },
        _ => {},
    }
    assert(invert(t).state.stack =~= s.stack);
}

/// Slicing an array from its start to `Nil` (its end) gives back the whole
/// array.
pub proof fn lemma_full_slice(items: Seq<ValueV>)
    requires
        items.len() <= i64::MAX,
    ensures
        slice_bounds(items.len() as i64, 0, ValueV::Nil) == Ok::<(usize, usize), Fault>(
            (0usize, items.len() as usize),
        ),
        clamp_slice(items, 0, items.len() as int) == items,
{
    assert(items.subrange(0, items.len() as int) =~= items);
}


/// Loading index `i` of the array that `ArrMk` built gives the `i`-th of the
/// values it took off the stack (the deepest first), and a negative index
/// counts from the end.
pub proof fn lemma_make_then_load(s: VMState, i: i64)
    requires
        arr_mk(s).out is Continue,
        s.stack.len() <= i64::MAX,
    ensures
        ({
            let made = arr_mk(s).state;
            let items = made.stack.last()->Arr_0;
            let loaded = arr_load(push(made, ValueV::Int(i)));
            &&& loaded.out is Continue
            &&& 0 <= i < items.len() ==> loaded.state.stack.last() == ValueV::Opt(Some(Box::new(items[i as int])))
            &&& -items.len() <= i < 0 ==> loaded.state.stack.last() == ValueV::Opt(
                Some(Box::new(items[items.len() + i])),
            )
            &&& (i >= items.len() || i < -items.len()) ==> loaded.state.stack.last() == ValueV::Opt(None)
        }),
{
    let made = arr_mk(s).state;
    let u = push(made, ValueV::Int(i));
    assert(u.stack.drop_last() =~= made.stack);
    let (s1, _) = pop(u).unwrap();
    assert(s1.stack.drop_last() =~= made.stack.drop_last());
}


/// A local slot counts from the current frame: when a frame is active, load
/// of slot `k` pushes the value at stack position `k` plus the frame's stack
/// offset (whatever lies below that offset).
pub proof fn lemma_load_is_frame_relative(s: VMState, k: int)
    requires
        s.stack.len() <= usize::MAX,
        s.call_stack.len() > 0,
        0 <= k,
        k + s.call_stack.last().stack_offset < s.stack.len(),
    ensures
        load(s, k).out is Continue,
        load(s, k).state.stack == s.stack.push(s.stack[k + s.call_stack.last().stack_offset]),
        load(s, k).state.call_stack == s.call_stack,
{
}

/// A local store counts from the current frame: it pops the top value into
/// stack position `k` plus the frame's stack offset and leaves every other
/// position as it was.
pub proof fn lemma_store_is_frame_relative(s: VMState, k: int)
    requires
        s.stack.len() <= usize::MAX,
        s.call_stack.len() > 0,
        0 <= k,
        k + s.call_stack.last().stack_offset < s.stack.len() - 1,
    ensures
        store(s, k).out is Continue,
        store(s, k).state.stack.len() == s.stack.len() - 1,
        store(s, k).state.stack[k + s.call_stack.last().stack_offset] == s.stack.last(),
        forall|p: int|
            0 <= p < s.stack.len() - 1 && p != k + s.call_stack.last().stack_offset
                ==> #[trigger] store(s, k).state.stack[p] == s.stack[p],
{
}

/// A called chunk finds its arguments in its first local slots: after
/// `Invoke` with arity `n`, loading slot `j < n` in the callee pushes the
/// `j`-th of the `n` values that were on top of the caller's stack (below
/// the function's name), whatever lies below them.
pub proof fn lemma_callee_reads_arguments(s: VMState, j: int)
    requires
        s.stack.len() <= usize::MAX,
        pop(s) matches Some((s1, ValueV::Str(_))) && fetch(s1) matches Fetch::Byte(_, n) && (n as int)
            <= s1.stack.len() && 0 <= j < n,
    ensures
        ({
            let s1 = pop(s).unwrap().0;
            let n = fetch(s1)->Byte_1;
            let t = invoke(s).state;
            &&& invoke(s).out is Continue
            &&& t.call_stack.len() == s.call_stack.len() + 1
            &&& t.call_stack.last().ip == 0
            &&& load(t, j).out is Continue
            &&& load(t, j).state.stack.last() == s.stack[s.stack.len() - 1 - n + j]
        }),
{
    let (s1, _) = pop(s).unwrap();
    if let Fetch::Byte(s2, n) = fetch(s1) {
        assert(s2.stack == s1.stack);
        assert(s2.call_stack.len() == s1.call_stack.len());
        assert(s1.stack[s1.stack.len() - n + j] == s.stack[s.stack.len() - 1 - n + j]);
    }
}

/// A proper prefix comes first: a byte string is ordered before any longer
/// string that starts with it.
pub proof fn lemma_prefix_comes_first(p: Seq<u8>, t: Seq<u8>)
    requires
        t.len() > 0,
    ensures
        order_bytes(p, p + t) == Order::Less,
        order_bytes(p + t, p) == Order::Greater,
    decreases p.len(),
{
    if p.len() > 0 {
        let q = p.subrange(1, p.len() as int);
        assert((p + t)[0] == p[0]);
        assert((p + t).subrange(1, (p + t).len() as int) =~= q + t);
        lemma_prefix_comes_first(q, t);
    } else {
        assert(p + t =~= t);
    }
}

/// The first differing byte decides: after a common prefix, the string whose
/// next byte is smaller comes first, whatever follows.
pub proof fn lemma_first_difference_decides(p: Seq<u8>, a: u8, b: u8, u: Seq<u8>, w: Seq<u8>)
    requires
        a < b,
    ensures
        order_bytes(p.push(a) + u, p.push(b) + w) == Order::Less,
    decreases p.len(),
{
    let x = p.push(a) + u;
    let y = p.push(b) + w;
    if p.len() > 0 {
        let q = p.subrange(1, p.len() as int);
        assert(x[0] == p[0] && y[0] == p[0]);
        assert(x.subrange(1, x.len() as int) =~= q.push(a) + u);
        assert(y.subrange(1, y.len() as int) =~= q.push(b) + w);
        lemma_first_difference_decides(q, a, b, u, w);
    } else {
        assert(x[0] == a && y[0] == b);
    }
}

proof fn lemma_encode_utf8_concat(x: Seq<char>, y: Seq<char>)
    ensures
        encode_utf8(x + y) == encode_utf8(x) + encode_utf8(y),
    decreases x.len(),
{
    if x.len() > 0 {
        assert((x + y).drop_first() =~= x.drop_first() + y);
        assert((x + y)[0] == x[0]);
        lemma_encode_utf8_concat(x.drop_first(), y);
        assert(encode_utf8(x + y) =~= encode_utf8(x) + encode_utf8(y));
    } else {
        assert(x + y =~= y);
        assert(encode_utf8(x) =~= Seq::<u8>::empty());
        assert(encode_utf8(x) + encode_utf8(y) =~= encode_utf8(y));
    }
}

/// A string is ordered before every longer string that starts with it, so
/// `LT` holds of it and such a string, and `GT` of the reverse.
pub proof fn lemma_string_prefix_is_less(x: Seq<char>, y: Seq<char>)
    requires
        y.len() > 0,
    ensures
        order_values(ValueV::Str(x), ValueV::Str(x + y)) == Order::Less,
        order_holds(Opcode::LT, operand_order(ValueV::Str(x), ValueV::Str(x + y))),
        order_holds(Opcode::GT, operand_order(ValueV::Str(x + y), ValueV::Str(x))),
{
    lemma_encode_utf8_concat(x, y);
    assert(encode_utf8(y).len() > 0) by {
        assert(encode_utf8(y) =~= encode_scalar(y[0] as u32) + encode_utf8(y.drop_first()));
    }
    lemma_prefix_comes_first(encode_utf8(x), encode_utf8(y));
}

/// `And` is true exactly when both operands are, `Or` exactly when at least
/// one is; either way the two booleans are replaced by the result.
pub proof fn lemma_and_or_truth(s: VMState, x: bool, y: bool)
    requires
        s.stack.len() >= 2,
        s.stack[s.stack.len() - 2] == ValueV::Bool(x),
        s.stack.last() == ValueV::Bool(y),
    ensures
        and_or(s, Opcode::And).out is Continue,
        and_or(s, Opcode::Or).out is Continue,
        and_or(s, Opcode::And).state.stack == s.stack.subrange(0, s.stack.len() - 2).push(
            ValueV::Bool(if x { y } else { false }),
        ),
        and_or(s, Opcode::Or).state.stack == s.stack.subrange(0, s.stack.len() - 2).push(
            ValueV::Bool(if x { true } else { y }),
        ),
        (x || y) <==> and_or(s, Opcode::Or).state.stack.last() == ValueV::Bool(true),
        (x && y) <==> and_or(s, Opcode::And).state.stack.last() == ValueV::Bool(true),
{
    assert(s.stack.drop_last().drop_last() =~= s.stack.subrange(0, s.stack.len() - 2));
}

/// `Or` is `And` under negation: negating both operands, taking `And` and
/// negating the result gives `Or`.
pub proof fn lemma_or_by_de_morgan(s: VMState, x: bool, y: bool)
    requires
        s.stack.len() >= 2,
        s.stack[s.stack.len() - 2] == ValueV::Bool(x),
        s.stack.last() == ValueV::Bool(y),
    ensures
        ({
            let base = s.stack.subrange(0, s.stack.len() - 2);
            let t = VMState { stack: base.push(ValueV::Bool(!x)).push(ValueV::Bool(!y)), ..s };
            negate(and_or(t, Opcode::And).state).state.stack == and_or(s, Opcode::Or).state.stack
        }),
{
    let base = s.stack.subrange(0, s.stack.len() - 2);
    let t = VMState { stack: base.push(ValueV::Bool(!x)).push(ValueV::Bool(!y)), ..s };
    lemma_and_or_truth(s, x, y);
    lemma_and_or_truth(t, !x, !y);
    assert(t.stack.subrange(0, t.stack.len() - 2) =~= base);
    let u = and_or(t, Opcode::And).state;
    assert(u.stack.drop_last() =~= base);
}

/// The decimal value of a sequence of digit characters.
pub open spec fn decimal_value(cs: Seq<char>) -> int
    decreases cs.len(),
{
    if cs.len() == 0 {
        0
    } else {
        decimal_value(cs.drop_last()) * 10 + ((cs.last() as int) - ('0' as int))
    }
}

pub open spec fn is_digit(c: char) -> bool {
    '0' <= c <= '9'
}

/// The decimal text of a natural number is nonempty, is made of digits, has
/// no leading zero (zero is the single digit `0`), and reads back as the
/// number.
pub proof fn lemma_digits_read_back(n: nat)
    ensures
        digits(n).len() >= 1,
        forall|i: int| 0 <= i < digits(n).len() ==> is_digit(#[trigger] digits(n)[i]),
        decimal_value(digits(n)) == n,
        digits(n)[0] == '0' ==> n == 0 && digits(n).len() == 1,
        n == 0 ==> digits(n) == seq!['0'],
    decreases n,
{
    if n >= 10 {
        lemma_digits_read_back(n / 10);
        let d = digits(n);
        let q = digits(n / 10);
        assert(d.drop_last() =~= q);
        assert(d[0] == q[0]);
        assert(n == (n / 10) * 10 + n % 10) by (nonlinear_arith);
        assert(n / 10 != 0);
    } else {
        assert(decimal_value(digits(n)) == decimal_value(digits(n).drop_last()) * 10 + ((digit_char(n) as int) - ('0' as int)));
        assert(digits(n).drop_last() =~= Seq::<char>::empty());
    }
}

/// The text of an integer is nonempty and reads back as the integer: a `-`
/// followed by the digits of its magnitude when it is negative, its digits
/// otherwise.
pub proof fn lemma_int_text_reads_back(i: int)
    ensures
        int_chars(i).len() >= 1,
        i < 0 ==> int_chars(i)[0] == '-' && decimal_value(int_chars(i).subrange(1, int_chars(i).len() as int)) == -i,
        i >= 0 ==> decimal_value(int_chars(i)) == i && is_digit(int_chars(i)[0]),
{
    if i < 0 {
        lemma_digits_read_back((-i) as nat);
        assert(int_chars(i).subrange(1, int_chars(i).len() as int) =~= digits((-i) as nat));
    } else {
        lemma_digits_read_back(i as nat);
    }
}

/// Jumps move the current frame past the instruction and its immediate
/// bytes, and then forward by the offset byte when they jump: always for
/// `Jump`, and for `JumpIfF` when the condition was `false`.
pub proof fn lemma_jump_length(s: VMState, op: Opcode)
    requires
        code_fits(s.module),
        fetch(s) matches Fetch::Byte(_, b) && opcode_of(b) == Some(op),
        op == Opcode::Jump || op == Opcode::JumpIfF,
        step(s).out is Continue,
    ensures
        ({
            let ip = s.call_stack.last().ip;
            let code = find_code(s.module.chunks, s.call_stack.last().chunk_name)->Some_0;
            let off = code[ip + 1];
            let jumps = op == Opcode::Jump || s.stack.last() == ValueV::Bool(false);
            &&& step(s).state.call_stack.len() == s.call_stack.len()
            &&& step(s).state.call_stack.last().ip == ip + 1 + expected_imms(op) + (if jumps { off as int } else { 0 })
        }),
{
    lemma_find_code_fits(s.module.chunks, s.call_stack.last().chunk_name);
    let s1 = set_ip(s, (s.call_stack.last().ip + 1) as usize);
    assert(s1.call_stack.last().ip == s.call_stack.last().ip + 1);
    lemma_find_code_fits(s1.module.chunks, s1.call_stack.last().chunk_name);
    assert(s1.call_stack.last().chunk_name == s.call_stack.last().chunk_name);
    if let Fetch::Byte(s2, off) = fetch(s1) {
        assert(s2.call_stack.last().ip == s.call_stack.last().ip + 2);
        assert(s2.call_stack.len() == s.call_stack.len());
        assert(s2.stack == s.stack);
        if let Some((s3, _)) = pop(s2) {
            assert(s3.call_stack == s2.call_stack);
        }
    }
}


/// Integer instructions compute the sum, difference, product and quotient
/// rounded toward zero of the two integers on top of the stack (the deeper
/// one first), when the result fits: the quotient `q` and the remainder
/// `x - q * y` make up `x`, the remainder is smaller than the divisor and
/// never of the opposite sign to `x`.
pub proof fn lemma_int_instructions(s: VMState, x: i64, y: i64)
    requires
        s.stack.len() >= 2,
        s.stack[s.stack.len() - 2] == ValueV::Int(x),
        s.stack.last() == ValueV::Int(y),
    ensures
        ({
            let base = s.stack.subrange(0, s.stack.len() - 2);
            &&& i64::MIN <= x + y <= i64::MAX ==> int_arith(s, Opcode::IAdd).out is Continue
                && int_arith(s, Opcode::IAdd).state.stack == base.push(ValueV::Int((x + y) as i64))
            &&& i64::MIN <= x - y <= i64::MAX ==> int_arith(s, Opcode::ISub).out is Continue
                && int_arith(s, Opcode::ISub).state.stack == base.push(ValueV::Int((x - y) as i64))
            &&& i64::MIN <= x * y <= i64::MAX ==> int_arith(s, Opcode::IMul).out is Continue
                && int_arith(s, Opcode::IMul).state.stack == base.push(ValueV::Int((x * y) as i64))
            &&& y == 0 ==> int_arith(s, Opcode::IDiv).out == Outcome::Fault(Fault::DivisionByZero)
            &&& int_arith(s, Opcode::IDiv).out is Continue ==> ({
                let q = int_arith(s, Opcode::IDiv).state.stack.last()->Int_0 as int;
                let r = x - q * y;
                &&& int_arith(s, Opcode::IDiv).state.stack.drop_last() == base
                &&& int_arith(s, Opcode::IDiv).state.stack.last() is Int
                &&& (if r < 0 { -r } else { r }) < (if y < 0 { -(y as int) } else { y as int })
                &&& (r == 0 || (r < 0) == (x < 0))
            })
        }),
{
    assert(s.stack.drop_last().drop_last() =~= s.stack.subrange(0, s.stack.len() - 2));
    if y != 0 {
        lemma_trunc_div_props(x as int, y as int);
    }
}

proof fn lemma_trunc_div_props(x: int, y: int)
    requires
        y != 0,
    ensures
        ({
            let r = x - trunc_div(x, y) * y;
            &&& (if r < 0 { -r } else { r }) < (if y < 0 { -y } else { y })
            &&& (r == 0 || (r < 0) == (x < 0))
        }),
{
    let ax = if x < 0 { -x } else { x };
    let ay = if y < 0 { -y } else { y };
    let q = ax / ay;
    let m = ax % ay;
    assert(ax == q * ay + m && 0 <= m < ay) by (nonlinear_arith)
        requires
            ay > 0,
            ax >= 0,
            q == ax / ay,
            m == ax % ay,
    ;
    if x < 0 && y < 0 {
        assert(x - q * y == -m) by (nonlinear_arith) requires ax == -x, ay == -y, ax == q * ay + m;
    } else if x < 0 {
        assert(x - (-q) * y == -m) by (nonlinear_arith) requires ax == -x, ay == y, ax == q * ay + m;
    } else if y < 0 {
        assert(x - (-q) * y == m) by (nonlinear_arith) requires ax == x, ay == -y, ax == q * ay + m;
    } else {
        assert(x - q * y == m) by (nonlinear_arith) requires ax == x, ay == y, ax == q * ay + m;
    }
}

/// On two integers the comparison instructions are the usual comparisons of
/// the deeper operand with the top one.
pub proof fn lemma_int_comparisons(x: i64, y: i64)
    ensures
        order_holds(Opcode::LT, operand_order(ValueV::Int(x), ValueV::Int(y))) == (x < y),
        order_holds(Opcode::LTE, operand_order(ValueV::Int(x), ValueV::Int(y))) == (x <= y),
        order_holds(Opcode::GT, operand_order(ValueV::Int(x), ValueV::Int(y))) == (x > y),
        order_holds(Opcode::GTE, operand_order(ValueV::Int(x), ValueV::Int(y))) == (x >= y),
        order_holds(Opcode::Eq, operand_order(ValueV::Int(x), ValueV::Int(y))) == (x == y),
        order_holds(Opcode::Neq, operand_order(ValueV::Int(x), ValueV::Int(y))) == (x != y),
{
}

/// `Coalesce` gives what an option holds, or the fallback on top of the
/// stack when the option is absent.
pub proof fn lemma_coalesce(s: VMState, o: Option<Box<ValueV>>, fallback: ValueV)
    requires
        s.stack.len() >= 2,
        s.stack[s.stack.len() - 2] == ValueV::Opt(o),
        s.stack.last() == fallback,
    ensures
        coalesce(s).out is Continue,
        coalesce(s).state.stack.drop_last() == s.stack.subrange(0, s.stack.len() - 2),
        coalesce(s).state.stack.last() == (match o {
            Some(v) => *v,
            None => fallback,
        }),
{
    assert(s.stack.drop_last().drop_last() =~= s.stack.subrange(0, s.stack.len() - 2));
}

} // verus!
