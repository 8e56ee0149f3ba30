//! The meaning of each instruction, as a function from machine state to the
//! next machine state and what the step yields.
use vstd::prelude::*;
use vstd::utf8::encode_utf8;
use crate::opcode::{Opcode, opcode_of};
use crate::value::{ValueV, Order, order_values, display, has_float};
use crate::module::{ModuleV, find_code, main_name};
use crate::vm::{InterpretError, Fault};

verus! {

/// The model of a call frame.
pub struct FrameV {
    pub ip: usize,
    pub chunk_name: Seq<char>,
    pub stack_offset: usize,
}

/// The model of the whole machine.
#[verifier::ext_equal]
pub struct VMState {
    pub call_stack: Seq<FrameV>,
    pub stack: Seq<ValueV>,
    pub globals: Map<Seq<char>, ValueV>,
    pub module: ModuleV,
}

/// The model of a [`FloatRequest`](crate::vm::FloatRequest).
#[allow(inconsistent_fields)]
pub enum FloatRequestV {
    Arith { op: Opcode, a: u64, b: u64 },
    IntToFloat(i64),
    FloatToInt(u64),
    Compare { op: Opcode, a: ValueV, b: ValueV },
    Concat { a: ValueV, b: ValueV },
}

/// What one step of the machine yields.
pub enum Outcome {
    /// The instruction is done and the next one may run.
    Continue,
    /// The main chunk returned, with the value that was on top of the stack.
    Done(Option<ValueV>),
    /// The instruction needs float arithmetic; its operands have been taken
    /// off the stack and its result is to be pushed.
    Float(FloatRequestV),
    /// The program broke a rule of the machine and cannot go on.
    Fault(Fault),
    /// The program hit one of the machine's reported errors.
    Error(InterpretError),
}

/// A machine state together with what a step yielded.
pub struct Transition {
    pub state: VMState,
    pub out: Outcome,
}

pub open spec fn goes(state: VMState, out: Outcome) -> Transition {
    Transition { state, out }
}

pub open spec fn push(s: VMState, v: ValueV) -> VMState {
    VMState { stack: s.stack.push(v), ..s }
}

/// The stack without its top value, and that value.
pub open spec fn pop(s: VMState) -> Option<(VMState, ValueV)> {
    if s.stack.len() == 0 {
        None
    } else {
        Some((VMState { stack: s.stack.drop_last(), ..s }, s.stack.last()))
    }
}

pub open spec fn cont_push(s: VMState, v: ValueV) -> Transition {
    goes(push(s, v), Outcome::Continue)
}

pub open spec fn empty_stack(s: VMState) -> Transition {
    goes(s, Outcome::Error(InterpretError::StackEmpty))
}

pub open spec fn fault(s: VMState, k: Fault) -> Transition {
    goes(s, Outcome::Fault(k))
}

pub open spec fn in_i64(x: int) -> bool {
    i64::MIN <= x <= i64::MAX
}

/// The machine with the top frame's instruction pointer set.
pub open spec fn set_ip(s: VMState, ip: usize) -> VMState {
    let f = s.call_stack.last();
    VMState {
        call_stack: s.call_stack.update(s.call_stack.len() - 1, FrameV { ip, ..f }),
        ..s
    }
}

/// The result of reading the next byte of the current chunk.
pub enum Fetch {
    Fault(Fault),
    /// The instruction pointer is at the end of the code.
    End,
    Byte(VMState, u8),
}

pub open spec fn fetch(s: VMState) -> Fetch {
    if s.call_stack.len() == 0 {
        Fetch::Fault(Fault::NoFrame)
    } else {
        let f = s.call_stack.last();
        match find_code(s.module.chunks, f.chunk_name) {
            None => Fetch::Fault(Fault::NoSuchChunk),
            Some(code) => if f.ip == code.len() {
                Fetch::End
            } else if f.ip > code.len() {
                Fetch::Fault(Fault::CodeOutOfBounds)
            } else {
                Fetch::Byte(set_ip(s, (f.ip + 1) as usize), code[f.ip as int])
            },
        }
    }
}

pub open spec fn constant(s: VMState) -> Transition {
    match fetch(s) {
        Fetch::Fault(k) => fault(s, k),
        Fetch::End => goes(s, Outcome::Error(InterpretError::EndOfBytes)),
        Fetch::Byte(s1, idx) => if (idx as int) < s1.module.constants.len() {
            cont_push(s1, s1.module.constants[idx as int])
        } else {
            goes(s1, Outcome::Error(InterpretError::ConstIdxOutOfBounds))
        },
    }
}

/// Integer division rounded toward zero.
pub open spec fn trunc_div(x: int, y: int) -> int {
    let q = (if x < 0 { -x } else { x }) / (if y < 0 { -y } else { y });
    if (x < 0) != (y < 0) { -q } else { q }
}

/// The result of an integer instruction on two 64-bit integers.
pub open spec fn int_result(op: Opcode, x: int, y: int) -> Result<int, Fault> {
    let r = match op {
        Opcode::IAdd => x + y,
        Opcode::ISub => x - y,
        Opcode::IMul => x * y,
        _ => trunc_div(x, y),
    };
    if op == Opcode::IDiv && y == 0 {
        Err(Fault::DivisionByZero)
    } else if !in_i64(r) {
        Err(Fault::ArithmeticOverflow)
    } else {
        Ok(r)
    }
}

pub open spec fn int_arith(s: VMState, op: Opcode) -> Transition {
    match pop(s) {
        None => empty_stack(s),
        Some((s1, b)) => match pop(s1) {
            None => empty_stack(s1),
            Some((s2, a)) => match (a, b) {
                (ValueV::Int(x), ValueV::Int(y)) => match int_result(op, x as int, y as int) {
                    Ok(r) => cont_push(s2, ValueV::Int(r as i64)),
                    Err(k) => fault(s2, k),
                },
                _ => fault(s2, Fault::TypeMismatch),
            },
        },
    }
}

pub open spec fn float_arith(s: VMState, op: Opcode) -> Transition {
    match pop(s) {
        None => empty_stack(s),
        Some((s1, b)) => match pop(s1) {
            None => empty_stack(s1),
            Some((s2, a)) => match (a, b) {
                (ValueV::Float(x), ValueV::Float(y)) => goes(
                    s2,
                    Outcome::Float(FloatRequestV::Arith { op, a: x, b: y }),
                ),
                _ => fault(s2, Fault::TypeMismatch),
            },
        },
    }
}

pub open spec fn int_to_float(s: VMState) -> Transition {
    match pop(s) {
        None => empty_stack(s),
        Some((s1, ValueV::Int(v))) => goes(s1, Outcome::Float(FloatRequestV::IntToFloat(v))),
        Some((s1, _)) => fault(s1, Fault::TypeMismatch),
    }
}

pub open spec fn float_to_int(s: VMState) -> Transition {
    match pop(s) {
        None => empty_stack(s),
        Some((s1, ValueV::Float(v))) => goes(s1, Outcome::Float(FloatRequestV::FloatToInt(v))),
        Some((s1, _)) => fault(s1, Fault::TypeMismatch),
    }
}

/// The bit that holds a float's sign.
pub open spec fn sign_bit() -> u64 {
    0x8000_0000_0000_0000u64
}

pub open spec fn invert(s: VMState) -> Transition {
    match pop(s) {
        None => empty_stack(s),
        Some((s1, ValueV::Int(v))) => if v == i64::MIN {
            fault(s1, Fault::ArithmeticOverflow)
        } else {
            cont_push(s1, ValueV::Int((-v) as i64))
        },
        Some((s1, ValueV::Float(bits))) => cont_push(s1, ValueV::Float(bits ^ sign_bit())),
        Some((s1, _)) => fault(s1, Fault::TypeMismatch),
    }
}

pub open spec fn str_concat(s: VMState) -> Transition {
    match pop(s) {
        None => empty_stack(s),
        Some((s1, b)) => match pop(s1) {
            None => empty_stack(s1),
            Some((s2, a)) => if has_float(a) || has_float(b) {
                goes(s2, Outcome::Float(FloatRequestV::Concat { a, b }))
            } else {
                cont_push(s2, ValueV::Str(display(a) + display(b)))
            },
        },
    }
}

pub open spec fn and_or(s: VMState, op: Opcode) -> Transition {
    match pop(s) {
        None => empty_stack(s),
        Some((s1, ValueV::Bool(y))) => match pop(s1) {
            None => empty_stack(s1),
            Some((s2, ValueV::Bool(x))) => cont_push(
                s2,
                ValueV::Bool(if op == Opcode::And { x && y } else { x || y }),
            ),
            Some((s2, _)) => fault(s2, Fault::TypeMismatch),
        },
        Some((s1, _)) => fault(s1, Fault::TypeMismatch),
    }
}

pub open spec fn negate(s: VMState) -> Transition {
    match pop(s) {
        None => empty_stack(s),
        Some((s1, ValueV::Bool(b))) => cont_push(s1, ValueV::Bool(!b)),
        Some((s1, _)) => fault(s1, Fault::TypeMismatch),
    }
}

pub open spec fn coalesce(s: VMState) -> Transition {
    match pop(s) {
        None => empty_stack(s),
        Some((s1, fallback)) => match pop(s1) {
            None => empty_stack(s1),
            Some((s2, ValueV::Opt(Some(v)))) => cont_push(s2, *v),
            Some((s2, ValueV::Opt(None))) => cont_push(s2, fallback),
            Some((s2, _)) => fault(s2, Fault::TypeMismatch),
        },
    }
}

/// The order of two operands of a comparison instruction: an integer and a
/// float, or two floats, are compared as floats, which is not decided here;
/// other values are ordered by [`order_values`].
pub open spec fn operand_order(a: ValueV, b: ValueV) -> Order {
    match (a, b) {
        (ValueV::Int(_), ValueV::Float(_)) => Order::Deferred,
        (ValueV::Float(_), ValueV::Float(_)) => Order::Deferred,
        (ValueV::Float(_), ValueV::Int(_)) => Order::Deferred,
        _ => order_values(a, b),
    }
}

/// Whether a comparison instruction holds of operands in the given order.
pub open spec fn order_holds(op: Opcode, o: Order) -> bool {
    match op {
        Opcode::LT => o == Order::Less,
        Opcode::LTE => o != Order::Greater,
        Opcode::GT => o == Order::Greater,
        Opcode::GTE => o != Order::Less,
        Opcode::Eq => o == Order::Equal,
        _ => o != Order::Equal,
    }
}

pub open spec fn compare(s: VMState, op: Opcode) -> Transition {
    match pop(s) {
        None => empty_stack(s),
        Some((s1, b)) => match pop(s1) {
            None => empty_stack(s1),
            Some((s2, a)) => if operand_order(a, b) == Order::Deferred {
                goes(s2, Outcome::Float(FloatRequestV::Compare { op, a, b }))
            } else {
                cont_push(s2, ValueV::Bool(order_holds(op, operand_order(a, b))))
            },
        },
    }
}

pub open spec fn arr_mk(s: VMState) -> Transition {
    match pop(s) {
        None => empty_stack(s),
        Some((s1, ValueV::Int(n))) => if n < 0 {
            fault(s1, Fault::CapacityOverflow)
        } else if n > s1.stack.len() {
            empty_stack(VMState { stack: Seq::empty(), ..s1 })
        } else {
            let k = s1.stack.len() - n;
            cont_push(
                VMState { stack: s1.stack.subrange(0, k), ..s1 },
                ValueV::Arr(s1.stack.subrange(k, s1.stack.len() as int)),
            )
        },
        Some((s1, _)) => fault(s1, Fault::TypeMismatch),
    }
}

/// The number of UTF-8 bytes of a string, as a 64-bit integer.
pub open spec fn byte_len(cs: Seq<char>) -> i64 {
    (encode_utf8(cs).len() as usize) as i64
}

/// The item of a string at an index that counts from the end when negative
/// (by the string's byte length); absent when out of range.
pub open spec fn str_item(cs: Seq<char>, i: i64) -> Result<Option<ValueV>, Fault> {
    let len = byte_len(cs);
    let j: int = if i < 0 { i + len } else { i as int };
    if !in_i64(j) {
        Err(Fault::ArithmeticOverflow)
    } else {
        let pos = (j as i64) as usize;
        if (pos as int) < cs.len() {
            Ok(Some(ValueV::Str(seq![cs[pos as int]])))
        } else {
            Ok(None)
        }
    }
}

/// The item of an array at an index that counts from the end when negative;
/// absent when out of range.
pub open spec fn arr_item(items: Seq<ValueV>, i: i64) -> Result<Option<ValueV>, Fault> {
    let len = items.len() as i64;
    if len == i64::MIN {
        Err(Fault::ArithmeticOverflow)
    } else if i < -len || i >= len {
        Ok(None)
    } else {
        let j = if i < 0 { i + len } else { i as int };
        Ok(Some(items[j]))
    }
}

pub open spec fn arr_load(s: VMState) -> Transition {
    match pop(s) {
        None => empty_stack(s),
        Some((s1, ValueV::Int(i))) => match pop(s1) {
            None => empty_stack(s1),
            Some((s2, ValueV::Str(cs))) => match str_item(cs, i) {
                Ok(r) => cont_push(s2, ValueV::Opt(opt_box(r))),
                Err(k) => fault(s2, k),
            },
            Some((s2, ValueV::Arr(items))) => match arr_item(items, i) {
                Ok(r) => cont_push(s2, ValueV::Opt(opt_box(r))),
                Err(k) => fault(s2, k),
            },
            Some((s2, _)) => fault(s2, Fault::TypeMismatch),
        },
        Some((s1, _)) => fault(s1, Fault::TypeMismatch),
    }
}

pub open spec fn opt_box(r: Option<ValueV>) -> Option<Box<ValueV>> {
    match r {
        Some(v) => Some(Box::new(v)),
        None => None,
    }
}

/// An index that counts from the end when negative, made absolute.
pub open spec fn from_end(i: i64, len: i64) -> Result<i64, Fault> {
    if i < 0 {
        if in_i64(i + len) { Ok((i + len) as i64) } else { Err(Fault::ArithmeticOverflow) }
    } else {
        Ok(i)
    }
}

/// The start and end of a slice of a value of the given length: the start
/// and the end (`Nil` for the length) count from the end when negative, and
/// are then taken as unsigned machine words; an end before the start is a
/// fault.
pub open spec fn slice_bounds(len: i64, start: i64, end: ValueV) -> Result<(usize, usize), Fault> {
    match from_end(start, len) {
        Err(k) => Err(k),
        Ok(st) => {
            let e: Result<i64, Fault> = match end {
                ValueV::Int(e) => Ok(e),
                ValueV::Nil => Ok(len),
                _ => Err(Fault::TypeMismatch),
            };
            match e {
                Err(k) => Err(k),
                Ok(e) => match from_end(e, len) {
                    Err(k) => Err(k),
                    Ok(en) => if (en as usize) < (st as usize) {
                        Err(Fault::ArithmeticOverflow)
                    } else {
                        Ok((st as usize, en as usize))
                    },
                },
            }
        },
    }
}

/// The part of a sequence from `from` up to `to`, both cut at its length.
pub open spec fn clamp_slice<A>(s: Seq<A>, from: int, to: int) -> Seq<A> {
    let a = if from < s.len() { from } else { s.len() as int };
    let b = if to < s.len() { to } else { s.len() as int };
    s.subrange(a, b)
}

pub open spec fn arr_slc(s: VMState) -> Transition {
    match pop(s) {
        None => empty_stack(s),
        Some((s1, end)) => match pop(s1) {
            None => empty_stack(s1),
            Some((s2, ValueV::Int(start))) => match pop(s2) {
                None => empty_stack(s2),
                Some((s3, ValueV::Str(cs))) => match slice_bounds(byte_len(cs), start, end) {
                    Ok((a, b)) => cont_push(s3, ValueV::Str(clamp_slice(cs, a as int, b as int))),
                    Err(k) => fault(s3, k),
                },
                Some((s3, ValueV::Arr(items))) => match slice_bounds(items.len() as i64, start, end) {
                    Ok((a, b)) => cont_push(s3, ValueV::Arr(clamp_slice(items, a as int, b as int))),
                    Err(k) => fault(s3, k),
                },
                Some((s3, _)) => fault(s3, Fault::TypeMismatch),
            },
            Some((s2, _)) => fault(s2, Fault::TypeMismatch),
        },
    }
}

pub open spec fn g_store(s: VMState) -> Transition {
    match pop(s) {
        None => empty_stack(s),
        Some((s1, ValueV::Str(name))) => match pop(s1) {
            None => empty_stack(s1),
            Some((s2, v)) => goes(
                VMState { globals: s2.globals.insert(name, v), ..s2 },
                Outcome::Continue,
            ),
        },
        Some((s1, _)) => fault(s1, Fault::TypeMismatch),
    }
}

pub open spec fn g_load(s: VMState) -> Transition {
    match pop(s) {
        None => empty_stack(s),
        Some((s1, ValueV::Str(name))) => cont_push(
            s1,
            if s1.globals.contains_key(name) { s1.globals[name] } else { ValueV::Nil },
        ),
        Some((s1, _)) => fault(s1, Fault::TypeMismatch),
    }
}

/// The stack position of a local slot of the current frame.
pub open spec fn slot_position(s: VMState, slot: int) -> Result<int, Fault> {
    if s.call_stack.len() == 0 {
        Err(Fault::NoFrame)
    } else if slot + s.call_stack.last().stack_offset > usize::MAX {
        Err(Fault::ArithmeticOverflow)
    } else {
        Ok(slot + s.call_stack.last().stack_offset)
    }
}

pub open spec fn store(s: VMState, slot: int) -> Transition {
    match slot_position(s, slot) {
        Err(k) => fault(s, k),
        Ok(p) => match pop(s) {
            None => empty_stack(s),
            Some((s1, v)) => if p < s1.stack.len() {
                goes(VMState { stack: s1.stack.update(p, v), ..s1 }, Outcome::Continue)
            } else {
                fault(s1, Fault::StackSlotOutOfBounds)
            },
        },
    }
}

pub open spec fn load(s: VMState, slot: int) -> Transition {
    match slot_position(s, slot) {
        Err(k) => fault(s, k),
        Ok(p) => cont_push(s, if p < s.stack.len() { s.stack[p] } else { ValueV::Nil }),
    }
}

/// An instruction that reads one immediate byte and goes on with it.
pub open spec fn with_imm(s: VMState, then: spec_fn(VMState, u8) -> Transition) -> Transition {
    match fetch(s) {
        Fetch::Fault(k) => fault(s, k),
        Fetch::End => goes(s, Outcome::Error(InterpretError::EndOfBytes)),
        Fetch::Byte(s1, b) => then(s1, b),
    }
}

/// Moves the current frame's instruction pointer forward.
pub open spec fn jump_by(s: VMState, off: u8) -> Transition {
    let ip = s.call_stack.last().ip + off;
    if ip > usize::MAX {
        fault(s, Fault::ArithmeticOverflow)
    } else {
        goes(set_ip(s, ip as usize), Outcome::Continue)
    }
}

pub open spec fn jump_if_false(s: VMState, off: u8) -> Transition {
    match pop(s) {
        None => empty_stack(s),
        Some((s1, ValueV::Bool(c))) => if !c { jump_by(s1, off) } else { goes(s1, Outcome::Continue) },
        Some((s1, _)) => fault(s1, Fault::TypeMismatch),
    }
}

pub open spec fn invoke(s: VMState) -> Transition {
    match pop(s) {
        None => empty_stack(s),
        Some((s1, ValueV::Str(name))) => with_imm(
            s1,
            |s2: VMState, arity: u8|
                if (arity as int) > s2.stack.len() {
                    fault(s2, Fault::ArithmeticOverflow)
                } else {
                    goes(
                        VMState {
                            call_stack: s2.call_stack.push(
                                FrameV {
                                    ip: 0,
                                    chunk_name: name,
                                    stack_offset: (s2.stack.len() - arity) as usize,
                                },
                            ),
                            ..s2
                        },
                        Outcome::Continue,
                    )
                },
        ),
        Some((s1, _)) => fault(s1, Fault::TypeMismatch),
    }
}

pub open spec fn pop_op(s: VMState) -> Transition {
    match pop(s) {
        None => empty_stack(s),
        Some((s1, _)) => goes(s1, Outcome::Continue),
    }
}

pub open spec fn ret(s: VMState) -> Transition {
    if s.call_stack.len() == 0 {
        fault(s, Fault::NoFrame)
    } else if s.call_stack.last().chunk_name == main_name() {
        match pop(s) {
            None => goes(s, Outcome::Done(None)),
            Some((s1, v)) => goes(s1, Outcome::Done(Some(v))),
        }
    } else {
        goes(VMState { call_stack: s.call_stack.drop_last(), ..s }, Outcome::Continue)
    }
}

/// What an instruction does, once its byte has been read.
pub open spec fn exec_op(s: VMState, op: Opcode) -> Transition {
    match op {
        Opcode::Constant => constant(s),
        Opcode::Nil => cont_push(s, ValueV::Nil),
        Opcode::IConst0 => cont_push(s, ValueV::Int(0)),
        Opcode::IConst1 => cont_push(s, ValueV::Int(1)),
        Opcode::IConst2 => cont_push(s, ValueV::Int(2)),
        Opcode::IConst3 => cont_push(s, ValueV::Int(3)),
        Opcode::IConst4 => cont_push(s, ValueV::Int(4)),
        Opcode::IAdd | Opcode::ISub | Opcode::IMul | Opcode::IDiv => int_arith(s, op),
        Opcode::FAdd | Opcode::FSub | Opcode::FMul | Opcode::FDiv => float_arith(s, op),
        Opcode::I2F => int_to_float(s),
        Opcode::F2I => float_to_int(s),
        Opcode::Invert => invert(s),
        Opcode::StrConcat => str_concat(s),
        Opcode::T => cont_push(s, ValueV::Bool(true)),
        Opcode::F => cont_push(s, ValueV::Bool(false)),
        Opcode::And | Opcode::Or => and_or(s, op),
        Opcode::Negate => negate(s),
        Opcode::Coalesce => coalesce(s),
        Opcode::LT | Opcode::LTE | Opcode::GT | Opcode::GTE | Opcode::Eq | Opcode::Neq => compare(s, op),
        Opcode::ArrMk => arr_mk(s),
        Opcode::ArrLoad => arr_load(s),
        Opcode::ArrSlc => arr_slc(s),
        Opcode::GStore => g_store(s),
        Opcode::LStore0 => store(s, 0),
        Opcode::LStore1 => store(s, 1),
        Opcode::LStore2 => store(s, 2),
        Opcode::LStore3 => store(s, 3),
        Opcode::LStore4 => store(s, 4),
        Opcode::LStore => with_imm(s, |s1: VMState, b: u8| store(s1, b as int)),
        Opcode::GLoad => g_load(s),
        Opcode::LLoad0 => load(s, 0),
        Opcode::LLoad1 => load(s, 1),
        Opcode::LLoad2 => load(s, 2),
        Opcode::LLoad3 => load(s, 3),
        Opcode::LLoad4 => load(s, 4),
        Opcode::LLoad => with_imm(s, |s1: VMState, b: u8| load(s1, b as int)),
        Opcode::Jump => with_imm(s, |s1: VMState, b: u8| jump_by(s1, b)),
        Opcode::JumpIfF => with_imm(s, |s1: VMState, b: u8| jump_if_false(s1, b)),
        Opcode::Invoke => invoke(s),
        Opcode::Pop => pop_op(s),
        Opcode::Return => ret(s),
        _ => fault(s, Fault::Unimplemented(op)),
    }
}

/// One step of the machine: read the next instruction and do it.
pub open spec fn step(s: VMState) -> Transition {
    match fetch(s) {
        Fetch::Fault(k) => fault(s, k),
        Fetch::End => goes(s, Outcome::Error(InterpretError::EndOfBytes)),
        Fetch::Byte(s1, b) => match opcode_of(b) {
            None => fault(s1, Fault::InvalidOpcode(b)),
            Some(op) => exec_op(s1, op),
        },
    }
}

/// Up to `fuel` steps, stopping at the first that does not yield `Continue`;
/// `Continue` when all of them did.
pub open spec fn run(s: VMState, fuel: nat) -> Transition
    decreases fuel,
{
    if fuel == 0 {
        goes(s, Outcome::Continue)
    } else {
        let t = step(s);
        if t.out is Continue {
            run(t.state, (fuel - 1) as nat)
        } else {
            t
        }
    }
}

} // verus!
