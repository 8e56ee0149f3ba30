use vstd::prelude::*;
use crate::opcode::{Opcode, MAX_OPCODE_BYTE};
use crate::value::{
    Value, ValueV, Obj, Order, items_view, value_view, lemma_items_view, lemma_items_view_push,
    contains_float, push_display, display, compare_values, copy_value,
};
use crate::module::{CompiledModule, main_name, main_chunk_name, find_code};
use crate::globals::Globals;
use crate::laws::code_fits;
use crate::semantics::{
    FrameV, VMState, FloatRequestV, Outcome, Transition, Fetch, fetch, push, pop, set_ip,
    trunc_div, constant, int_arith, int_result, float_arith, int_to_float, float_to_int, invert,
    and_or, negate, coalesce, pop_op, str_concat, compare, operand_order, g_store, g_load,
    slot_position, store, load, jump_by, jump_if_false, invoke, ret, arr_mk, arr_load, arr_slc,
    from_end, slice_bounds, byte_len, str_item, arr_item, opt_box, exec_op, step, run,
};
use crate::text::push_char;
use vstd::string::{StrSliceExecFns, StringExecFns};

verus! {

/// The errors that running a program reports.
#[derive(Clone, Copy, Debug, PartialEq, Eq, Structural)]
pub enum InterpretError {
    StackEmpty,
    ConstIdxOutOfBounds,
    EndOfBytes,
}

/// A rule of the machine that a program broke; the machine cannot go on.
/// The machine reports the fault and stops, so that bytecode from anywhere
/// can be run without a panic.
#[derive(Clone, Copy, Debug, PartialEq, Eq, Structural)]
pub enum Fault {
    /// No call frame is active.
    NoFrame,
    /// The current frame names a chunk that the module does not have.
    NoSuchChunk,
    /// The instruction pointer lies past the end of the code, as after a jump
    /// beyond it.
    CodeOutOfBounds,
    /// A byte that encodes no instruction.
    InvalidOpcode(u8),
    /// An instruction that this machine does not run.
    Unimplemented(Opcode),
    /// An operand of the wrong kind.
    TypeMismatch,
    /// Integer arithmetic that leaves the range of its type.
    ArithmeticOverflow,
    /// Integer division by zero.
    DivisionByZero,
    /// A store to a stack position that does not exist.
    StackSlotOutOfBounds,
    /// An array of negative size.
    CapacityOverflow,
}

/// An active function call: where it is in its chunk's code and where its
/// locals start on the stack.
struct CallFrame {
    ip: usize,
    chunk_name: String,
    stack_offset: usize,
}

impl View for CallFrame {
    type V = FrameV;

    closed spec fn view(&self) -> FrameV {
        FrameV { ip: self.ip, chunk_name: self.chunk_name@, stack_offset: self.stack_offset }
    }
}

/// Float work that an instruction hands out: its operands, taken off the
/// stack. The result is to be pushed with [`VM::resume`].
#[allow(inconsistent_fields)]
#[derive(Debug, PartialEq)]
pub enum FloatRequest {
    /// `FAdd`, `FSub`, `FMul` or `FDiv` on the bit patterns of two floats.
    Arith { op: Opcode, a: u64, b: u64 },
    /// `I2F`: the float nearest to an integer.
    IntToFloat(i64),
    /// `F2I`: a float (given by its bits) cast to an integer.
    FloatToInt(u64),
    /// A comparison instruction whose operands need float comparison.
    Compare { op: Opcode, a: Value, b: Value },
    /// `StrConcat` of operands that hold a float.
    Concat { a: Value, b: Value },
}

/// What one step (or a bounded run) of the machine yields.
#[derive(Debug, PartialEq)]
pub enum Step {
    /// The machine may go on.
    Continue,
    /// The main chunk returned, with the value that was on top of the stack.
    Done(Option<Value>),
    /// Float work to do before the machine can go on.
    Float(FloatRequest),
    /// The program broke a rule of the machine; it cannot go on.
    Fault(Fault),
}

pub open spec fn opt_view(o: Option<Value>) -> Option<ValueV> {
    match o {
        Some(v) => Some(v@),
        None => None,
    }
}

pub open spec fn request_view(r: FloatRequest) -> FloatRequestV {
    match r {
        FloatRequest::Arith { op, a, b } => FloatRequestV::Arith { op, a, b },
        FloatRequest::IntToFloat(v) => FloatRequestV::IntToFloat(v),
        FloatRequest::FloatToInt(v) => FloatRequestV::FloatToInt(v),
        FloatRequest::Compare { op, a, b } => FloatRequestV::Compare { op, a: a@, b: b@ },
        FloatRequest::Concat { a, b } => FloatRequestV::Concat { a: a@, b: b@ },
    }
}

/// The model of what a step returned.
pub open spec fn outcome_of(r: Result<Step, InterpretError>) -> Outcome {
    match r {
        Ok(Step::Continue) => Outcome::Continue,
        Ok(Step::Done(v)) => Outcome::Done(opt_view(v)),
        Ok(Step::Float(q)) => Outcome::Float(request_view(q)),
        Ok(Step::Fault(k)) => Outcome::Fault(k),
        Err(e) => Outcome::Error(e),
    }
}

/// A step returned what the transition yields and, unless it is a fault,
/// left the machine in the transition's state.
pub open spec fn follows(t: Transition, after: VMState, r: Result<Step, InterpretError>) -> bool {
    &&& outcome_of(r) == t.out
    &&& !(t.out is Fault) ==> after == t.state
}

/// The virtual machine: a call stack, a value stack, the globals and the
/// program it runs.
pub struct VM {
    call_stack: Vec<CallFrame>,
    module: CompiledModule,
    stack: Vec<Value>,
    globals: Globals,
}

impl View for VM {
    type V = VMState;

    closed spec fn view(&self) -> VMState {
        VMState {
            call_stack: self.call_stack@.map_values(|f: CallFrame| f@),
            stack: self.stack@.map_values(|v: Value| v@),
            globals: self.globals@,
            module: self.module@,
        }
    }
}

impl VM {
    /// A machine about to run the main chunk of a module, with an empty stack
    /// and no globals.
    pub fn new(module: CompiledModule) -> (vm: VM)
        ensures
            vm@.call_stack == seq![FrameV { ip: 0, chunk_name: main_name(), stack_offset: 0 }],
            vm@.stack == Seq::<ValueV>::empty(),
            vm@.globals == Map::<Seq<char>, ValueV>::empty(),
            vm@.module == module@,
    {
        let root_frame = CallFrame { ip: 0, chunk_name: main_chunk_name(), stack_offset: 0 };
        let mut call_stack: Vec<CallFrame> = Vec::new();
        call_stack.push(root_frame);
        let vm = VM { call_stack, module, stack: Vec::new(), globals: Globals::new() };
        assert(vm@.call_stack =~= seq![FrameV { ip: 0, chunk_name: main_name(), stack_offset: 0 }]);
        assert(vm@.stack =~= Seq::<ValueV>::empty());
        vm
    }

    fn push(&mut self, value: Value)
        ensures
            final(self)@ == push(old(self)@, value@),
    {
        self.stack.push(value);
        assert(self@.stack =~= old(self)@.stack.push(value@));
    }

    fn pop(&mut self) -> (r: Option<Value>)
        ensures
            match pop(old(self)@) {
                None => r is None && final(self)@ == old(self)@,
                Some((s1, v)) => r matches Some(x) && x@ == v && final(self)@ == s1,
            },
    {
        let r = self.stack.pop();
        proof {
            if old(self).stack.len() > 0 {
                assert(self@.stack =~= old(self)@.stack.drop_last());
            } else {
                assert(self@.stack =~= old(self)@.stack);
            }
        }
        r
    }

    fn set_ip(&mut self, ip: usize)
        requires
            old(self)@.call_stack.len() > 0,
        ensures
            final(self)@ == set_ip(old(self)@, ip),
    {
        let f = self.call_stack.pop().unwrap();
        let CallFrame { ip: _, chunk_name, stack_offset } = f;
        self.call_stack.push(CallFrame { ip, chunk_name, stack_offset });
        assert(self@.call_stack =~= set_ip(old(self)@, ip).call_stack);
    }

    /// The position in the module of the current frame's chunk, when a frame
    /// is active, its chunk exists and its instruction pointer is within or
    /// at the end of the code; otherwise the fault that stops the machine.
    fn current_chunk(&self) -> (r: Result<usize, Fault>)
        ensures
            match fetch(self@) {
                Fetch::Fault(k) => r == Err::<usize, Fault>(k),
                _ => r matches Ok(i) && self.readable(i),
            },
    {
        let n = self.call_stack.len();
        if n == 0 {
            return Err(Fault::NoFrame);
        }
        let idx = match self.module.chunk_index(&self.call_stack[n - 1].chunk_name) {
            None => return Err(Fault::NoSuchChunk),
            Some(i) => i,
        };
        assert(self@.module.chunks[idx as int] == self.module.chunks@[idx as int]@);
        assert(self@.call_stack.last() == self.call_stack@[n - 1]@);
        if self.call_stack[n - 1].ip > self.module.chunks[idx].code.len() {
            return Err(Fault::CodeOutOfBounds);
        }
        Ok(idx)
    }

    /// A frame is active, chunk `i` is its chunk, and its instruction pointer
    /// is within or at the end of that chunk's code.
    closed spec fn readable(&self, i: usize) -> bool {
        &&& self@.call_stack.len() > 0
        &&& i < self.module.chunks@.len()
        &&& find_code(self@.module.chunks, self@.call_stack.last().chunk_name) == Some(
            self.module.chunks@[i as int].code@,
        )
        &&& self@.call_stack.last().ip <= self.module.chunks@[i as int].code@.len()
    }

    /// Reads the next byte of the current frame's chunk (chunk `idx`) and
    /// moves past it; `None` at the end of the code.
    fn read_byte(&mut self, idx: usize) -> (r: Option<u8>)
        requires
            old(self).readable(idx),
        ensures
            match fetch(old(self)@) {
                Fetch::Fault(_) => false,
                Fetch::End => r is None && final(self)@ == old(self)@,
                Fetch::Byte(s1, b) => r == Some(b) && final(self)@ == s1,
            },
    {
        let n = self.call_stack.len();
        let ip = self.call_stack[n - 1].ip;
        assert(self@.call_stack.last() == self.call_stack@[n - 1]@);
        assert(self@.module.chunks[idx as int] == self.module.chunks@[idx as int]@);
        if ip == self.module.chunks[idx].code.len() {
            return None;
        }
        let b = self.module.chunks[idx].code[ip];
        self.set_ip(ip + 1);
        Some(b)
    }

    /// Reads the next byte of the current chunk, or gives the fault that
    /// stops the machine when it cannot be read.
    fn next_byte(&mut self) -> (r: Result<Option<u8>, Fault>)
        ensures
            match fetch(old(self)@) {
                Fetch::Fault(k) => r == Err::<Option<u8>, Fault>(k) && final(self)@ == old(self)@,
                Fetch::End => r == Ok::<Option<u8>, Fault>(None) && final(self)@ == old(self)@,
                Fetch::Byte(s1, b) => r == Ok::<Option<u8>, Fault>(Some(b)) && final(self)@ == s1,
            },
    {
        match self.current_chunk() {
            Err(k) => Err(k),
            Ok(idx) => Ok(self.read_byte(idx)),
        }
    }

    /// Sets a stack slot that exists.
    fn stack_insert_at(&mut self, index: usize, value: Value)
        requires
            index < old(self)@.stack.len(),
        ensures
            final(self)@ == (VMState { stack: old(self)@.stack.update(index as int, value@), ..old(self)@ }),
    {
        let ghost vv = value@;
        self.stack.set(index, value);
        assert(self@.stack =~= old(self)@.stack.update(index as int, vv));
    }

    fn op_constant(&mut self) -> (r: Result<Step, InterpretError>)
        ensures
            follows(constant(old(self)@), final(self)@, r),
    {
        let idx = match self.next_byte() {
            Err(k) => return Ok(Step::Fault(k)),
            Ok(None) => return Err(InterpretError::EndOfBytes),
            Ok(Some(b)) => b,
        };
        match self.module.constant(idx as usize) {
            Some(v) => {
                self.push(v);
                Ok(Step::Continue)
            },
            None => Err(InterpretError::ConstIdxOutOfBounds),
        }
    }

    fn int_op(&mut self, op: Opcode) -> (r: Result<Step, InterpretError>)
        requires
            op == Opcode::IAdd || op == Opcode::ISub || op == Opcode::IMul || op == Opcode::IDiv,
        ensures
            follows(int_arith(old(self)@, op), final(self)@, r),
    {
        let b = match self.pop() {
            None => return Err(InterpretError::StackEmpty),
            Some(v) => v,
        };
        let a = match self.pop() {
            None => return Err(InterpretError::StackEmpty),
            Some(v) => v,
        };
        match (a, b) {
            (Value::Int(x), Value::Int(y)) => match int_compute(op, x, y) {
                Ok(v) => {
                    self.push(Value::Int(v));
                    Ok(Step::Continue)
                },
                Err(k) => Ok(Step::Fault(k)),
            },
            _ => Ok(Step::Fault(Fault::TypeMismatch)),
        }
    }

    fn float_op(&mut self, op: Opcode) -> (r: Result<Step, InterpretError>)
        ensures
            follows(float_arith(old(self)@, op), final(self)@, r),
    {
        let b = match self.pop() {
            None => return Err(InterpretError::StackEmpty),
            Some(v) => v,
        };
        let a = match self.pop() {
            None => return Err(InterpretError::StackEmpty),
            Some(v) => v,
        };
        match (a, b) {
            (Value::Float(x), Value::Float(y)) => Ok(Step::Float(FloatRequest::Arith { op, a: x, b: y })),
            _ => Ok(Step::Fault(Fault::TypeMismatch)),
        }
    }

    fn op_int_to_float(&mut self) -> (r: Result<Step, InterpretError>)
        ensures
            follows(int_to_float(old(self)@), final(self)@, r),
    {
        match self.pop() {
            None => Err(InterpretError::StackEmpty),
            Some(Value::Int(v)) => Ok(Step::Float(FloatRequest::IntToFloat(v))),
            Some(_) => Ok(Step::Fault(Fault::TypeMismatch)),
        }
    }

    fn op_float_to_int(&mut self) -> (r: Result<Step, InterpretError>)
        ensures
            follows(float_to_int(old(self)@), final(self)@, r),
    {
        match self.pop() {
            None => Err(InterpretError::StackEmpty),
            Some(Value::Float(v)) => Ok(Step::Float(FloatRequest::FloatToInt(v))),
            Some(_) => Ok(Step::Fault(Fault::TypeMismatch)),
        }
    }

    fn op_invert(&mut self) -> (r: Result<Step, InterpretError>)
        ensures
            follows(invert(old(self)@), final(self)@, r),
    {
        match self.pop() {
            None => Err(InterpretError::StackEmpty),
            Some(Value::Int(v)) => {
                if v == i64::MIN {
                    Ok(Step::Fault(Fault::ArithmeticOverflow))
                } else {
                    self.push(Value::Int(-v));
                    Ok(Step::Continue)
                }
            },
            Some(Value::Float(bits)) => {
                self.push(Value::Float(bits ^ 0x8000_0000_0000_0000u64));
                Ok(Step::Continue)
            },
            Some(_) => Ok(Step::Fault(Fault::TypeMismatch)),
        }
    }

    fn op_and_or(&mut self, op: Opcode) -> (r: Result<Step, InterpretError>)
        ensures
            follows(and_or(old(self)@, op), final(self)@, r),
    {
        let y = match self.pop() {
            None => return Err(InterpretError::StackEmpty),
            Some(Value::Bool(y)) => y,
            Some(_) => return Ok(Step::Fault(Fault::TypeMismatch)),
        };
        let x = match self.pop() {
            None => return Err(InterpretError::StackEmpty),
            Some(Value::Bool(x)) => x,
            Some(_) => return Ok(Step::Fault(Fault::TypeMismatch)),
        };
        let res = if op == Opcode::And { x && y } else { x || y };
        self.push(Value::Bool(res));
        Ok(Step::Continue)
    }

    fn op_negate(&mut self) -> (r: Result<Step, InterpretError>)
        ensures
            follows(negate(old(self)@), final(self)@, r),
    {
        match self.pop() {
            None => Err(InterpretError::StackEmpty),
            Some(Value::Bool(b)) => {
                self.push(Value::Bool(!b));
                Ok(Step::Continue)
            },
            Some(_) => Ok(Step::Fault(Fault::TypeMismatch)),
        }
    }

    fn op_coalesce(&mut self) -> (r: Result<Step, InterpretError>)
        ensures
            follows(coalesce(old(self)@), final(self)@, r),
    {
        let fallback = match self.pop() {
            None => return Err(InterpretError::StackEmpty),
            Some(v) => v,
        };
        match self.pop() {
            None => Err(InterpretError::StackEmpty),
            Some(Value::Obj(Obj::OptionObj { value: Some(v) })) => {
                self.push(*v);
                Ok(Step::Continue)
            },
            Some(Value::Obj(Obj::OptionObj { value: None })) => {
                self.push(fallback);
                Ok(Step::Continue)
            },
            Some(_) => Ok(Step::Fault(Fault::TypeMismatch)),
        }
    }

    fn op_pop(&mut self) -> (r: Result<Step, InterpretError>)
        ensures
            follows(pop_op(old(self)@), final(self)@, r),
    {
        match self.pop() {
            None => Err(InterpretError::StackEmpty),
            Some(_) => Ok(Step::Continue),
        }
    }

    fn op_str_concat(&mut self) -> (r: Result<Step, InterpretError>)
        ensures
            follows(str_concat(old(self)@), final(self)@, r),
    {
        let b = match self.pop() {
            None => return Err(InterpretError::StackEmpty),
            Some(v) => v,
        };
        let a = match self.pop() {
            None => return Err(InterpretError::StackEmpty),
            Some(v) => v,
        };
        if contains_float(&a) || contains_float(&b) {
            return Ok(Step::Float(FloatRequest::Concat { a, b }));
        }
        let mut text = String::new();
        push_display(&mut text, &a);
        push_display(&mut text, &b);
        assert(text@ =~= display(a@) + display(b@));
        self.push(Value::Obj(Obj::StringObj { value: Box::new(text) }));
        Ok(Step::Continue)
    }

    fn comp_values(&mut self, op: Opcode) -> (r: Result<Step, InterpretError>)
        ensures
            follows(compare(old(self)@, op), final(self)@, r),
    {
        let b = match self.pop() {
            None => return Err(InterpretError::StackEmpty),
            Some(v) => v,
        };
        let a = match self.pop() {
            None => return Err(InterpretError::StackEmpty),
            Some(v) => v,
        };
        let ord = match (&a, &b) {
            (Value::Int(_), Value::Float(_)) => Order::Deferred,
            (Value::Float(_), Value::Float(_)) => Order::Deferred,
            (Value::Float(_), Value::Int(_)) => Order::Deferred,
            _ => compare_values(&a, &b),
        };
        assert(ord == operand_order(a@, b@));
        if ord == Order::Deferred {
            return Ok(Step::Float(FloatRequest::Compare { op, a, b }));
        }
        let res = match op {
            Opcode::LT => ord == Order::Less,
            Opcode::LTE => ord != Order::Greater,
            Opcode::GT => ord == Order::Greater,
            Opcode::GTE => ord != Order::Less,
            Opcode::Eq => ord == Order::Equal,
            _ => ord != Order::Equal,
        };
        self.push(Value::Bool(res));
        Ok(Step::Continue)
    }

    fn op_g_store(&mut self) -> (r: Result<Step, InterpretError>)
        ensures
            follows(g_store(old(self)@), final(self)@, r),
    {
        let name = match self.pop() {
            None => return Err(InterpretError::StackEmpty),
            Some(Value::Obj(Obj::StringObj { value })) => *value,
            Some(_) => return Ok(Step::Fault(Fault::TypeMismatch)),
        };
        let v = match self.pop() {
            None => return Err(InterpretError::StackEmpty),
            Some(v) => v,
        };
        self.globals.insert(name, v);
        Ok(Step::Continue)
    }

    fn op_g_load(&mut self) -> (r: Result<Step, InterpretError>)
        ensures
            follows(g_load(old(self)@), final(self)@, r),
    {
        let name = match self.pop() {
            None => return Err(InterpretError::StackEmpty),
            Some(Value::Obj(Obj::StringObj { value })) => *value,
            Some(_) => return Ok(Step::Fault(Fault::TypeMismatch)),
        };
        let v = match self.globals.get(&name) {
            Some(v) => v,
            None => Value::Nil,
        };
        self.push(v);
        Ok(Step::Continue)
    }

    /// The stack position of a local slot of the current frame.
    fn slot_position(&self, slot: usize) -> (r: Result<usize, Fault>)
        ensures
            match slot_position(self@, slot as int) {
                Ok(p) => r == Ok::<usize, Fault>(p as usize),
                Err(k) => r == Err::<usize, Fault>(k),
            },
    {
        let n = self.call_stack.len();
        if n == 0 {
            return Err(Fault::NoFrame);
        }
        assert(self@.call_stack.last() == self.call_stack@[n - 1]@);
        match slot.checked_add(self.call_stack[n - 1].stack_offset) {
            Some(p) => Ok(p),
            None => Err(Fault::ArithmeticOverflow),
        }
    }

    /// Pops the top value into a local slot; a slot past the stack is the
    /// fault `StackSlotOutOfBounds`.
    fn store(&mut self, slot: usize) -> (r: Result<Step, InterpretError>)
        ensures
            follows(store(old(self)@, slot as int), final(self)@, r),
    {
        let p = match self.slot_position(slot) {
            Err(k) => return Ok(Step::Fault(k)),
            Ok(p) => p,
        };
        let v = match self.pop() {
            None => return Err(InterpretError::StackEmpty),
            Some(v) => v,
        };
        if p < self.stack.len() {
            self.stack_insert_at(p, v);
            Ok(Step::Continue)
        } else {
            Ok(Step::Fault(Fault::StackSlotOutOfBounds))
        }
    }

    fn load(&mut self, slot: usize) -> (r: Result<Step, InterpretError>)
        ensures
            follows(load(old(self)@, slot as int), final(self)@, r),
    {
        let p = match self.slot_position(slot) {
            Err(k) => return Ok(Step::Fault(k)),
            Ok(p) => p,
        };
        let v = if p < self.stack.len() {
            copy_value(&self.stack[p])
        } else {
            Value::Nil
        };
        self.push(v);
        Ok(Step::Continue)
    }

    fn op_jump_by(&mut self, off: u8) -> (r: Result<Step, InterpretError>)
        requires
            old(self)@.call_stack.len() > 0,
        ensures
            follows(jump_by(old(self)@, off), final(self)@, r),
    {
        let n = self.call_stack.len();
        assert(self@.call_stack.last() == self.call_stack@[n - 1]@);
        match self.call_stack[n - 1].ip.checked_add(off as usize) {
            None => Ok(Step::Fault(Fault::ArithmeticOverflow)),
            Some(ip) => {
                self.set_ip(ip);
                Ok(Step::Continue)
            },
        }
    }

    fn op_jump_if_false(&mut self, off: u8) -> (r: Result<Step, InterpretError>)
        requires
            old(self)@.call_stack.len() > 0,
        ensures
            follows(jump_if_false(old(self)@, off), final(self)@, r),
    {
        match self.pop() {
            None => Err(InterpretError::StackEmpty),
            Some(Value::Bool(c)) => {
                if !c {
                    self.op_jump_by(off)
                } else {
                    Ok(Step::Continue)
                }
            },
            Some(_) => Ok(Step::Fault(Fault::TypeMismatch)),
        }
    }

    fn op_invoke(&mut self) -> (r: Result<Step, InterpretError>)
        ensures
            follows(invoke(old(self)@), final(self)@, r),
    {
        let name = match self.pop() {
            None => return Err(InterpretError::StackEmpty),
            Some(Value::Obj(Obj::StringObj { value })) => *value,
            Some(_) => return Ok(Step::Fault(Fault::TypeMismatch)),
        };
        let arity = match self.next_byte() {
            Err(k) => return Ok(Step::Fault(k)),
            Ok(None) => return Err(InterpretError::EndOfBytes),
            Ok(Some(b)) => b,
        };
        let len = self.stack.len();
        if (arity as usize) > len {
            return Ok(Step::Fault(Fault::ArithmeticOverflow));
        }
        let frame = CallFrame { ip: 0, chunk_name: name, stack_offset: len - arity as usize };
        let ghost fv = frame@;
        let ghost cs = self@.call_stack;
        self.call_stack.push(frame);
        assert(self@.call_stack =~= cs.push(fv));
        Ok(Step::Continue)
    }

    fn op_return(&mut self) -> (r: Result<Step, InterpretError>)
        ensures
            follows(ret(old(self)@), final(self)@, r),
    {
        let n = self.call_stack.len();
        if n == 0 {
            return Ok(Step::Fault(Fault::NoFrame));
        }
        assert(self@.call_stack.last() == self.call_stack@[n - 1]@);
        if self.call_stack[n - 1].chunk_name == main_chunk_name() {
            let top = self.pop();
            Ok(Step::Done(top))
        } else {
            self.call_stack.pop();
            assert(self@.call_stack =~= old(self)@.call_stack.drop_last());
            Ok(Step::Continue)
        }
    }

    fn op_arr_mk(&mut self) -> (r: Result<Step, InterpretError>)
        ensures
            follows(arr_mk(old(self)@), final(self)@, r),
    {
        let n = match self.pop() {
            None => return Err(InterpretError::StackEmpty),
            Some(Value::Int(n)) => n,
            Some(_) => return Ok(Step::Fault(Fault::TypeMismatch)),
        };
        if n < 0 {
            return Ok(Step::Fault(Fault::CapacityOverflow));
        }
        let len = self.stack.len();
        if (len as i128) < (n as i128) {
            self.stack.clear();
            assert(self@.stack =~= Seq::<ValueV>::empty());
            return Err(InterpretError::StackEmpty);
        }
        let k = len - (n as usize);
        let ghost before = self@.stack;
        let mut tail = self.stack.split_off(k);
        assert(self@.stack =~= before.subrange(0, k as int));
        let ghost tail0 = tail@.map_values(|v: Value| v@);
        assert(tail0 =~= before.subrange(k as int, len as int));
        let mut items: Vec<Box<Value>> = Vec::new();
        let ghost total = tail@.len();
        while tail.len() > 0
            invariant
                total == tail0.len(),
                items_view(items@) + tail@.map_values(|v: Value| v@) =~= tail0,
            decreases tail@.len(),
        {
            let ghost t = tail@;
            let v = tail.remove(0);
            proof {
                lemma_items_view_push(items@, Box::new(v));
                assert(t.map_values(|x: Value| x@) =~= seq![v@] + tail@.map_values(|x: Value| x@));
            }
            items.push(Box::new(v));
        }
        assert(items_view(items@) =~= tail0);
        self.push(Value::Obj(Obj::ArrayObj { value: items }));
        Ok(Step::Continue)
    }

    fn op_arr_load(&mut self) -> (r: Result<Step, InterpretError>)
        ensures
            follows(arr_load(old(self)@), final(self)@, r),
    {
        let i = match self.pop() {
            None => return Err(InterpretError::StackEmpty),
            Some(Value::Int(i)) => i,
            Some(_) => return Ok(Step::Fault(Fault::TypeMismatch)),
        };
        let target = match self.pop() {
            None => return Err(InterpretError::StackEmpty),
            Some(v) => v,
        };
        let found: Option<Box<Value>> = match target {
            Value::Obj(Obj::StringObj { value }) => {
                let cs = value.as_str();
                let len = #[verifier::truncate] (cs.len() as i64);
                assert(len == byte_len(value@));
                let j: i64 = if i < 0 {
                    match i.checked_add(len) {
                        Some(j) => j,
                        None => return Ok(Step::Fault(Fault::ArithmeticOverflow)),
                    }
                } else {
                    i
                };
                let pos = #[verifier::truncate] (j as usize);
                if pos < cs.unicode_len() {
                    let c = cs.get_char(pos);
                    let mut one = String::new();
                    push_char(&mut one, c);
                    assert(one@ =~= seq![c]);
                    assert(str_item(value@, i) == Ok::<Option<ValueV>, Fault>(Some(ValueV::Str(seq![c]))));
                    Some(Box::new(Value::Obj(Obj::StringObj { value: Box::new(one) })))
                } else {
                    assert(str_item(value@, i) == Ok::<Option<ValueV>, Fault>(None));
                    None
                }
            },
            Value::Obj(Obj::ArrayObj { value }) => {
                proof {
                    lemma_items_view(value@);
                }
                let len = #[verifier::truncate] (value.len() as i64);
                if len == i64::MIN {
                    return Ok(Step::Fault(Fault::ArithmeticOverflow));
                }
                let ghost items = items_view(value@);
                assert(len == items.len() as i64);
                if i < -len || i >= len {
                    assert(arr_item(items, i) == Ok::<Option<ValueV>, Fault>(None));
                    None
                } else {
                    let j = if i < 0 { i + len } else { i };
                    let item = copy_value(&*value[j as usize]);
                    assert(arr_item(items, i) == Ok::<Option<ValueV>, Fault>(Some(item@)));
                    Some(Box::new(item))
                }
            },
            _ => return Ok(Step::Fault(Fault::TypeMismatch)),
        };
        let pushed = Value::Obj(Obj::OptionObj { value: found });
        assert(pushed@ == ValueV::Opt(opt_box(opt_view(found_inner(found)))));
        self.push(pushed);
        Ok(Step::Continue)
    }

    fn op_arr_slc(&mut self) -> (r: Result<Step, InterpretError>)
        ensures
            follows(arr_slc(old(self)@), final(self)@, r),
    {
        let end = match self.pop() {
            None => return Err(InterpretError::StackEmpty),
            Some(v) => v,
        };
        let start = match self.pop() {
            None => return Err(InterpretError::StackEmpty),
            Some(Value::Int(s)) => s,
            Some(_) => return Ok(Step::Fault(Fault::TypeMismatch)),
        };
        let target = match self.pop() {
            None => return Err(InterpretError::StackEmpty),
            Some(v) => v,
        };
        let sliced = match target {
            Value::Obj(Obj::StringObj { value }) => {
                let cs = value.as_str();
                let blen = #[verifier::truncate] (cs.len() as i64);
                assert(blen == byte_len(value@));
                let (a, b) = match bounds(blen, start, &end) {
                    Err(k) => return Ok(Step::Fault(k)),
                    Ok(ab) => ab,
                };
                let n = cs.unicode_len();
                let a2 = if a < n { a } else { n };
                let b2 = if b < n { b } else { n };
                let part = cs.substring_char(a2, b2);
                let out = String::from_str(part);
                Value::Obj(Obj::StringObj { value: Box::new(out) })
            },
            Value::Obj(Obj::ArrayObj { value }) => {
                proof {
                    lemma_items_view(value@);
                }
                let (a, b) = match bounds(#[verifier::truncate] (value.len() as i64), start, &end) {
                    Err(k) => return Ok(Step::Fault(k)),
                    Ok(ab) => ab,
                };
                let n = value.len();
                let a2 = if a < n { a } else { n };
                let b2 = if b < n { b } else { n };
                let mut out: Vec<Box<Value>> = Vec::new();
                let mut i = a2;
                while i < b2
                    invariant
                        a2 <= i <= b2 <= n,
                        n == value@.len(),
                        items_view(value@).len() == n,
                        forall|j: int| 0 <= j < n ==> #[trigger] items_view(value@)[j] == value_view(*value@[j]),
                        items_view(out@) =~= items_view(value@).subrange(a2 as int, i as int),
                    decreases b2 - i,
                {
                    let item = copy_value(&*value[i]);
                    proof {
                        lemma_items_view_push(out@, Box::new(item));
                    }
                    out.push(Box::new(item));
                    i = i + 1;
                }
                Value::Obj(Obj::ArrayObj { value: out })
            },
            _ => return Ok(Step::Fault(Fault::TypeMismatch)),
        };
        self.push(sliced);
        Ok(Step::Continue)
    }
}

spec fn found_inner(f: Option<Box<Value>>) -> Option<Value> {
    match f {
        Some(b) => Some(*b),
        None => None,
    }
}

/// An index counted from the end when negative, made absolute.
fn from_end_exec(i: i64, len: i64) -> (r: Result<i64, Fault>)
    ensures
        r == from_end(i, len),
{
    if i < 0 {
        match i.checked_add(len) {
            Some(j) => Ok(j),
            None => Err(Fault::ArithmeticOverflow),
        }
    } else {
        Ok(i)
    }
}

/// The start and end of a slice, as [`slice_bounds`] gives them.
fn bounds(len: i64, start: i64, end: &Value) -> (r: Result<(usize, usize), Fault>)
    ensures
        r == slice_bounds(len, start, end@),
{
    let st = match from_end_exec(start, len) {
        Err(k) => return Err(k),
        Ok(st) => st,
    };
    let e = match end {
        Value::Int(e) => *e,
        Value::Nil => len,
        _ => return Err(Fault::TypeMismatch),
    };
    let en = match from_end_exec(e, len) {
        Err(k) => return Err(k),
        Ok(en) => en,
    };
    if (en as usize) < (st as usize) {
        Err(Fault::ArithmeticOverflow)
    } else {
        Ok((st as usize, en as usize))
    }
}

proof fn lemma_trunc_div(x: int, y: int)
    requires
        y != 0,
    ensures
        x == 0 ==> trunc_div(x, y) == 0,
        x > 0 && y > 0 ==> trunc_div(x, y) == x / y,
        x < 0 && y < 0 ==> trunc_div(x, y) == (x * -1) / (y * -1),
        x < 0 && y > 0 ==> trunc_div(x, y) == ((x * -1) / y) * -1,
        x > 0 && y < 0 ==> trunc_div(x, y) == (x / (y * -1)) * -1,
{
    if x == 0 {
        let d = if y < 0 { -y } else { y };
        assert(0int / d == 0) by (nonlinear_arith) requires d > 0;
    }
}

/// An integer instruction (`IAdd`, `ISub`, `IMul` or `IDiv`) on two integers.
fn int_compute(op: Opcode, x: i64, y: i64) -> (r: Result<i64, Fault>)
    requires
        op == Opcode::IAdd || op == Opcode::ISub || op == Opcode::IMul || op == Opcode::IDiv,
    ensures
        match int_result(op, x as int, y as int) {
            Ok(v) => r == Ok::<i64, Fault>(v as i64),
            Err(k) => r == Err::<i64, Fault>(k),
        },
{
    match op {
        Opcode::IAdd => match x.checked_add(y) {
            Some(v) => Ok(v),
            None => Err(Fault::ArithmeticOverflow),
        },
        Opcode::ISub => match x.checked_sub(y) {
            Some(v) => Ok(v),
            None => Err(Fault::ArithmeticOverflow),
        },
        Opcode::IMul => match x.checked_mul(y) {
            Some(v) => Ok(v),
            None => Err(Fault::ArithmeticOverflow),
        },
        _ => {
            if y == 0 {
                Err(Fault::DivisionByZero)
            } else {
                proof {
                    lemma_trunc_div(x as int, y as int);
                }
                match x.checked_div(y) {
                    Some(v) => Ok(v),
                    None => Err(Fault::ArithmeticOverflow),
                }
            }
        },
    }
}

impl VM {
    /// Reads the immediate byte that follows an instruction.
    fn read_imm(&mut self) -> (r: Result<u8, Result<Step, InterpretError>>)
        ensures
            match fetch(old(self)@) {
                Fetch::Fault(k) => r == Err::<u8, Result<Step, InterpretError>>(Ok(Step::Fault(k))),
                Fetch::End => r == Err::<u8, Result<Step, InterpretError>>(Err(InterpretError::EndOfBytes)) && final(self)@ == old(self)@,
                Fetch::Byte(s1, b) => r == Ok::<u8, Result<Step, InterpretError>>(b) && final(self)@ == s1,
            },
    {
        match self.next_byte() {
            Err(k) => Err(Ok(Step::Fault(k))),
            Ok(None) => Err(Err(InterpretError::EndOfBytes)),
            Ok(Some(b)) => Ok(b),
        }
    }

    fn exec_op(&mut self, op: Opcode) -> (r: Result<Step, InterpretError>)
        ensures
            follows(exec_op(old(self)@, op), final(self)@, r),
    {
        match op {
            Opcode::Constant => self.op_constant(),
            Opcode::Nil => {
                self.push(Value::Nil);
                Ok(Step::Continue)
            },
            Opcode::IConst0 => {
                self.push(Value::Int(0));
                Ok(Step::Continue)
            },
            Opcode::IConst1 => {
                self.push(Value::Int(1));
                Ok(Step::Continue)
            },
            Opcode::IConst2 => {
                self.push(Value::Int(2));
                Ok(Step::Continue)
            },
            Opcode::IConst3 => {
                self.push(Value::Int(3));
                Ok(Step::Continue)
            },
            Opcode::IConst4 => {
                self.push(Value::Int(4));
                Ok(Step::Continue)
            },
            Opcode::IAdd | Opcode::ISub | Opcode::IMul | Opcode::IDiv => self.int_op(op),
            Opcode::FAdd | Opcode::FSub | Opcode::FMul | Opcode::FDiv => self.float_op(op),
            Opcode::I2F => self.op_int_to_float(),
            Opcode::F2I => self.op_float_to_int(),
            Opcode::Invert => self.op_invert(),
            Opcode::StrConcat => self.op_str_concat(),
            Opcode::T => {
                self.push(Value::Bool(true));
                Ok(Step::Continue)
            },
            Opcode::F => {
                self.push(Value::Bool(false));
                Ok(Step::Continue)
            },
            Opcode::And | Opcode::Or => self.op_and_or(op),
            Opcode::Negate => self.op_negate(),
            Opcode::Coalesce => self.op_coalesce(),
            Opcode::LT | Opcode::LTE | Opcode::GT | Opcode::GTE | Opcode::Eq | Opcode::Neq => self.comp_values(op),
            Opcode::ArrMk => self.op_arr_mk(),
            Opcode::ArrLoad => self.op_arr_load(),
            Opcode::ArrSlc => self.op_arr_slc(),
            Opcode::GStore => self.op_g_store(),
            Opcode::LStore0 => self.store(0),
            Opcode::LStore1 => self.store(1),
            Opcode::LStore2 => self.store(2),
            Opcode::LStore3 => self.store(3),
            Opcode::LStore4 => self.store(4),
            Opcode::LStore => match self.read_imm() {
                Err(r) => r,
                Ok(b) => self.store(b as usize),
            },
            Opcode::GLoad => self.op_g_load(),
            Opcode::LLoad0 => self.load(0),
            Opcode::LLoad1 => self.load(1),
            Opcode::LLoad2 => self.load(2),
            Opcode::LLoad3 => self.load(3),
            Opcode::LLoad4 => self.load(4),
            Opcode::LLoad => match self.read_imm() {
                Err(r) => r,
                Ok(b) => self.load(b as usize),
            },
            Opcode::Jump => match self.read_imm() {
                Err(r) => r,
                Ok(b) => self.op_jump_by(b),
            },
            Opcode::JumpIfF => match self.read_imm() {
                Err(r) => r,
                Ok(b) => self.op_jump_if_false(b),
            },
            Opcode::Invoke => self.op_invoke(),
            Opcode::Pop => self.op_pop(),
            Opcode::Return => self.op_return(),
            _ => Ok(Step::Fault(Fault::Unimplemented(op))),
        }
    }

    /// Runs one instruction of the current chunk: reads its byte (and any
    /// immediate bytes) and does what [`semantics::step`](crate::semantics::step)
    /// says. A fault leaves the machine in no stated state.
    pub fn step(&mut self) -> (r: Result<Step, InterpretError>)
        ensures
            follows(step(old(self)@), final(self)@, r),
    {
        let b = match self.next_byte() {
            Err(k) => return Ok(Step::Fault(k)),
            Ok(None) => return Err(InterpretError::EndOfBytes),
            Ok(Some(b)) => b,
        };
        if b > MAX_OPCODE_BYTE {
            Ok(Step::Fault(Fault::InvalidOpcode(b)))
        } else {
            self.exec_op(Opcode::from_byte(b))
        }
    }

    /// Runs up to `fuel` instructions, stopping at the first that does not
    /// yield [`Step::Continue`] and returning what it yielded;
    /// `Step::Continue` when all of them did.
    pub fn run(&mut self, fuel: u64) -> (r: Result<Step, InterpretError>)
        ensures
            follows(run(old(self)@, fuel as nat), final(self)@, r),
    {
        let mut left = fuel;
        while left > 0
            invariant
                run(old(self)@, fuel as nat) == run(self@, left as nat),
            decreases left,
        {
            let r = self.step();
            match r {
                Ok(Step::Continue) => {},
                _ => return r,
            }
            left = left - 1;
        }
        Ok(Step::Continue)
    }

    /// Pushes the result of the float work that the last step handed out.
    pub fn resume(&mut self, result: Value)
        ensures
            final(self)@ == push(old(self)@, result@),
    {
        self.push(result);
    }
}


/// The chunks of a machine's module are as long as memory allows, so the
/// length law of [`lemma_instruction_length`](crate::laws::lemma_instruction_length)
/// applies to every machine.
pub proof fn lemma_code_fits(vm: &VM)
    ensures
        code_fits(vm@.module),
{
    assert forall|i: int| 0 <= i < vm@.module.chunks.len() implies #[trigger] vm@.module.chunks[i].1.len() <= usize::MAX by {
        let c = vm.module.chunks@[i];
        assert(vm@.module.chunks[i] == c@);
        assert(c.code@.len() == c.code.len());
    }
}

} // verus!
