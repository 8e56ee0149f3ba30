use abra_core::module::{Chunk, CompiledModule};
use abra_core::opcode::Opcode;
use abra_core::runner::{TestRunner, TestType};
use abra_core::value::{Obj, Value};
use abra_core::vm::{Fault, FloatRequest, InterpretError, Step, VM};

fn s(text: &str) -> Value {
    Value::Obj(Obj::StringObj { value: Box::new(text.to_string()) })
}

fn arr(items: Vec<Value>) -> Value {
    Value::Obj(Obj::ArrayObj { value: items.into_iter().map(Box::new).collect() })
}

fn some(v: Value) -> Value {
    Value::Obj(Obj::OptionObj { value: Some(Box::new(v)) })
}

fn none() -> Value {
    Value::Obj(Obj::OptionObj { value: None })
}

fn op(o: Opcode) -> u8 {
    o as u8
}

fn module(code: Vec<u8>, constants: Vec<Value>) -> CompiledModule {
    CompiledModule { chunks: vec![Chunk { name: "main".to_string(), code }], constants }
}

fn run_code(code: Vec<u8>, constants: Vec<Value>) -> Result<Step, InterpretError> {
    let mut vm = VM::new(module(code, constants));
    vm.run(10_000)
}

fn done(v: Value) -> Result<Step, InterpretError> {
    Ok(Step::Done(Some(v)))
}

#[test]
fn opcode_bytes_round_trip() {
    for b in 0u8..=74 {
        let o = Opcode::from_byte(b);
        assert_eq!(o as u8, b);
    }
    assert_eq!(Opcode::from_byte(0), Opcode::Constant);
    assert_eq!(Opcode::from_byte(7), Opcode::IAdd);
    assert_eq!(Opcode::from_byte(74), Opcode::Return);
}

#[test]
fn expected_immediates() {
    assert_eq!(Opcode::Constant.num_expected_imms(), 1);
    assert_eq!(Opcode::Jump.num_expected_imms(), 1);
    assert_eq!(Opcode::JumpB.num_expected_imms(), 1);
    assert_eq!(Opcode::ArrMk.num_expected_imms(), 1);
    assert_eq!(Opcode::PopN.num_expected_imms(), 1);
    assert_eq!(Opcode::ULoad.num_expected_imms(), 1);
    assert_eq!(Opcode::Invoke.num_expected_imms(), 2);
    assert_eq!(Opcode::IAdd.num_expected_imms(), 0);
    assert_eq!(Opcode::Return.num_expected_imms(), 0);
    assert_eq!(Opcode::LLoad0.num_expected_imms(), 0);
}

#[test]
fn integer_arithmetic() {
    let r = run_code(vec![op(Opcode::IConst2), op(Opcode::IConst3), op(Opcode::IAdd), op(Opcode::Return)], vec![]);
    assert_eq!(r, done(Value::Int(5)));
    let r = run_code(vec![op(Opcode::IConst2), op(Opcode::IConst3), op(Opcode::ISub), op(Opcode::Return)], vec![]);
    assert_eq!(r, done(Value::Int(-1)));
    let r = run_code(vec![op(Opcode::IConst3), op(Opcode::IConst4), op(Opcode::IMul), op(Opcode::Return)], vec![]);
    assert_eq!(r, done(Value::Int(12)));
}

#[test]
fn integer_division_rounds_toward_zero() {
    let code = vec![op(Opcode::Constant), 0, op(Opcode::IConst2), op(Opcode::IDiv), op(Opcode::Return)];
    assert_eq!(run_code(code.clone(), vec![Value::Int(-7)]), done(Value::Int(-3)));
    assert_eq!(run_code(code, vec![Value::Int(7)]), done(Value::Int(3)));
}

#[test]
fn integer_faults() {
    let div0 = vec![op(Opcode::IConst1), op(Opcode::IConst0), op(Opcode::IDiv), op(Opcode::Return)];
    assert_eq!(run_code(div0, vec![]), Ok(Step::Fault(Fault::DivisionByZero)));
    let overflow = vec![op(Opcode::Constant), 0, op(Opcode::IConst1), op(Opcode::IAdd), op(Opcode::Return)];
    assert_eq!(run_code(overflow, vec![Value::Int(i64::MAX)]), Ok(Step::Fault(Fault::ArithmeticOverflow)));
    let min_div = vec![op(Opcode::Constant), 0, op(Opcode::Constant), 1, op(Opcode::IDiv), op(Opcode::Return)];
    assert_eq!(
        run_code(min_div, vec![Value::Int(i64::MIN), Value::Int(-1)]),
        Ok(Step::Fault(Fault::ArithmeticOverflow))
    );
    let mismatch = vec![op(Opcode::T), op(Opcode::IConst1), op(Opcode::IAdd), op(Opcode::Return)];
    assert_eq!(run_code(mismatch, vec![]), Ok(Step::Fault(Fault::TypeMismatch)));
}

#[test]
fn constants_and_their_errors() {
    let r = run_code(vec![op(Opcode::Constant), 1, op(Opcode::Return)], vec![Value::Int(1), s("hi")]);
    assert_eq!(r, done(s("hi")));
    let r = run_code(vec![op(Opcode::Constant), 2, op(Opcode::Return)], vec![Value::Int(1)]);
    assert_eq!(r, Err(InterpretError::ConstIdxOutOfBounds));
    let r = run_code(vec![op(Opcode::Constant)], vec![Value::Int(1)]);
    assert_eq!(r, Err(InterpretError::EndOfBytes));
}

#[test]
fn end_of_bytes_and_empty_stack() {
    assert_eq!(run_code(vec![op(Opcode::IConst1)], vec![]), Err(InterpretError::EndOfBytes));
    assert_eq!(run_code(vec![op(Opcode::Pop)], vec![]), Err(InterpretError::StackEmpty));
    assert_eq!(run_code(vec![op(Opcode::IConst1), op(Opcode::IAdd)], vec![]), Err(InterpretError::StackEmpty));
}

#[test]
fn return_from_main_with_empty_stack() {
    assert_eq!(run_code(vec![op(Opcode::Return)], vec![]), Ok(Step::Done(None)));
}

#[test]
fn bad_bytes_and_missing_chunks() {
    assert_eq!(run_code(vec![200], vec![]), Ok(Step::Fault(Fault::InvalidOpcode(200))));
    assert_eq!(run_code(vec![op(Opcode::IMod)], vec![]), Ok(Step::Fault(Fault::Unimplemented(Opcode::IMod))));
    let m = CompiledModule { chunks: vec![Chunk { name: "other".to_string(), code: vec![] }], constants: vec![] };
    assert_eq!(VM::new(m).run(5), Ok(Step::Fault(Fault::NoSuchChunk)));
}

#[test]
fn jump_past_end_of_code() {
    let code = vec![op(Opcode::Jump), 10, op(Opcode::Return)];
    assert_eq!(run_code(code, vec![]), Ok(Step::Fault(Fault::CodeOutOfBounds)));
}

#[test]
fn float_work_is_handed_out_and_resumed() {
    let one = 1.5f64.to_bits();
    let two = 2.25f64.to_bits();
    let mut vm = VM::new(module(
        vec![op(Opcode::Constant), 0, op(Opcode::Constant), 1, op(Opcode::FAdd), op(Opcode::Return)],
        vec![Value::Float(one), Value::Float(two)],
    ));
    assert_eq!(vm.run(100), Ok(Step::Float(FloatRequest::Arith { op: Opcode::FAdd, a: one, b: two })));
    vm.resume(Value::Float(3.75f64.to_bits()));
    assert_eq!(vm.run(100), done(Value::Float(3.75f64.to_bits())));
}

#[test]
fn int_float_conversions_are_handed_out() {
    let r = run_code(vec![op(Opcode::IConst3), op(Opcode::I2F), op(Opcode::Return)], vec![]);
    assert_eq!(r, Ok(Step::Float(FloatRequest::IntToFloat(3))));
    let bits = 2.5f64.to_bits();
    let r = run_code(vec![op(Opcode::Constant), 0, op(Opcode::F2I), op(Opcode::Return)], vec![Value::Float(bits)]);
    assert_eq!(r, Ok(Step::Float(FloatRequest::FloatToInt(bits))));
}

#[test]
fn invert_numbers() {
    let r = run_code(vec![op(Opcode::IConst3), op(Opcode::Invert), op(Opcode::Return)], vec![]);
    assert_eq!(r, done(Value::Int(-3)));
    let bits = 2.5f64.to_bits();
    let r = run_code(vec![op(Opcode::Constant), 0, op(Opcode::Invert), op(Opcode::Return)], vec![Value::Float(bits)]);
    assert_eq!(r, done(Value::Float((-2.5f64).to_bits())));
    let r = run_code(vec![op(Opcode::Constant), 0, op(Opcode::Invert), op(Opcode::Return)], vec![Value::Int(i64::MIN)]);
    assert_eq!(r, Ok(Step::Fault(Fault::ArithmeticOverflow)));
}

#[test]
fn invert_twice_gives_back_the_value() {
    let code = vec![op(Opcode::Constant), 0, op(Opcode::Invert), op(Opcode::Invert), op(Opcode::Return)];
    assert_eq!(run_code(code.clone(), vec![Value::Int(42)]), done(Value::Int(42)));
    let bits = (-0.0f64).to_bits();
    assert_eq!(run_code(code, vec![Value::Float(bits)]), done(Value::Float(bits)));
}

#[test]
fn string_concatenation() {
    let code = vec![op(Opcode::Constant), 0, op(Opcode::Constant), 1, op(Opcode::StrConcat), op(Opcode::Return)];
    assert_eq!(run_code(code.clone(), vec![s("ab"), Value::Int(-12)]), done(s("ab-12")));
    assert_eq!(run_code(code.clone(), vec![Value::Bool(true), Value::Nil]), done(s("trueNone")));
    let a = arr(vec![Value::Int(1), Value::Bool(false), none(), s("x")]);
    assert_eq!(run_code(code.clone(), vec![a, some(Value::Int(7))]), done(s("[1, false, None, x]7")));
    let f = Value::Float(1.0f64.to_bits());
    assert_eq!(
        run_code(code, vec![s("a"), f.clone()]),
        Ok(Step::Float(FloatRequest::Concat { a: s("a"), b: f }))
    );
}

#[test]
fn booleans() {
    let r = run_code(vec![op(Opcode::T), op(Opcode::F), op(Opcode::And), op(Opcode::Return)], vec![]);
    assert_eq!(r, done(Value::Bool(false)));
    let r = run_code(vec![op(Opcode::T), op(Opcode::F), op(Opcode::Or), op(Opcode::Return)], vec![]);
    assert_eq!(r, done(Value::Bool(true)));
    let r = run_code(vec![op(Opcode::F), op(Opcode::Negate), op(Opcode::Return)], vec![]);
    assert_eq!(r, done(Value::Bool(true)));
    let r = run_code(vec![op(Opcode::IConst1), op(Opcode::Negate), op(Opcode::Return)], vec![]);
    assert_eq!(r, Ok(Step::Fault(Fault::TypeMismatch)));
}

#[test]
fn coalesce_options() {
    let code = vec![op(Opcode::Constant), 0, op(Opcode::IConst4), op(Opcode::Coalesce), op(Opcode::Return)];
    assert_eq!(run_code(code.clone(), vec![some(Value::Int(9))]), done(Value::Int(9)));
    assert_eq!(run_code(code, vec![none()]), done(Value::Int(4)));
}

fn compare(o: Opcode, a: Value, b: Value) -> Result<Step, InterpretError> {
    run_code(vec![op(Opcode::Constant), 0, op(Opcode::Constant), 1, op(o), op(Opcode::Return)], vec![a, b])
}

#[test]
fn comparisons() {
    assert_eq!(compare(Opcode::LT, Value::Int(1), Value::Int(2)), done(Value::Bool(true)));
    assert_eq!(compare(Opcode::GTE, Value::Int(1), Value::Int(2)), done(Value::Bool(false)));
    assert_eq!(compare(Opcode::LTE, Value::Int(2), Value::Int(2)), done(Value::Bool(true)));
    assert_eq!(compare(Opcode::GT, s("b"), s("ab")), done(Value::Bool(true)));
    assert_eq!(compare(Opcode::Eq, s("ab"), s("ab")), done(Value::Bool(true)));
    assert_eq!(compare(Opcode::Neq, s("ab"), s("ab")), done(Value::Bool(false)));
    let a = arr(vec![Value::Int(1), Value::Int(2)]);
    let b = arr(vec![Value::Int(1), Value::Int(3)]);
    assert_eq!(compare(Opcode::LT, a.clone(), b), done(Value::Bool(true)));
    assert_eq!(compare(Opcode::LT, arr(vec![Value::Int(1)]), a), done(Value::Bool(true)));
    // Values of different kinds are ordered by kind: integers before booleans.
    assert_eq!(compare(Opcode::LT, Value::Int(5), Value::Bool(false)), done(Value::Bool(true)));
    assert_eq!(compare(Opcode::LT, none(), some(Value::Int(0))), done(Value::Bool(true)));
    assert_eq!(compare(Opcode::Eq, Value::Nil, Value::Nil), done(Value::Bool(true)));
}

#[test]
fn comparisons_come_in_complementary_pairs() {
    for (a, b) in [(1, 2), (2, 2), (3, 2)] {
        let lt = compare(Opcode::LT, Value::Int(a), Value::Int(b));
        let gte = compare(Opcode::GTE, Value::Int(a), Value::Int(b));
        let gt_swapped = compare(Opcode::GT, Value::Int(b), Value::Int(a));
        match (lt, gte, gt_swapped) {
            (Ok(Step::Done(Some(Value::Bool(x)))), Ok(Step::Done(Some(Value::Bool(y)))), Ok(Step::Done(Some(Value::Bool(z))))) => {
                assert_eq!(x, !y);
                assert_eq!(x, z);
            }
            other => panic!("unexpected {:?}", other),
        }
    }
}

#[test]
fn float_comparisons_are_handed_out() {
    let f = Value::Float(1.0f64.to_bits());
    assert_eq!(
        compare(Opcode::LT, Value::Int(1), f.clone()),
        Ok(Step::Float(FloatRequest::Compare { op: Opcode::LT, a: Value::Int(1), b: f.clone() }))
    );
    let a = arr(vec![f.clone()]);
    assert_eq!(
        compare(Opcode::Eq, a.clone(), a.clone()),
        Ok(Step::Float(FloatRequest::Compare { op: Opcode::Eq, a: a.clone(), b: a }))
    );
    // Integer against float inside arrays is decided by kind.
    let r = compare(Opcode::LT, arr(vec![Value::Int(9)]), arr(vec![f]));
    assert_eq!(r, done(Value::Bool(true)));
}

#[test]
fn arrays_are_built_in_order() {
    let code = vec![
        op(Opcode::IConst1), op(Opcode::IConst2), op(Opcode::IConst3), op(Opcode::IConst3), op(Opcode::ArrMk), op(Opcode::Return),
    ];
    assert_eq!(run_code(code, vec![]), done(arr(vec![Value::Int(1), Value::Int(2), Value::Int(3)])));
    let short = vec![op(Opcode::IConst1), op(Opcode::IConst3), op(Opcode::ArrMk), op(Opcode::Return)];
    assert_eq!(run_code(short, vec![]), Err(InterpretError::StackEmpty));
    let negative = vec![op(Opcode::Constant), 0, op(Opcode::ArrMk), op(Opcode::Return)];
    assert_eq!(run_code(negative, vec![Value::Int(-1)]), Ok(Step::Fault(Fault::CapacityOverflow)));
}

fn load(target: Value, idx: i64) -> Result<Step, InterpretError> {
    run_code(vec![op(Opcode::Constant), 0, op(Opcode::Constant), 1, op(Opcode::ArrLoad), op(Opcode::Return)], vec![target, Value::Int(idx)])
}

#[test]
fn array_loads() {
    let a = arr(vec![Value::Int(10), Value::Int(20), Value::Int(30)]);
    assert_eq!(load(a.clone(), 0), done(some(Value::Int(10))));
    assert_eq!(load(a.clone(), -1), done(some(Value::Int(30))));
    assert_eq!(load(a.clone(), -3), done(some(Value::Int(10))));
    assert_eq!(load(a.clone(), 3), done(none()));
    assert_eq!(load(a, -4), done(none()));
    assert_eq!(load(Value::Int(1), 0), Ok(Step::Fault(Fault::TypeMismatch)));
}

#[test]
fn string_loads_count_from_the_end_by_bytes() {
    assert_eq!(load(s("abc"), 1), done(some(s("b"))));
    assert_eq!(load(s("abc"), -1), done(some(s("c"))));
    assert_eq!(load(s("abc"), 3), done(none()));
    assert_eq!(load(s("abc"), -4), done(none()));
    // "héllo" has five characters in six bytes: -1 counts from the byte length.
    assert_eq!(load(s("héllo"), -1), done(none()));
    assert_eq!(load(s("héllo"), 1), done(some(s("é"))));
}

fn slice(target: Value, start: i64, end: Value) -> Result<Step, InterpretError> {
    run_code(
        vec![op(Opcode::Constant), 0, op(Opcode::Constant), 1, op(Opcode::Constant), 2, op(Opcode::ArrSlc), op(Opcode::Return)],
        vec![target, Value::Int(start), end],
    )
}

#[test]
fn slices() {
    let a = arr(vec![Value::Int(1), Value::Int(2), Value::Int(3), Value::Int(4)]);
    assert_eq!(slice(a.clone(), 1, Value::Int(3)), done(arr(vec![Value::Int(2), Value::Int(3)])));
    assert_eq!(slice(a.clone(), -2, Value::Nil), done(arr(vec![Value::Int(3), Value::Int(4)])));
    assert_eq!(slice(a.clone(), 2, Value::Int(10)), done(arr(vec![Value::Int(3), Value::Int(4)])));
    assert_eq!(slice(a.clone(), 3, Value::Int(1)), Ok(Step::Fault(Fault::ArithmeticOverflow)));
    assert_eq!(slice(a.clone(), 0, Value::Bool(true)), Ok(Step::Fault(Fault::TypeMismatch)));
    assert_eq!(slice(s("hello"), 1, Value::Int(-1)), done(s("ell")));
    assert_eq!(slice(s("hello"), 0, Value::Nil), done(s("hello")));
}

#[test]
fn full_slice_is_the_whole_array() {
    let a = arr(vec![s("x"), Value::Int(2), none()]);
    assert_eq!(slice(a.clone(), 0, Value::Nil), done(a));
}

#[test]
fn globals_store_and_load() {
    let code = vec![
        op(Opcode::IConst4), op(Opcode::Constant), 0, op(Opcode::GStore),
        op(Opcode::IConst2), op(Opcode::Constant), 1, op(Opcode::GStore),
        op(Opcode::Constant), 0, op(Opcode::GLoad),
        op(Opcode::Constant), 1, op(Opcode::GLoad), op(Opcode::IAdd),
        op(Opcode::Return),
    ];
    assert_eq!(run_code(code, vec![s("x"), s("y")]), done(Value::Int(6)));
    let missing = vec![op(Opcode::Constant), 0, op(Opcode::GLoad), op(Opcode::Return)];
    assert_eq!(run_code(missing, vec![s("nope")]), done(Value::Nil));
    let overwrite = vec![
        op(Opcode::IConst1), op(Opcode::Constant), 0, op(Opcode::GStore),
        op(Opcode::IConst3), op(Opcode::Constant), 0, op(Opcode::GStore),
        op(Opcode::Constant), 0, op(Opcode::GLoad), op(Opcode::Return),
    ];
    assert_eq!(run_code(overwrite, vec![s("x")]), done(Value::Int(3)));
}

#[test]
fn locals_store_and_load() {
    let code = vec![
        op(Opcode::IConst0), op(Opcode::IConst0), op(Opcode::IConst3), op(Opcode::LStore1),
        op(Opcode::LLoad1), op(Opcode::Return),
    ];
    assert_eq!(run_code(code, vec![]), done(Value::Int(3)));
    let with_imm = vec![op(Opcode::IConst0), op(Opcode::IConst2), op(Opcode::LStore), 0, op(Opcode::LLoad), 0, op(Opcode::Return)];
    assert_eq!(run_code(with_imm, vec![]), done(Value::Int(2)));
    let out_of_range_load = vec![op(Opcode::LLoad4), op(Opcode::Return)];
    assert_eq!(run_code(out_of_range_load, vec![]), done(Value::Nil));
    let out_of_range_store = vec![op(Opcode::IConst1), op(Opcode::LStore3), op(Opcode::Return)];
    assert_eq!(run_code(out_of_range_store, vec![]), Ok(Step::Fault(Fault::StackSlotOutOfBounds)));
}

#[test]
fn jumps() {
    let code = vec![op(Opcode::Jump), 1, op(Opcode::IConst1), op(Opcode::IConst2), op(Opcode::Return)];
    assert_eq!(run_code(code, vec![]), done(Value::Int(2)));
    let taken = vec![op(Opcode::IConst3), op(Opcode::F), op(Opcode::JumpIfF), 1, op(Opcode::IConst1), op(Opcode::Return)];
    assert_eq!(run_code(taken, vec![]), done(Value::Int(3)));
    let not_taken = vec![op(Opcode::IConst3), op(Opcode::T), op(Opcode::JumpIfF), 1, op(Opcode::IConst1), op(Opcode::Return)];
    assert_eq!(run_code(not_taken, vec![]), done(Value::Int(1)));
}

#[test]
fn invoke_and_return() {
    let main = vec![
        op(Opcode::IConst4), op(Opcode::Constant), 0, op(Opcode::Invoke), 1,
        op(Opcode::Return),
    ];
    let f = vec![op(Opcode::LLoad0), op(Opcode::IConst1), op(Opcode::IAdd), op(Opcode::Return)];
    let m = CompiledModule {
        chunks: vec![Chunk { name: "main".to_string(), code: main }, Chunk { name: "f".to_string(), code: f }],
        constants: vec![s("f")],
    };
    assert_eq!(VM::new(m).run(100), done(Value::Int(5)));
    let bad_arity = vec![op(Opcode::Constant), 0, op(Opcode::Invoke), 3, op(Opcode::Return)];
    assert_eq!(run_code(bad_arity, vec![s("f")]), Ok(Step::Fault(Fault::ArithmeticOverflow)));
}

#[test]
fn runs_split_into_steps() {
    let code = vec![op(Opcode::IConst1), op(Opcode::IConst2), op(Opcode::IAdd), op(Opcode::Return)];
    let mut vm = VM::new(module(code.clone(), vec![]));
    assert_eq!(vm.run(2), Ok(Step::Continue));
    assert_eq!(vm.run(0), Ok(Step::Continue));
    assert_eq!(vm.run(5), done(Value::Int(3)));
    let mut stepped = VM::new(module(code, vec![]));
    assert_eq!(stepped.step(), Ok(Step::Continue));
    assert_eq!(stepped.step(), Ok(Step::Continue));
    assert_eq!(stepped.step(), Ok(Step::Continue));
    assert_eq!(stepped.step(), done(Value::Int(3)));
}

#[test]
fn values_clone_equal() {
    let v = arr(vec![s("a"), some(arr(vec![Value::Int(1)])), Value::Float(3), Value::Nil]);
    assert_eq!(v.clone(), v);
}

#[test]
fn test_runner_keeps_tests_in_order() {
    let r = TestRunner::with_binary("bin/lexer_test".to_string())
        .add_test_vs_rust("a.abra")
        .add_test_vs_txt("b.abra", "b.out.json");
    let (bin, tests) = r.into_parts();
    assert_eq!(bin, "bin/lexer_test");
    assert_eq!(tests.len(), 2);
    assert!(matches!(tests[0], TestType::VsRust("a.abra")));
    assert!(matches!(tests[1], TestType::VsTxt("b.abra", "b.out.json")));
}

#[test]
fn load_from_a_made_array() {
    let base = vec![op(Opcode::IConst1), op(Opcode::IConst2), op(Opcode::IConst3), op(Opcode::IConst3), op(Opcode::ArrMk)];
    let mut first = base.clone();
    first.extend([op(Opcode::IConst0), op(Opcode::ArrLoad), op(Opcode::Return)]);
    assert_eq!(run_code(first, vec![]), done(some(Value::Int(1))));
    let mut last = base.clone();
    last.extend([op(Opcode::Constant), 0, op(Opcode::ArrLoad), op(Opcode::Return)]);
    assert_eq!(run_code(last, vec![Value::Int(-1)]), done(some(Value::Int(3))));
    let mut past = base;
    past.extend([op(Opcode::IConst3), op(Opcode::ArrLoad), op(Opcode::Return)]);
    assert_eq!(run_code(past, vec![]), done(none()));
}
