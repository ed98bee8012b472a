//! Whole programs, one feature of the machine at a time.
use std::cell::RefCell;

use grain_vm::arith::BinOpKind;
use grain_vm::debug::Status;
use grain_vm::engine::Engine;
use grain_vm::error::{Error, FailureKind};
use grain_vm::heap::Heap;
use grain_vm::host::{Answer, Ask, HostRequest, Reply};
use grain_vm::machine::{Fault, Vm};
use grain_vm::position::Position;
use grain_vm::program::{
    AssignOp, Case, Chain, Chunk, Function, Program, RangeCase, Root, Step, Switch, Tail,
};
use grain_vm::scope::Scope;
use grain_vm::tag;
use grain_vm::value::{clone_value, AccessMode, Dict, Dynamic, FnPtrType, Union};
use grain_vm::vm::{CallFnOptions, Output};

// --- assembling -------------------------------------------------------------

const NAMES: [&str; 16] = [
    "f", "g", "x", "y", "+", "-", "*", "+=", "err", "push", "abs", "pub", "get$pub", "set$pub",
    "_loop", "len",
];

/// A program being written down, with its labels filled in at the end.
struct Asm {
    code: Vec<u8>,
    labels: Vec<Option<u32>>,
    holes: Vec<(usize, usize)>,
    functions: Vec<Function>,
    constants: Vec<Dynamic>,
    chains: Vec<Chain>,
    switches: Vec<(Vec<(Dynamic, usize)>, Vec<(i64, i64, bool, usize)>, usize)>,
}

impl Asm {
    fn new() -> Asm {
        Asm {
            code: Vec::new(),
            labels: Vec::new(),
            holes: Vec::new(),
            functions: Vec::new(),
            constants: Vec::new(),
            chains: Vec::new(),
            switches: Vec::new(),
        }
    }

    fn op(&mut self, tag: u8, words: &[u16]) -> &mut Asm {
        self.code.push(tag);
        for w in words {
            self.code.extend_from_slice(&w.to_le_bytes());
        }
        self
    }

    fn op8(&mut self, tag: u8, byte: u8, words: &[u16]) -> &mut Asm {
        self.code.push(tag);
        self.code.push(byte);
        for w in words {
            self.code.extend_from_slice(&w.to_le_bytes());
        }
        self
    }

    fn call(&mut self, tag: u8, name: u16, argc: u8, words: &[u16]) -> &mut Asm {
        self.op(tag, &[name]);
        self.code.push(argc);
        for w in words {
            self.code.extend_from_slice(&w.to_le_bytes());
        }
        self
    }

    /// An operator on what is on the stack, with its token.
    fn binary(&mut self, kind: BinOpKind) -> &mut Asm {
        let name = match kind {
            BinOpKind::Add => 4,
            BinOpKind::Subtract => 5,
            _ => 6,
        };
        self.op(tag::BIN_OP, &[name]);
        self.code.push(kind as u8);
        self.code.extend_from_slice(&(name - 4).to_le_bytes());
        self
    }

    fn label(&mut self) -> usize {
        self.labels.push(None);
        self.labels.len() - 1
    }

    fn here(&mut self, label: usize) -> &mut Asm {
        self.labels[label] = Some(self.code.len() as u32);
        self
    }

    fn jump(&mut self, tag: u8, label: usize) -> &mut Asm {
        self.code.push(tag);
        self.holes.push((self.code.len(), label));
        self.code.extend_from_slice(&[0; 4]);
        self
    }

    fn constant(&mut self, value: Dynamic) -> &mut Asm {
        self.constants.push(value);
        let index = self.constants.len() as u16 - 1;
        self.op(tag::CONST, &[index])
    }

    fn whole(&mut self, i: i64) -> &mut Asm {
        self.constant(Dynamic::from_int(i))
    }

    fn text(&mut self, s: &str) -> &mut Asm {
        self.constant(Dynamic::from_text(s.to_string()))
    }

    fn chain(&mut self, chain: Chain) -> &mut Asm {
        self.chains.push(chain);
        let index = self.chains.len() as u16 - 1;
        self.op(tag::CHAIN, &[index])
    }

    fn ret(&mut self) -> &mut Asm {
        self.op(tag::RETURN, &[])
    }

    /// What follows is the body of a function.
    fn function(&mut self, name: u32, params: &[&str]) -> &mut Asm {
        let entry = self.code.len() as u32;
        self.functions.push(Function {
            name,
            param_names: params.iter().map(|p| p.to_string()).collect(),
            this_type: None,
            takes_this: false,
            chunk: Chunk { entry, end: entry },
        });
        self
    }

    fn finish(&mut self) -> Program {
        for (at, label) in &self.holes {
            let target = self.labels[*label].expect("every label is placed");
            self.code[*at..*at + 4].copy_from_slice(&target.to_le_bytes());
        }
        let label = |l: usize| self.labels[l].unwrap();
        let switches = self
            .switches
            .iter()
            .map(|(cases, ranges, default)| Switch {
                cases: cases
                    .iter()
                    .map(|(v, l)| Case { literal: clone_value(v), target: label(*l) })
                    .collect(),
                ranges: ranges
                    .iter()
                    .map(|(from, to, inclusive, l)| RangeCase {
                        from: *from,
                        to: *to,
                        inclusive: *inclusive,
                        target: label(*l),
                    })
                    .collect(),
                default: label(*default),
            })
            .collect();
        let positions = (0..self.code.len())
            .map(|i| Position { line: 1, column: i as u16 + 1 })
            .collect();
        Program {
            id: 1,
            code: std::mem::take(&mut self.code),
            names: NAMES.iter().map(|n| n.to_string()).collect(),
            constants: std::mem::take(&mut self.constants),
            tokens: ["+", "-", "*"].iter().map(|n| n.to_string()).collect(),
            assign_ops: vec![AssignOp {
                kind: Some(BinOpKind::Add),
                op_assign_name: 7,
                op_name: 4,
            }],
            chains: std::mem::take(&mut self.chains),
            switches,
            functions: std::mem::take(&mut self.functions),
            residuals: 1,
            positions,
            main: Chunk { entry: 0, end: 0 },
            max_stack: 8,
            source: None,
            lib: None,
            resolver: None,
        }
    }
}

fn int_of(i: i64) -> Dynamic {
    Dynamic::from_int(i)
}

fn index(operand: u16) -> Step {
    Step::Index { operand, skip: false, pos: Position::none(), bracket: Position::none() }
}

fn property() -> Step {
    Step::Property { name: 11, getter: 12, setter: 13, skip: false, pos: Position::none() }
}

// --- a host -----------------------------------------------------------------

fn copy_error(err: &Error) -> Error {
    let kind = match &err.kind {
        FailureKind::ErrorRuntime(v) => FailureKind::ErrorRuntime(clone_value(v)),
        FailureKind::Exit(v) => FailureKind::Exit(clone_value(v)),
        FailureKind::Return(v) => FailureKind::Return(clone_value(v)),
        FailureKind::ErrorHost(said, system) => FailureKind::ErrorHost(said.clone(), *system),
        other => panic!("no host here raises {other:?}"),
    };
    Error { kind, pos: err.pos }
}

fn copy_scope(scope: &Scope) -> Scope {
    let mut copy = Scope::new();
    for i in 0..scope.len() {
        let value = clone_value(scope.get_by_index(i));
        match scope.get_by_index(i).mode {
            AccessMode::ReadWrite => copy.push_dynamic(scope.name_at(i), value),
            AccessMode::ReadOnly => copy.push_constant_dynamic(scope.name_at(i), value),
        }
    }
    copy
}

fn copy_answer(answer: &Answer) -> Answer {
    Answer {
        reply: match &answer.reply {
            Reply::Value(v) => Reply::Value(clone_value(v)),
            Reply::Nothing => Reply::Nothing,
            Reply::Handle(handle, context) => Reply::Handle(*handle, *context),
            Reply::Debug { status, later } => Reply::Debug { status: *status, later: *later },
            Reply::Raised(err) => Reply::Raised(copy_error(err)),
        },
        operands: answer.operands.iter().map(clone_value).collect(),
        scope: answer.scope.as_ref().map(copy_scope),
        cells: None,
        operations: answer.operations,
    }
}

/// What the host of these tests was asked, in order.
type Asked = RefCell<Vec<String>>;

fn answer(request: &HostRequest, asked: &Asked) -> Answer {
    asked.borrow_mut().push(format!("{:?} {}", request.ask, request.name));
    let operands: Vec<Dynamic> = request.operands.iter().map(clone_value).collect();
    let plain = |reply| Answer {
        operands: request.operands.iter().map(clone_value).collect(),
        scope: request.scope.as_ref().map(copy_scope),
        ..Answer::plain(reply)
    };
    match (request.ask, request.name.as_str()) {
        (Ask::Render, _) => {
            let text = match &operands[0].value {
                Union::Int(i) => i.to_string(),
                other => format!("{other:?}"),
            };
            plain(Reply::Value(Dynamic::from_text(text)))
        }
        (Ask::Measure, _) => {
            let sizes = match &operands[0].value {
                Union::Array(items) => [items.len() as i64, 0, 0],
                Union::Str(s) => [0, 0, s.len() as i64],
                _ => [0, 0, 0],
            };
            plain(Reply::Value(Dynamic::from_array(sizes.iter().map(|i| int_of(*i)).collect())))
        }
        (Ask::Describe, _) => {
            let err = request.failure.as_ref().unwrap();
            let text = format!("{:?}", err.kind);
            let text = text.split('(').next().unwrap().to_string();
            let parts = vec![("error".to_string(), Dynamic::from_text(text))];
            let message = Dynamic::from_text("it failed".to_string());
            let said = Dynamic::from_array(vec![message, Dynamic::from_dict(Dict::of(parts))]);
            plain(Reply::Value(said))
        }
        (Ask::Residual { rewind, .. }, _) => {
            let mut answer = plain(Reply::Value(int_of(77)));
            if let (false, Some(scope)) = (rewind, &mut answer.scope) {
                scope.push_dynamic("made", int_of(1));
            }
            answer
        }
        (Ask::Statement { .. }, _) => {
            plain(Reply::Debug { status: Status::Next(true, true), later: None })
        }
        (Ask::ResolveVar, "x") => plain(Reply::Value(int_of(1000))),
        (Ask::Progress { operations }, _) if operations > 5 => {
            plain(Reply::Value(Dynamic::from_text("stop".to_string())))
        }
        (Ask::Float { kind: BinOpKind::Add }, _) => {
            let float = |v: &Dynamic| match v.value {
                Union::Float(bits) => f64::from_bits(bits),
                Union::Int(i) => i as f64,
                _ => panic!("no number"),
            };
            let sum = float(&operands[0]) + float(&operands[1]);
            plain(Reply::Value(Dynamic::of(Union::Float(sum.to_bits()))))
        }
        (Ask::ResolveOperator, "+") => plain(Reply::Handle(5, false)),
        (Ask::Builtin { handle: 5, .. }, _) => {
            let text = match (&operands[0].value, &operands[1].value) {
                (Union::Str(a), Union::Str(b)) => format!("{a}{b}"),
                other => panic!("cannot join {other:?}"),
            };
            plain(Reply::Value(Dynamic::from_text(text)))
        }
        (Ask::Dispatch { .. }, "abs") => {
            plain(Reply::Value(int_of(operands[0].as_int().unwrap().abs())))
        }
        (Ask::Dispatch { .. }, "push") => {
            plain(Reply::Raised(Error { kind: FailureKind::Exit(int_of(42)), pos: request.pos }))
        }
        (Ask::Dispatch { .. }, "_loop") => plain(Reply::Raised(Error {
            kind: FailureKind::ErrorHost("the disk is gone".to_string(), operands.is_empty()),
            pos: request.pos,
        })),
        (Ask::Dispatch { .. }, "len") => plain(Reply::Raised(Error {
            kind: FailureKind::ErrorRuntime(Dynamic::from_text("no length".to_string())),
            pos: request.pos,
        })),
        _ => plain(Reply::Nothing),
    }
}

/// Run a program until nothing is asked any more.
fn run_in(
    engine: &Engine,
    program: &Program,
    scope: &mut Scope,
) -> (Result<Dynamic, Error>, Vec<Fault>, Vec<String>) {
    let asked: Asked = RefCell::new(Vec::new());
    let mut answers: Vec<Answer> = Vec::new();
    loop {
        let mut vm = Vm::new(engine);
        vm.answer_with(answers.iter().map(copy_answer).collect());
        let mut local = copy_scope(scope);
        let out = vm.eval_with_scope(&mut local, program);
        if out.is_ok() {
            assert_eq!(vm.depth(), 0, "a run that ends leaves no operands");
        }
        match vm.take_request() {
            Some(request) => answers.push(answer(&request, &asked)),
            None => {
                *scope = local;
                return (out, vm.fault_trace(), asked.into_inner());
            }
        }
    }
}

fn run(program: &Program) -> Result<Dynamic, Error> {
    run_in(&Engine::new(1), program, &mut Scope::new()).0
}

fn int_result(program: &Program) -> i64 {
    run(program).unwrap().as_int().unwrap()
}

fn text_result(program: &Program) -> String {
    match run(program).unwrap().value {
        Union::Str(s) => s,
        other => panic!("a string, not {other:?}"),
    }
}

fn ints(value: &Dynamic) -> Vec<i64> {
    match &value.value {
        Union::Array(items) => items.iter().map(|v| v.as_int().unwrap()).collect(),
        other => panic!("an array, not {other:?}"),
    }
}

// --- failures and handlers --------------------------------------------------

/// `try { let y = 1; <body> } catch (err) { err }`
fn guarded(body: impl Fn(&mut Asm)) -> Program {
    let mut a = Asm::new();
    let catch = a.label();
    a.code.push(tag::PUSH_HANDLER_VAR);
    a.holes.push((a.code.len(), catch));
    a.code.extend_from_slice(&[0; 4]);
    a.code.extend_from_slice(&8u16.to_le_bytes());
    a.whole(5).whole(1).op(tag::DECLARE_LOCAL, &[3]);
    body(&mut a);
    a.op(tag::POP_HANDLER, &[]).ret();
    a.here(catch).op(tag::LOAD_NAMED, &[8]).op(tag::POP_HANDLER, &[]).ret();
    a.finish()
}

#[test]
fn a_thrown_value_is_what_the_catch_block_gets() {
    let program = guarded(|a| {
        a.whole(42).op(tag::THROW, &[]);
    });
    let mut scope = Scope::new();
    let (out, faults, _) = run_in(&Engine::new(1), &program, &mut scope);
    assert_eq!(out.unwrap().as_int(), Ok(42));
    assert!(faults.is_empty(), "a caught failure leaves no trace");
    // `y` went with the region; only the caught value is bound.
    assert_eq!(scope.len(), 1);
    assert_eq!(scope.name_at(0), "err");
}

#[test]
fn any_other_failure_is_described_by_the_host() {
    let program = guarded(|a| {
        a.op(tag::LOAD_NAMED, &[2]);
    });
    let described = run(&program).unwrap();
    let described = match &described.value {
        Union::Dict(map) => map.pairs(),
        other => panic!("a map, not {other:?}"),
    };
    let keys: Vec<&str> = described.iter().map(|(key, _)| key.as_str()).collect();
    assert_eq!(keys, vec!["message", "line", "position", "error"]);
    assert_eq!(described[1].1.as_int(), Ok(1));
    assert_eq!(described[2].1.as_int(), Ok(17));
    assert!(matches!(&described[3].1.value, Union::Str(s) if s == "ErrorVariableNotFound"));
}

#[test]
fn a_bare_throw_in_a_catch_block_raises_again() {
    let mut a = Asm::new();
    let catch = a.label();
    a.jump(tag::PUSH_HANDLER, catch).whole(7).op(tag::THROW, &[]);
    a.here(catch).op(tag::UNIT, &[]).op(tag::THROW, &[]);
    let err = run(&a.finish()).unwrap_err();
    assert!(matches!(&err.kind, FailureKind::ErrorRuntime(v) if v.as_int() == Ok(7)), "{err:?}");
}

#[test]
fn a_failure_in_a_callee_is_caught_in_its_caller_and_named() {
    let mut a = Asm::new();
    let catch = a.label();
    a.jump(tag::PUSH_HANDLER, catch).call(tag::CALL, 0, 0, &[]).ret();
    a.here(catch).whole(3).op(tag::POP_HANDLER, &[]).ret();
    a.function(0, &[]).whole(1).op(tag::THROW, &[]);
    assert_eq!(int_result(&a.finish()), 3);

    let mut a = Asm::new();
    a.call(tag::CALL, 0, 0, &[]).ret();
    a.function(0, &[]).whole(1).op(tag::THROW, &[]);
    let program = a.finish();
    let (out, faults, _) = run_in(&Engine::new(1), &program, &mut Scope::new());
    let err = out.unwrap_err();
    assert!(matches!(&err.kind, FailureKind::ErrorInFunctionCall(name, _, _) if name == "f"));
    // Innermost frame first: the throw, then the call.
    assert_eq!(faults.iter().map(|f| f.address).collect::<Vec<_>>(), vec![8, 0]);
}

#[test]
fn a_top_level_return_is_the_value_of_the_run() {
    let mut a = Asm::new();
    a.whole(1).op(tag::DECLARE_LOCAL, &[2]).op(tag::LOAD_LOCAL, &[0]).ret();
    let mut scope = Scope::new();
    scope.push_dynamic("before", int_of(0));
    let (out, _, _) = run_in(&Engine::new(1), &a.finish(), &mut scope);
    assert_eq!(out.unwrap().as_int(), Ok(1));
    assert_eq!(scope.len(), 2, "what is declared at the top level is left in the scope");
}

#[test]
fn an_exit_is_the_value_of_the_run_and_no_failure() {
    // exit(42), in the main chunk and in a function it calls.
    let mut a = Asm::new();
    a.call(tag::CALL, 9, 0, &[]).ret();
    let (out, faults, _) = run_in(&Engine::new(1), &a.finish(), &mut Scope::new());
    assert_eq!(out.unwrap().as_int(), Ok(42));
    assert!(faults.is_empty());

    let mut a = Asm::new();
    a.call(tag::CALL, 0, 0, &[]).ret();
    a.function(0, &[]).call(tag::CALL, 9, 0, &[]).ret();
    let (out, faults, _) = run_in(&Engine::new(1), &a.finish(), &mut Scope::new());
    assert_eq!(out.unwrap().as_int(), Ok(42));
    assert!(faults.is_empty());

    // A failure after it was run says where, innermost frame first.
    let mut a = Asm::new();
    a.call(tag::CALL, 0, 0, &[]).ret();
    a.function(0, &[]).whole(1).op(tag::THROW, &[]);
    let (out, faults, _) = run_in(&Engine::new(1), &a.finish(), &mut Scope::new());
    assert!(out.is_err());
    let addresses: Vec<usize> = faults.iter().map(|fault| fault.address).collect();
    assert_eq!(addresses, vec![8, 0]);
}

#[test]
fn a_hosts_own_failure_may_be_beyond_any_handler() {
    // try { _loop() } and try { _loop(1) }: only the second may be caught.
    let program = guarded(|a| {
        a.call(tag::CALL, 14, 0, &[]);
    });
    let err = run(&program).unwrap_err();
    assert!(
        matches!(&err.kind, FailureKind::ErrorHost(said, true) if said == "the disk is gone"),
        "{err:?}"
    );
    assert!(err.is_system_exception() && !err.is_catchable());
    let program = guarded(|a| {
        a.whole(1).call(tag::CALL, 14, 1, &[]);
    });
    assert!(matches!(run(&program).unwrap().value, Union::Dict(_)));
}

#[test]
fn bytes_that_are_no_program_are_an_error() {
    for code in [vec![], vec![200], vec![tag::CONST, 0], vec![tag::POP], vec![tag::CONST, 9, 0]] {
        let mut program = Asm::new().finish();
        program.code = code;
        let err = run(&program).unwrap_err();
        let text = format!("{err:?}");
        assert!(text.contains("malformed chunk") || text.contains("ran off the end"), "{text}");
    }
}

// --- loops and limits -------------------------------------------------------

/// `for i in 0..4 { x += i }` with the index added too where it is wanted.
fn range_loop(indexed: bool) -> Program {
    let mut a = Asm::new();
    let (body, turn) = (a.label(), a.label());
    a.whole(0).op(tag::DECLARE_LOCAL, &[2]);
    a.op(tag::UNIT, &[]).op(tag::DECLARE_LOCAL, &[3]);
    a.constant(Dynamic::of(Union::Range(0, 4))).op(tag::ITER_INIT, &[]);
    a.jump(tag::JUMP, turn);
    a.here(body);
    if indexed {
        // the item is under its index
        a.op(tag::ASSIGN_LOCAL_OP, &[0, 2, 0]);
    }
    a.op(tag::STORE_LOCAL, &[1]);
    a.op(tag::ASSIGN_LOCAL_FROM_OP, &[0, 2, 1, 0]);
    a.here(turn).jump(if indexed { tag::ITER_NEXT_INDEXED } else { tag::ITER_NEXT }, body);
    a.op(tag::LOAD_LOCAL, &[0]).ret();
    a.finish()
}

#[test]
fn a_range_is_walked_without_asking() {
    let engine = Engine::new(1);
    let (out, _, asked) = run_in(&engine, &range_loop(false), &mut Scope::new());
    assert_eq!(out.unwrap().as_int(), Ok(6));
    assert!(asked.is_empty(), "{asked:?}");
}

#[test]
fn a_loop_can_hand_out_its_index_too() {
    assert_eq!(int_result(&range_loop(true)), 12);
}

#[test]
fn a_loop_that_never_ends_runs_into_its_limit() {
    let mut engine = Engine::new(1);
    engine.max_operations = 100;
    let mut a = Asm::new();
    let start = a.label();
    a.here(start).jump(tag::JUMP, start);
    let program = a.finish();
    let (out, _, _) = run_in(&engine, &program, &mut Scope::new());
    assert!(matches!(out.unwrap_err().kind, FailureKind::ErrorTooManyOperations));

    // No catch block may hide it.
    let program = guarded(|a| {
        let start = a.label();
        a.here(start).jump(tag::JUMP, start);
    });
    let (out, _, _) = run_in(&engine, &program, &mut Scope::new());
    assert!(matches!(out.unwrap_err().kind, FailureKind::ErrorTooManyOperations));
}

#[test]
fn the_host_can_stop_a_run() {
    let mut engine = Engine::new(1);
    engine.watches_progress = true;
    let mut a = Asm::new();
    let start = a.label();
    a.here(start).jump(tag::JUMP, start);
    let (out, _, asked) = run_in(&engine, &a.finish(), &mut Scope::new());
    assert!(matches!(out.unwrap_err().kind, FailureKind::ErrorTerminated(_)));
    assert_eq!(asked.len(), 6);
}

#[test]
fn calls_nest_no_deeper_than_the_limit() {
    let mut a = Asm::new();
    a.call(tag::CALL, 0, 0, &[]).ret();
    a.function(0, &[]).call(tag::CALL, 0, 0, &[]).ret();
    let err = run(&a.finish()).unwrap_err();
    assert!(format!("{err:?}").contains("ErrorStackOverflow"));
}

#[test]
fn variables_are_limited() {
    let mut engine = Engine::new(1);
    engine.max_variables = 1;
    let program = guarded(|a| {
        a.whole(42).op(tag::THROW, &[]);
    });
    let mut scope = Scope::new();
    scope.push_dynamic("one", int_of(1));
    let (out, _, _) = run_in(&engine, &program, &mut scope);
    assert!(matches!(out.unwrap_err().kind, FailureKind::ErrorTooManyVariables));
}

#[test]
fn a_literal_may_not_grow_past_its_limit() {
    let mut engine = Engine::new(1);
    engine.max_array_size = 2;
    let literal = |len: u16| {
        let mut a = Asm::new();
        for i in 0..len {
            a.whole(i as i64).op(tag::CHECK_ARRAY_SIZE, &[i]);
        }
        a.op(tag::MAKE_ARRAY, &[len]).ret();
        a.finish()
    };
    let (out, _, _) = run_in(&engine, &literal(2), &mut Scope::new());
    assert_eq!(ints(&out.unwrap()), vec![0, 1]);
    let (out, _, _) = run_in(&engine, &literal(3), &mut Scope::new());
    assert!(matches!(out.unwrap_err().kind, FailureKind::ErrorDataTooLarge(_)));
}

// --- branches ---------------------------------------------------------------

#[test]
fn a_switch_goes_to_its_first_match() {
    let program = |subject: Dynamic| {
        let mut a = Asm::new();
        let (one, word, range, other) = (a.label(), a.label(), a.label(), a.label());
        a.switches.push((
            vec![(int_of(1), one), (Dynamic::from_text("w".to_string()), word)],
            vec![(1, 10, false, range)],
            other,
        ));
        a.constant(subject).op(tag::SWITCH, &[0]);
        a.here(one).whole(10).ret();
        a.here(word).whole(20).ret();
        a.here(range).whole(30).ret();
        a.here(other).whole(40).ret();
        a.finish()
    };
    assert_eq!(int_result(&program(int_of(1))), 10);
    assert_eq!(int_result(&program(Dynamic::from_text("w".to_string()))), 20);
    assert_eq!(int_result(&program(int_of(9))), 30);
    assert_eq!(int_result(&program(int_of(10))), 40);
    assert_eq!(int_result(&program(Dynamic::from_bool(true))), 40);
}

#[test]
fn a_switch_reads_its_subject_out_of_its_cell() {
    let mut a = Asm::new();
    let (one, other) = (a.label(), a.label());
    a.whole(3).op(tag::DECLARE_LOCAL, &[2]).op(tag::SHARE, &[0]);
    a.op(tag::LOAD_SHARED, &[0]);
    a.switches.push((vec![(int_of(3), one)], Vec::new(), other));
    a.op(tag::SWITCH, &[0]);
    a.here(one).whole(10).ret();
    a.here(other).whole(20).ret();
    assert_eq!(int_result(&a.finish()), 10);
}

#[test]
fn a_guard_must_be_a_boolean() {
    let mut a = Asm::new();
    let end = a.label();
    a.whole(1).jump(tag::JUMP_IF_FALSE, end).here(end).op(tag::UNIT, &[]).ret();
    let err = run(&a.finish()).unwrap_err();
    assert!(
        matches!(&err.kind, FailureKind::ErrorMismatchDataType(want, got) if want == "bool" && got == "i64"),
        "{err:?}"
    );
}

#[test]
fn coalescing_skips_what_is_not_unit() {
    let program = |first: Dynamic| {
        let mut a = Asm::new();
        let end = a.label();
        a.constant(first).jump(tag::SKIP_IF_NOT_UNIT, end).whole(2).here(end).ret();
        a.finish()
    };
    assert_eq!(int_result(&program(int_of(1))), 1);
    assert_eq!(int_result(&program(Dynamic::unit())), 2);
}

// --- variables --------------------------------------------------------------

#[test]
fn a_constant_refuses_to_be_written() {
    let mut a = Asm::new();
    a.whole(1).op(tag::DECLARE_CONST, &[2]).whole(2).op(tag::ASSIGN_LOCAL, &[0, 2]);
    a.op(tag::UNIT, &[]).ret();
    let err = run(&a.finish()).unwrap_err();
    assert!(matches!(&err.kind, FailureKind::ErrorAssignmentToConstant(n) if n == "x"), "{err:?}");

    let mut a = Asm::new();
    a.whole(1).op(tag::DECLARE_CONST, &[2]).whole(2).op(tag::ASSIGN_NAMED, &[2]);
    let err = run(&a.finish()).unwrap_err();
    assert!(matches!(&err.kind, FailureKind::ErrorAssignmentToConstant(n) if n == "x"), "{err:?}");
}

#[test]
fn a_hosts_own_variable_comes_first() {
    let mut engine = Engine::new(1);
    engine.resolves_vars = true;
    let mut a = Asm::new();
    a.whole(1).op(tag::DECLARE_LOCAL, &[2]).op(tag::LOAD_NAMED, &[2]).ret();
    let (out, _, _) = run_in(&engine, &a.finish(), &mut Scope::new());
    assert_eq!(out.unwrap().as_int(), Ok(1000));
}

#[test]
fn a_modules_variable_is_found_last() {
    let mut engine = Engine::new(1);
    engine.module_vars.push(("y".to_string(), int_of(5)));
    let mut a = Asm::new();
    a.op(tag::LOAD_NAMED, &[3]).ret();
    let program = a.finish();
    let (out, _, _) = run_in(&engine, &program, &mut Scope::new());
    assert_eq!(out.unwrap().as_int(), Ok(5));
    let mut scope = Scope::new();
    scope.push_dynamic("y", int_of(6));
    let (out, _, _) = run_in(&engine, &program, &mut scope);
    assert_eq!(out.unwrap().as_int(), Ok(6));
}

#[test]
fn a_shared_variable_is_written_through_its_cell() {
    let mut a = Asm::new();
    // let x = 1; share x; let y = x's cell; x = 5; y
    a.whole(1).op(tag::DECLARE_LOCAL, &[2]).op(tag::SHARE, &[0]);
    a.op(tag::LOAD_SHARED, &[0]).op(tag::IS_SHARED, &[]).op(tag::POP, &[]);
    a.whole(5).op(tag::ASSIGN_LOCAL, &[0, 2]);
    a.op(tag::LOAD_LOCAL, &[0]).ret();
    assert_eq!(int_result(&a.finish()), 5);

    let mut a = Asm::new();
    a.whole(1).op(tag::DECLARE_LOCAL, &[2]).op(tag::SHARE_NAMED, &[2]);
    a.op(tag::LOAD_SHARED, &[0]).op(tag::IS_SHARED, &[]).ret();
    assert!(matches!(run(&a.finish()).unwrap().value, Union::Bool(true)));
}

#[test]
fn a_fragment_is_the_hosts_to_run() {
    for (keep, len) in [(tag::EVAL_AST_KEEP, 1), (tag::EVAL_AST, 0)] {
        let mut a = Asm::new();
        a.op(keep, &[0]).ret();
        let mut scope = Scope::new();
        let (out, _, asked) = run_in(&Engine::new(1), &a.finish(), &mut scope);
        assert_eq!(out.unwrap().as_int(), Ok(77));
        assert_eq!(asked.len(), 1);
        assert_eq!(scope.len(), len, "a rewound fragment leaves no variable");
    }
}

// --- operators and calls ----------------------------------------------------

#[test]
fn strings_are_joined_by_a_resolved_built_in_once_resolved() {
    // "a" + "b", twice at one site
    let mut a = Asm::new();
    let (start, end) = (a.label(), a.label());
    a.op(tag::FALSE, &[]).op(tag::DECLARE_LOCAL, &[2]);
    a.here(start).text("a").text("b").binary(BinOpKind::Add);
    a.op(tag::LOAD_LOCAL, &[0]).jump(tag::JUMP_IF_TRUE, end);
    a.op(tag::POP, &[]).op(tag::TRUE, &[]).op(tag::STORE_LOCAL, &[0]).jump(tag::JUMP, start);
    a.here(end).ret();
    let (out, _, asked) = run_in(&Engine::new(1), &a.finish(), &mut Scope::new());
    assert!(matches!(out.unwrap().value, Union::Str(s) if s == "ab"));
    let resolved = asked.iter().filter(|a| a.starts_with("ResolveOperator")).count();
    assert_eq!(resolved, 1, "{asked:?}");
}

#[test]
fn floats_are_the_hosts_to_add() {
    let mut a = Asm::new();
    a.constant(Dynamic::of(Union::Float(0.5f64.to_bits()))).whole(2).binary(BinOpKind::Add).ret();
    let out = run(&a.finish()).unwrap();
    assert!(matches!(out.value, Union::Float(bits) if f64::from_bits(bits) == 2.5));
}

#[test]
fn arguments_are_bound_in_order() {
    let mut a = Asm::new();
    a.whole(10).whole(3).call(tag::CALL, 0, 2, &[]).ret();
    a.function(0, &["x", "y"]);
    a.op(tag::LOAD_LOCAL, &[0]).op(tag::LOAD_LOCAL, &[1]).binary(BinOpKind::Subtract).ret();
    assert_eq!(int_result(&a.finish()), 7);
}

#[test]
fn a_host_function_is_asked_for_by_name() {
    let mut a = Asm::new();
    a.whole(-4).call(tag::CALL, 10, 1, &[]).ret();
    let (out, _, asked) = run_in(&Engine::new(1), &a.finish(), &mut Scope::new());
    assert_eq!(out.unwrap().as_int(), Ok(4));
    assert_eq!(asked.len(), 2, "resolved, then called: {asked:?}");
    assert!(asked[0].starts_with("ResolveSite abs"));
}

#[test]
fn a_failure_of_a_host_function_is_blamed_on_its_call() {
    let mut a = Asm::new();
    a.whole(1).call(tag::CALL, 15, 1, &[]).ret();
    let err = run(&a.finish()).unwrap_err();
    assert_eq!(err.pos, Position { line: 1, column: 4 });
}

#[test]
fn a_closure_carries_what_it_captured() {
    // let f = |x, y| x * y curried with 6; f.call(7)
    let mut a = Asm::new();
    a.op(tag::MAKE_CLOSURE, &[0]).whole(6).op8(tag::CURRY, 1, &[]);
    a.whole(7).op8(tag::CALL_FN_PTR, 1, &[]).ret();
    a.function(0, &["x", "y"]);
    a.op(tag::LOAD_LOCAL, &[0]).op(tag::LOAD_LOCAL, &[1]).binary(BinOpKind::Multiply).ret();
    assert_eq!(int_result(&a.finish()), 42);
}

#[test]
fn a_pointer_is_made_from_a_name() {
    let mut a = Asm::new();
    a.text("g").op(tag::MAKE_FN_PTR, &[]).ret();
    match run(&a.finish()).unwrap().value {
        Union::FnPtr(p) => {
            assert_eq!(p.name, "g");
            assert_eq!(p.typ, FnPtrType::Normal);
        }
        other => panic!("a pointer, not {other:?}"),
    }
    let mut a = Asm::new();
    a.text("1g").op(tag::MAKE_FN_PTR, &[]).ret();
    assert!(run(&a.finish()).is_err(), "a pointer names a function");

    // A word of the language names none, and no handler gets to see that.
    let program = guarded(|a| {
        a.text("if").op(tag::MAKE_FN_PTR, &[]);
    });
    let err = run(&program).unwrap_err();
    assert!(matches!(&err.kind, FailureKind::ErrorParsing(word) if word == "if"), "{err:?}");
}

#[test]
fn a_buffer_in_a_cell_is_written_there() {
    // let x = "a"; share x; `${x}b` in x's own cell; x
    let mut a = Asm::new();
    a.text("a").op(tag::DECLARE_LOCAL, &[2]).op(tag::SHARE, &[0]);
    a.op(tag::LOAD_SHARED, &[0]).text("b").op(tag::INTERPOLATE_APPEND, &[]);
    a.op(tag::INTERPOLATE_END, &[]).op(tag::POP, &[]).op(tag::LOAD_LOCAL, &[0]).ret();
    assert_eq!(text_result(&a.finish()), "ab");
}

#[test]
fn a_loop_break_out_of_a_fragment_is_not_caught() {
    let broken = || {
        let kind = FailureKind::LoopBreak(true, Dynamic::unit());
        Answer::plain(Reply::Raised(Error { kind, pos: Position::none() }))
    };
    let engine = Engine::new(1);
    let program = guarded(|a| {
        a.op(tag::EVAL_AST, &[0]);
    });
    let mut vm = Vm::new(&engine);
    vm.answer_with(vec![broken()]);
    let err = vm.eval(&program).unwrap_err();
    assert!(matches!(err.kind, FailureKind::LoopBreak(true, _)));
    assert!(!err.is_catchable() && !err.is_system_exception());

    // A call it leaves says so.
    let mut a = Asm::new();
    a.call(tag::CALL, 0, 0, &[]).ret();
    a.function(0, &[]).op(tag::EVAL_AST, &[0]).ret();
    let mut vm = Vm::new(&engine);
    vm.answer_with(vec![broken()]);
    let err = vm.eval(&a.finish()).unwrap_err();
    assert!(matches!(&err.kind, FailureKind::ErrorInFunctionCall(name, _, _) if name == "f"));
}

#[test]
fn a_declaration_keeps_the_mark_of_its_value() {
    // let x = <a read-only 5>; x = 6
    let mut a = Asm::new();
    a.op(tag::EVAL_AST, &[0]).op(tag::DECLARE_LOCAL, &[2]);
    a.whole(6).op(tag::ASSIGN_LOCAL, &[0, 2]).op(tag::UNIT, &[]).ret();
    let engine = Engine::new(1);
    let mut vm = Vm::new(&engine);
    vm.answer_with(vec![Answer::plain(Reply::Value(int_of(5).into_read_only()))]);
    let mut scope = Scope::new();
    let err = vm.eval_with_scope(&mut scope, &a.finish()).unwrap_err();
    assert!(matches!(&err.kind, FailureKind::ErrorAssignmentToConstant(name) if name == "x"));
}

#[test]
fn rotating_moves_the_top_under() {
    let mut a = Asm::new();
    a.whole(1).whole(2).whole(3).op8(tag::ROTATE, 2, &[]).op(tag::MAKE_ARRAY, &[3]).ret();
    assert_eq!(ints(&run(&a.finish()).unwrap()), vec![3, 1, 2]);
}

#[test]
fn text_is_interpolated() {
    let mut a = Asm::new();
    a.op(tag::INTERPOLATE_START, &[]).text("n=").op(tag::INTERPOLATE_APPEND, &[]);
    a.whole(5).op(tag::INTERPOLATE_APPEND, &[]).op(tag::INTERPOLATE_END, &[]).ret();
    assert_eq!(text_result(&a.finish()), "n=5");
}

// --- elements and chains ----------------------------------------------------

fn row(a: &mut Asm, items: &[i64]) {
    for i in items {
        a.whole(*i);
    }
    a.op(tag::MAKE_ARRAY, &[items.len() as u16]).op(tag::DECLARE_LOCAL, &[2]);
}

#[test]
fn elements_are_reached_by_index_from_both_ends() {
    let element = |at: i64| {
        let mut a = Asm::new();
        row(&mut a, &[10, 20, 30]);
        a.whole(at);
        a.chain(Chain {
            root: Root::Local { slot: 0, name: 2 },
            steps: vec![index(0)],
            operands: 1,
            tail: Tail::Read,
        });
        a.ret();
        a.finish()
    };
    assert_eq!(int_result(&element(1)), 20);
    assert_eq!(int_result(&element(-1)), 30);
    let err = run(&element(3)).unwrap_err();
    assert!(matches!(err.kind, FailureKind::ErrorArrayBounds(3, 3)), "{err:?}");
    let err = run(&element(-4)).unwrap_err();
    assert!(matches!(err.kind, FailureKind::ErrorArrayBounds(3, -4)), "{err:?}");
}

#[test]
fn an_element_is_assigned_in_place() {
    // x[1] += 5; x
    let mut a = Asm::new();
    row(&mut a, &[10, 20, 30]);
    a.whole(1).whole(5);
    a.chains.push(Chain {
        root: Root::Local { slot: 0, name: 2 },
        steps: vec![index(0)],
        operands: 1,
        tail: Tail::Assign { op: Some(0) },
    });
    a.op(tag::CHAIN_DISCARD, &[0]).op(tag::LOAD_LOCAL, &[0]).ret();
    assert_eq!(ints(&run(&a.finish()).unwrap()), vec![10, 25, 30]);
}

#[test]
fn the_short_way_to_an_element_agrees_with_the_chain() {
    let mut a = Asm::new();
    row(&mut a, &[10, 20, 30]);
    a.chains.push(Chain {
        root: Root::Local { slot: 0, name: 2 },
        steps: vec![index(0)],
        operands: 1,
        tail: Tail::Assign { op: None },
    });
    a.chains.push(Chain {
        root: Root::Local { slot: 0, name: 2 },
        steps: vec![index(0)],
        operands: 1,
        tail: Tail::Read,
    });
    // x[2] = 7; x[2]
    a.whole(2).whole(7).op(tag::INDEX_SET, &[0, 0]);
    a.whole(2).op(tag::INDEX_GET, &[1, 0]).ret();
    assert_eq!(int_result(&a.finish()), 7);
}

#[test]
fn a_map_is_reached_by_property() {
    let template = || Dynamic::from_dict(Dict::of(vec![("pub".to_string(), Dynamic::unit())]));
    // let x = #{pub: 4}; x.pub += 1; x.pub
    let mut a = Asm::new();
    a.constant(template()).text("pub").whole(4).op(tag::MAKE_MAP, &[1]);
    a.op(tag::DECLARE_LOCAL, &[2]).whole(1);
    a.chains.push(Chain {
        root: Root::Local { slot: 0, name: 2 },
        steps: vec![property()],
        operands: 0,
        tail: Tail::Assign { op: Some(0) },
    });
    a.op(tag::CHAIN_DISCARD, &[0]);
    a.chain(Chain {
        root: Root::Local { slot: 0, name: 2 },
        steps: vec![property()],
        operands: 0,
        tail: Tail::Read,
    });
    a.ret();
    assert_eq!(int_result(&a.finish()), 5);

    // A property that is not there reads as unit, unless that is an error.
    let missing = || {
        let mut a = Asm::new();
        a.constant(Dynamic::from_dict(Dict::new())).op(tag::DECLARE_LOCAL, &[2]);
        a.chain(Chain {
            root: Root::Local { slot: 0, name: 2 },
            steps: vec![property()],
            operands: 0,
            tail: Tail::Read,
        });
        a.ret();
        a.finish()
    };
    assert!(run(&missing()).unwrap().is_unit());
    let mut engine = Engine::new(1);
    engine.fail_on_invalid_map_property = true;
    let (out, _, _) = run_in(&engine, &missing(), &mut Scope::new());
    let err = out.unwrap_err();
    assert!(matches!(&err.kind, FailureKind::ErrorPropertyNotFound(n) if n == "pub"), "{err:?}");
}

#[test]
fn a_shared_map_in_a_map_is_reached_in_its_cell() {
    let path = || Chain {
        root: Root::Local { slot: 0, name: 2 },
        steps: vec![property(), property()],
        operands: 0,
        tail: Tail::Read,
    };
    // let x = #{pub: <a cell with #{pub: 4} in it>}; x.pub.pub = 9; x.pub.pub
    let mut a = Asm::new();
    a.op(tag::EVAL_AST, &[0]).op(tag::DECLARE_LOCAL, &[2]).whole(9);
    a.chains.push(Chain { tail: Tail::Assign { op: None }, ..path() });
    a.op(tag::CHAIN_DISCARD, &[0]);
    a.chain(path());
    a.ret();
    let program = a.finish();
    let mut cells = Heap::new();
    let shared = cells.share(Dynamic::from_dict(Dict::of(vec![("pub".to_string(), int_of(4))])));
    let outer = Dynamic::from_dict(Dict::of(vec![("pub".to_string(), shared)]));
    let engine = Engine::new(1);
    let mut vm = Vm::new(&engine);
    vm.answer_with(vec![Answer { cells: Some(cells), ..Answer::plain(Reply::Value(outer)) }]);
    assert_eq!(vm.eval(&program).unwrap().as_int(), Ok(9));
    assert!(vm.take_request().is_none(), "the host has no part in it");
    assert!(matches!(
        &vm.heap().read(0).value,
        Union::Dict(map) if map.pairs()[0].1.as_int() == Ok(9)
    ));
}

#[test]
fn a_method_is_found_by_the_type_in_its_receivers_cell() {
    // let x = #{pub: <a cell with 4 in it>}; x.pub.f(), with `fn i64.f() { this }`
    let mut a = Asm::new();
    a.op(tag::EVAL_AST, &[0]).op(tag::DECLARE_LOCAL, &[2]);
    a.chain(Chain {
        root: Root::Local { slot: 0, name: 2 },
        steps: vec![
            property(),
            Step::Method { name: 0, argc: 0, operand: 0, skip: false, pos: Position::none() },
        ],
        operands: 0,
        tail: Tail::Read,
    });
    a.ret();
    a.function(0, &[]).op(tag::LOAD_THIS, &[]).ret();
    let mut program = a.finish();
    program.names.push("i64".to_string());
    program.functions[0].this_type = Some(NAMES.len() as u32);
    program.functions[0].takes_this = true;
    let mut cells = Heap::new();
    let shared = cells.share(int_of(4));
    let outer = Dynamic::from_dict(Dict::of(vec![("pub".to_string(), shared)]));
    let engine = Engine::new(1);
    let mut vm = Vm::new(&engine);
    vm.answer_with(vec![Answer { cells: Some(cells), ..Answer::plain(Reply::Value(outer)) }]);
    assert_eq!(vm.eval(&program).unwrap().as_int(), Ok(4));
}

#[test]
fn a_declined_assignment_leaves_the_stack_to_its_chain() {
    // x[..] = .. with nothing on the stack, and a chain that takes one operand.
    let mut a = Asm::new();
    a.whole(1).op(tag::DECLARE_LOCAL, &[2]);
    a.chains.push(Chain {
        root: Root::Local { slot: 0, name: 2 },
        steps: vec![property()],
        operands: 0,
        tail: Tail::Assign { op: None },
    });
    a.op(tag::INDEX_SET, &[0, 0]).op(tag::UNIT, &[]).ret();
    let err = run(&a.finish()).unwrap_err();
    assert!(format!("{:?}", err.kind).contains("chain with too few operands"), "{err:?}");
}

#[test]
fn nested_elements_are_written_where_they_are() {
    // let x = [[1, 2], [3]]; x[0][1] = 9; x[0][1]
    let mut a = Asm::new();
    a.whole(1).whole(2).op(tag::MAKE_ARRAY, &[2]);
    a.whole(3).op(tag::MAKE_ARRAY, &[1]).op(tag::MAKE_ARRAY, &[2]).op(tag::DECLARE_LOCAL, &[2]);
    a.whole(0).whole(1).whole(9);
    a.chains.push(Chain {
        root: Root::Local { slot: 0, name: 2 },
        steps: vec![index(0), index(1)],
        operands: 2,
        tail: Tail::Assign { op: None },
    });
    a.op(tag::CHAIN_DISCARD, &[0]).whole(0).whole(1);
    a.chain(Chain {
        root: Root::Local { slot: 0, name: 2 },
        steps: vec![index(0), index(1)],
        operands: 2,
        tail: Tail::Read,
    });
    a.ret();
    assert_eq!(int_result(&a.finish()), 9);
}

// --- entering from outside --------------------------------------------------

#[test]
fn a_function_is_called_after_the_body_ran() {
    let mut a = Asm::new();
    a.whole(1).op(tag::DECLARE_LOCAL, &[2]).op(tag::UNIT, &[]).ret();
    a.function(0, &["y"]).op(tag::LOAD_LOCAL, &[0]).whole(2).binary(BinOpKind::Multiply).ret();
    let program = a.finish();
    let engine = Engine::new(1);
    let mut vm = Vm::new(&engine);
    let mut scope = Scope::new();
    let out = vm.call_fn(&mut scope, &program, "f", vec![int_of(21)], Output::Int);
    assert_eq!(out.unwrap().as_int(), Ok(42));
    assert!(scope.is_empty(), "the scope is cut back");

    let options = CallFnOptions { rewind_scope: false, ..CallFnOptions::new() };
    let args = vec![int_of(21)];
    vm.call_fn_with_options(options, &mut None, &mut scope, &program, "f", args, Output::Int)
        .unwrap();
    assert!(!scope.is_empty(), "unless that is not wanted");

    let out = vm.call_fn(&mut scope, &program, "f", vec![int_of(21)], Output::Bool);
    assert!(matches!(
        &out.unwrap_err().kind,
        FailureKind::ErrorMismatchOutputType(want, got) if want == "bool" && got == "i64"
    ));
    let out = vm.call_fn(&mut scope, &program, "f", Vec::new(), Output::Any);
    assert!(matches!(
        &out.unwrap_err().kind,
        FailureKind::ErrorFunctionNotFound(text) if text == "f (0 args)"
    ));
    assert_eq!(vm.fault_pc(), None, "nothing ran, so nothing failed inside");
}

#[test]
fn the_scope_is_cut_back_however_a_call_ends() {
    // A body that declares a variable and then throws from a block.
    let mut a = Asm::new();
    a.whole(1).op(tag::DECLARE_LOCAL, &[2]).op(tag::CHECKPOINT, &[]);
    a.whole(2).op(tag::DECLARE_LOCAL, &[3]).whole(3).op(tag::THROW, &[]);
    a.function(0, &[]).op(tag::UNIT, &[]).ret();
    let program = a.finish();
    let engine = Engine::new(1);
    let mut vm = Vm::new(&engine);
    let mut scope = Scope::new();
    assert!(vm.call_fn(&mut scope, &program, "f", Vec::new(), Output::Any).is_err());
    assert!(scope.is_empty());

    let options = CallFnOptions { rewind_scope: false, ..CallFnOptions::new() };
    let out = vm
        .call_fn_with_options(options, &mut None, &mut scope, &program, "f", Vec::new(), Output::Any);
    assert!(out.is_err());
    assert_eq!(scope.len(), 1, "what was declared before the block is kept");

    // A function that fails, and none of that name.
    let mut a = Asm::new();
    a.whole(1).op(tag::DECLARE_LOCAL, &[2]).op(tag::UNIT, &[]).ret();
    a.function(0, &[]).whole(3).op(tag::THROW, &[]);
    let program = a.finish();
    let mut scope = Scope::new();
    for name in ["f", "g"] {
        assert!(vm.call_fn(&mut scope, &program, name, Vec::new(), Output::Any).is_err());
        assert!(scope.is_empty(), "{name}");
    }
}

#[test]
fn going_back_runs_out_of_operations() {
    let mut engine = Engine::new(1);
    engine.max_operations = 3;
    let mut a = Asm::new();
    let start = a.label();
    a.here(start).jump(tag::JUMP, start);
    let mut vm = Vm::new(&engine);
    let err = vm.eval(&a.finish()).unwrap_err();
    assert!(matches!(err.kind, FailureKind::ErrorTooManyOperations));
    assert_eq!(vm.fault_pc(), Some(0));
}

#[test]
fn the_four_ways_to_evaluate_agree() {
    let mut a = Asm::new();
    a.whole(2).whole(3).binary(BinOpKind::Add).ret();
    let program = a.finish();
    let engine = Engine::new(1);
    let mut vm = Vm::new(&engine);
    assert_eq!(vm.eval(&program).unwrap().as_int(), Ok(5));
    assert_eq!(vm.eval_with_scope(&mut Scope::new(), &program).unwrap().as_int(), Ok(5));
    assert_eq!(vm.eval_with_callbacks(&mut Scope::new(), &program).unwrap().as_int(), Ok(5));
    assert!(vm.run(&program).is_ok());
    assert!(vm.run_with_scope(&mut Scope::new(), &program).is_ok());
    let mut bad = Asm::new();
    bad.whole(1).whole(0).op(tag::THROW, &[]);
    let bad = bad.finish();
    assert!(vm.run(&bad).is_err());
    assert_eq!(vm.fault_pc(), Some(6));
    assert!(vm.eval(&program).is_ok());
    assert!(vm.fault_trace().is_empty(), "a run starts its trace over");
}

#[test]
fn a_debugger_hears_of_statements_functions_and_the_end() {
    let mut engine = Engine::new(1);
    engine.debugger = true;
    let mut a = Asm::new();
    a.op(tag::STATEMENT, &[0]).call(tag::CALL, 0, 0, &[]).ret();
    a.function(0, &[]).op(tag::STATEMENT, &[0]).whole(1).ret();
    let (out, _, asked) = run_in(&engine, &a.finish(), &mut Scope::new());
    assert_eq!(out.unwrap().as_int(), Ok(1));
    let kinds: Vec<&str> = asked.iter().map(|a| a.split([' ', '{']).next().unwrap()).collect();
    assert_eq!(kinds, vec!["Statement", "Statement", "FunctionExit", "End"], "{asked:?}");
}

#[test]
fn a_step_over_a_call_stops_again_after_it() {
    let mut engine = Engine::new(1);
    engine.debugger = true;
    // two statements around a call whose body has one of its own
    let mut a = Asm::new();
    a.op(tag::STATEMENT, &[0]).call(tag::CALL, 0, 0, &[]).op(tag::POP, &[]);
    a.op(tag::STATEMENT, &[0]).op(tag::UNIT, &[]).ret();
    a.function(0, &[]).op(tag::STATEMENT, &[0]).whole(1).ret();
    let program = a.finish();

    let quiet = Status::Next(false, false);
    let over = Status::Next(true, false);
    let mut seen: Vec<(Status, usize)> = Vec::new();
    let mut answers: Vec<Answer> = Vec::new();
    loop {
        let mut vm = Vm::new(&engine);
        vm.answer_with(answers.iter().map(copy_answer).collect());
        let out = vm.eval(&program);
        let Some(request) = vm.take_request() else {
            assert!(out.unwrap().is_unit());
            break;
        };
        let reply = match request.ask {
            Ask::Statement { status, level } => {
                seen.push((status, level));
                if level > 0 {
                    assert_eq!(request.calls.len(), 1);
                    assert_eq!(request.calls[0].name, "f");
                    Reply::Debug { status, later: None }
                } else {
                    // Stay quiet until this statement has ended.
                    Reply::Debug { status: quiet, later: Some(over) }
                }
            }
            Ask::End => Reply::Nothing,
            other => panic!("nobody waits for {other:?}"),
        };
        answers.push(Answer::plain(reply));
    }
    assert_eq!(seen, vec![(Status::Init, 0), (quiet, 1), (over, 0)]);
}

#[test]
fn a_step_out_stops_where_its_function_ends() {
    let mut engine = Engine::new(1);
    engine.debugger = true;
    let mut a = Asm::new();
    a.call(tag::CALL, 0, 0, &[]).ret();
    a.function(0, &[]).op(tag::STATEMENT, &[0]).call(tag::CALL, 1, 0, &[]).ret();
    a.function(1, &[]).whole(5).ret();
    let program = a.finish();
    for (status, exits) in [
        (Status::FunctionExit(1), vec![1]),
        (Status::FunctionExit(2), vec![2, 1]),
        (Status::Next(true, false), vec![]),
    ] {
        let mut levels: Vec<usize> = Vec::new();
        let mut answers: Vec<Answer> = Vec::new();
        loop {
            let mut vm = Vm::new(&engine);
            vm.answer_with(answers.iter().map(copy_answer).collect());
            let out = vm.eval(&program);
            let Some(request) = vm.take_request() else {
                assert_eq!(out.unwrap().as_int(), Ok(5));
                break;
            };
            let reply = match request.ask {
                Ask::Statement { .. } => Reply::Debug { status, later: None },
                Ask::FunctionExit { failed } => {
                    assert!(!failed);
                    assert_eq!(request.operands[0].as_int(), Ok(5));
                    // The function that ends is still listed.
                    levels.push(request.calls.len());
                    Reply::Nothing
                }
                _ => Reply::Nothing,
            };
            answers.push(Answer::plain(reply));
        }
        assert_eq!(levels, exits, "{status:?}");
    }
}

#[test]
fn a_range_that_a_module_iterates_its_own_way_is_the_hosts() {
    let mut engine = Engine::new(1);
    engine.ranges = vec![None, Some(false), Some(true)];
    let (out, _, asked) = run_in(&engine, &range_loop(false), &mut Scope::new());
    assert!(matches!(out.unwrap_err().kind, FailureKind::ErrorFor));
    assert_eq!(asked, vec!["Iterate ".to_string()]);
    engine.ranges = vec![None];
    engine.sub_ranges = vec![Some(true)];
    let (out, _, asked) = run_in(&engine, &range_loop(false), &mut Scope::new());
    assert_eq!(out.unwrap().as_int(), Ok(6));
    assert!(asked.is_empty());
}
