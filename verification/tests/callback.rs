//! Crossings: functions called back from inside host functions, and what one
//! crossing lends the next.
use std::cell::RefCell;

use grain_vm::arith::BinOpKind;
use grain_vm::callback::{call_pointer, invoke, wrappers, Context, Crossings, Warm, MAX_PARAMS};
use grain_vm::engine::Engine;
use grain_vm::error::{Error, FailureKind};
use grain_vm::host::{Answer, Ask, HostRequest, Reply};
use grain_vm::machine::Vm;
use grain_vm::position::Position;
use grain_vm::program::{AssignOp, Chain, Chunk, Function, Program, Root, Step, Tail};
use grain_vm::scope::Scope;
use grain_vm::tag;
use grain_vm::value::{clone_value, Dynamic, FnPtr, FnPtrType, Union};

fn op(tag: u8, words: &[u16]) -> Vec<u8> {
    let mut bytes = vec![tag];
    for w in words {
        bytes.extend_from_slice(&w.to_le_bytes());
    }
    bytes
}

fn call_op(name: u16, argc: u8) -> Vec<u8> {
    let mut bytes = op(tag::CALL, &[name]);
    bytes.push(argc);
    bytes
}

fn jump(tag: u8, target: u32) -> Vec<u8> {
    let mut bytes = vec![tag];
    bytes.extend_from_slice(&target.to_le_bytes());
    bytes
}

fn fused(tag: u8, name: u16, kind: BinOpKind, sources: &[u16]) -> Vec<u8> {
    let mut bytes = vec![tag];
    bytes.extend_from_slice(&name.to_le_bytes());
    bytes.push(kind as u8);
    bytes.extend_from_slice(&0u16.to_le_bytes());
    for s in sources {
        bytes.extend_from_slice(&s.to_le_bytes());
    }
    bytes
}

fn whole(i: i64) -> Dynamic {
    Dynamic::from_int(i)
}

fn texts(names: &[&str]) -> Vec<String> {
    names.iter().map(|n| n.to_string()).collect()
}

fn function(name: u32, params: &[&str], code: &mut Vec<u8>, body: &[Vec<u8>]) -> Function {
    let entry = code.len() as u32;
    code.extend_from_slice(&body.concat());
    Function {
        name,
        param_names: texts(params),
        this_type: None,
        takes_this: false,
        chunk: Chunk { entry, end: code.len() as u32 },
    }
}

fn empty_program() -> Program {
    Program {
        id: 1,
        code: Vec::new(),
        names: Vec::new(),
        constants: Vec::new(),
        tokens: Vec::new(),
        assign_ops: Vec::new(),
        chains: Vec::new(),
        switches: Vec::new(),
        functions: Vec::new(),
        residuals: 0,
        positions: Vec::new(),
        main: Chunk { entry: 0, end: 0 },
        max_stack: 8,
        source: None,
        lib: None,
        resolver: None,
    }
}

/// The code of a source.
fn compile(source: &str) -> Program {
    let ret = || op(tag::RETURN, &[]);
    match source {
        "|x| x * 2" => {
            let mut code = [op(tag::MAKE_CLOSURE, &[0]), ret()].concat();
            let f = function(
                0,
                &["x"],
                &mut code,
                &[fused(tag::BIN_OP_FROM_CONST, 1, BinOpKind::Multiply, &[0, 0]), ret()],
            );
            Program {
                code,
                names: texts(&["anon$0001", "*"]),
                tokens: texts(&["*"]),
                constants: vec![whole(2)],
                functions: vec![f],
                ..empty_program()
            }
        }
        "fn f(x) { x * 2 }" => {
            let mut code = [op(tag::UNIT, &[]), ret()].concat();
            let f = function(
                0,
                &["x"],
                &mut code,
                &[fused(tag::BIN_OP_FROM_CONST, 1, BinOpKind::Multiply, &[0, 0]), ret()],
            );
            Program {
                code,
                names: texts(&["f", "*"]),
                tokens: texts(&["*"]),
                constants: vec![whole(2)],
                functions: vec![f],
                ..empty_program()
            }
        }
        "fn f(x) { abs(0 - x - 1) }" => {
            let mut code = [op(tag::UNIT, &[]), ret()].concat();
            let f = function(
                0,
                &["x"],
                &mut code,
                &[
                    op(tag::CONST, &[0]),
                    fused(tag::BIN_OP_RHS_LOCAL, 1, BinOpKind::Subtract, &[0]),
                    fused(tag::BIN_OP_RHS_CONST, 1, BinOpKind::Subtract, &[1]),
                    call_op(2, 1),
                    ret(),
                ],
            );
            Program {
                code,
                names: texts(&["f", "-", "abs"]),
                tokens: texts(&["-"]),
                constants: vec![whole(0), whole(1)],
                functions: vec![f],
                ..empty_program()
            }
        }
        "fn f(x) { let a = [x, x + 1]; let t = x; for i in a { t += i; } t }" => {
            // x in slot 0, a in 1, t in 2, i in 3
            let mut code = [op(tag::UNIT, &[]), ret()].concat();
            let head = [
                op(tag::LOAD_LOCAL, &[0]),
                fused(tag::BIN_OP_FROM_CONST, 1, BinOpKind::Add, &[0, 0]),
                op(tag::MAKE_ARRAY, &[2]),
                op(tag::DECLARE_LOCAL, &[2]),
                op(tag::LOAD_LOCAL, &[0]),
                op(tag::DECLARE_LOCAL, &[3]),
                op(tag::UNIT, &[]),
                op(tag::DECLARE_LOCAL, &[4]),
                op(tag::LOAD_LOCAL, &[1]),
                op(tag::ITER_INIT, &[]),
            ]
            .concat();
            let body = [
                op(tag::STORE_LOCAL, &[3]),
                op(tag::ASSIGN_LOCAL_FROM_OP, &[2, 3, 3, 0]),
            ]
            .concat();
            let start = code.len() + head.len();
            let first = start + jump(tag::JUMP, 0).len();
            let turn = first + body.len();
            let f = function(
                0,
                &["x"],
                &mut code,
                &[
                    head,
                    jump(tag::JUMP, turn as u32),
                    body,
                    jump(tag::ITER_NEXT, first as u32),
                    op(tag::LOAD_LOCAL, &[2]),
                    ret(),
                ],
            );
            Program {
                code,
                names: texts(&["f", "+", "a", "t", "i", "+="]),
                tokens: texts(&["+"]),
                constants: vec![whole(1)],
                assign_ops: vec![AssignOp {
                    kind: Some(BinOpKind::Add),
                    op_assign_name: 5,
                    op_name: 1,
                }],
                functions: vec![f],
                ..empty_program()
            }
        }
        "let a = [1]; a.map(|x| || 7)" => {
            let mut code = [
                op(tag::CONST, &[0]),
                op(tag::MAKE_ARRAY, &[1]),
                op(tag::DECLARE_LOCAL, &[2]),
                op(tag::MAKE_CLOSURE, &[0]),
                op(tag::CHAIN, &[0]),
                ret(),
            ]
            .concat();
            let outer =
                function(0, &["x"], &mut code, &[op(tag::MAKE_CLOSURE, &[1]), ret()]);
            let inner = function(1, &[], &mut code, &[op(tag::CONST, &[1]), ret()]);
            Program {
                code,
                names: texts(&["anon$0001", "anon$0002", "a", "map"]),
                constants: vec![whole(1), whole(7)],
                chains: vec![Chain {
                    root: Root::Local { slot: 0, name: 2 },
                    steps: vec![Step::Method {
                        name: 3,
                        argc: 1,
                        operand: 0,
                        skip: false,
                        pos: Position::none(),
                    }],
                    operands: 1,
                    tail: Tail::Read,
                }],
                functions: vec![outer, inner],
                ..empty_program()
            }
        }
        other => panic!("no code for `{other}`"),
    }
}

/// A host with `abs`, `map` and iteration over arrays.
struct Host<'p> {
    program: &'p Program,
    engine: &'p Engine,
    pool: RefCell<Crossings>,
    /// The arrays being iterated over, and how many items each has given.
    loops: RefCell<Vec<(Vec<Dynamic>, usize)>>,
}

impl<'p> Host<'p> {
    fn new(program: &'p Program, engine: &'p Engine) -> Host<'p> {
        Host {
            program,
            engine,
            pool: RefCell::new(Crossings::new()),
            loops: RefCell::new(Vec::new()),
        }
    }

    fn answer(&self, request: &HostRequest) -> Answer {
        let operands = &request.operands;
        match (request.ask, request.name.as_str()) {
            (Ask::Dispatch { .. }, "abs") => {
                Answer::plain(Reply::Value(whole(operands[0].as_int().unwrap().abs())))
            }
            (Ask::Dispatch { .. }, "map") => {
                let (items, pointer) = match (&operands[0].value, &operands[1].value) {
                    (Union::Array(items), Union::FnPtr(pointer)) => (items, pointer),
                    other => panic!("cannot map {other:?}"),
                };
                let out = items.iter().map(|item| self.call_back(pointer, item)).collect();
                let operands = operands.iter().map(clone_value).collect();
                Answer { operands, ..Answer::plain(Reply::Value(Dynamic::from_array(out))) }
            }
            (Ask::Iterate, _) => {
                let items = match &operands[0].value {
                    Union::Array(items) => items.iter().map(clone_value).collect(),
                    other => panic!("cannot iterate over {other:?}"),
                };
                let mut loops = self.loops.borrow_mut();
                loops.push((items, 0));
                Answer::plain(Reply::Handle(loops.len() as u64 - 1, false))
            }
            (Ask::NextItem { handle }, _) => {
                let mut loops = self.loops.borrow_mut();
                let (items, given) = &mut loops[handle as usize];
                *given += 1;
                Answer::plain(match items.get(*given - 1) {
                    Some(item) => Reply::Value(clone_value(item)),
                    None => Reply::Nothing,
                })
            }
            _ => Answer::plain(Reply::Nothing),
        }
    }

    fn call_back(&self, pointer: &FnPtr, item: &Dynamic) -> Dynamic {
        let index = match pointer.typ {
            FnPtrType::Native { index, .. } => index,
            FnPtrType::Normal => panic!("the pointer carries no body"),
        };
        let context = Context { pooled: true, ..Context::new(self.engine, Position::none()) };
        let mut args = vec![clone_value(item)];
        let crossed = call_pointer(
            self.program,
            index,
            &pointer.name,
            context,
            &mut args,
            &mut self.pool.borrow_mut(),
        );
        // The element the native handed over is still its own.
        assert_eq!(args[0].as_int(), item.as_int());
        crossed.result.expect("the callback runs")
    }
}

fn copy_reply(reply: &Reply<Dynamic, Error>) -> Reply<Dynamic, Error> {
    match reply {
        Reply::Value(v) => Reply::Value(clone_value(v)),
        Reply::Nothing => Reply::Nothing,
        Reply::Handle(handle, context) => Reply::Handle(*handle, *context),
        Reply::Debug { status, later } => Reply::Debug { status: *status, later: *later },
        Reply::Raised(err) => panic!("no host here raises {err:?}"),
    }
}

fn copy_answer(answer: &Answer) -> Answer {
    Answer {
        reply: copy_reply(&answer.reply),
        operands: answer.operands.iter().map(clone_value).collect(),
        scope: None,
        cells: None,
        operations: answer.operations,
    }
}

/// The value a source runs to, with its pointers able to be called back.
fn value_of(source: &str) -> Dynamic {
    let engine = Engine::new(1);
    let program = compile(source);
    assert_eq!(
        program.residual_count(),
        0,
        "`{source}` still fragments, so the pointer is not ours to hand out",
    );
    let host = Host::new(&program, &engine);
    let mut answers: Vec<Answer> = Vec::new();
    loop {
        let mut vm = Vm::new(&engine);
        vm.answer_with(answers.iter().map(copy_answer).collect());
        let out = vm.eval_with_callbacks(&mut Scope::new(), &program);
        match vm.take_request() {
            Some(request) => answers.push(host.answer(&request)),
            None => return out.unwrap(),
        }
    }
}

fn carries_its_body(value: &Dynamic) -> bool {
    match &value.value {
        Union::FnPtr(pointer) => matches!(pointer.typ, FnPtrType::Native { .. }),
        other => panic!("a function pointer, not {other:?}"),
    }
}

#[test]
fn a_closure_is_handed_out_carrying_its_body() {
    assert!(carries_its_body(&value_of("|x| x * 2")));
}

/// One function called the way a crossing calls it, over and over, with the
/// parts of each call handed to the next.
fn crossings(source: &str, name: &str, times: usize, carry: bool) -> (Vec<u64>, Warm) {
    let engine = Engine::new(1);
    let program = compile(source);
    let index = program
        .functions
        .iter()
        .find(|function| program.name(function.name) == Some(name))
        .expect("the source declares it")
        .name;

    let mut generations = Vec::new();
    let mut warm = Warm::new();
    // What the calls before left behind, for a run that stops to ask and
    // starts over.
    let mut replay: Vec<Vec<Answer>> = Vec::new();
    for turn in 0..times {
        let host = Host::new(&program, &engine);
        let mut answers: Vec<Answer> = Vec::new();
        loop {
            // Start over from the same parts.
            warm = rebuild(&engine, &program, index, name, &replay, carry);
            let mut context = Context::new(&engine, Position::none());
            let mut queue: Vec<Answer> = answers.iter().map(copy_answer).collect();
            queue.reverse();
            context.answers = queue;
            let mut vm = Vm::reentrant_from(context, warm);
            let out = vm.call_function_at(
                &program,
                index,
                name,
                vec![whole(turn as i64)],
                0,
                Position::none(),
            );
            if let Some(request) = vm.take_request() {
                answers.push(host.answer(&request));
                continue;
            }
            out.expect("the chunk runs");
            generations.push(vm.last_generation());
            warm = vm.cool();
            break;
        }
        replay.push(answers);
        if !carry {
            warm = Warm::new();
            replay.clear();
        }
    }
    (generations, warm)
}

/// The parts that these calls, one after the other, leave.
fn rebuild(
    engine: &Engine,
    program: &Program,
    index: u32,
    name: &str,
    replay: &[Vec<Answer>],
    carry: bool,
) -> Warm {
    let mut warm = Warm::new();
    if !carry {
        return warm;
    }
    for (turn, answers) in replay.iter().enumerate() {
        let mut context = Context::new(engine, Position::none());
        let mut queue: Vec<Answer> = answers.iter().map(copy_answer).collect();
        queue.reverse();
        context.answers = queue;
        let mut vm = Vm::reentrant_from(context, warm);
        let values = vec![whole(turn as i64)];
        vm.call_function_at(program, index, name, values, 0, Position::none())
            .expect("the chunk runs");
        warm = vm.cool();
    }
    warm
}

#[test]
fn a_carried_memo_never_sees_a_generation_twice() {
    let source = "fn f(x) { x * 2 }";
    let (carried, ..) = crossings(source, "f", 4, true);
    let (cold, ..) = crossings(source, "f", 4, false);

    assert!(carried.windows(2).all(|pair| pair[0] < pair[1]), "{carried:?}");
    assert_eq!(cold, vec![cold[0]; cold.len()], "{cold:?}");
}

#[test]
fn a_crossing_hands_on_the_resolution_cache_it_filled() {
    assert_eq!(Warm::new().caches(), 0);
    let (.., warm) = crossings("fn f(x) { abs(0 - x - 1) }", "f", 2, true);
    assert_eq!(warm.caches(), 1);
}

#[test]
fn a_cache_filled_against_one_engine_is_not_lent_to_another() {
    let (.., warm) = crossings("fn f(x) { abs(0 - x - 1) }", "f", 2, true);
    assert_eq!(warm.caches(), 1);

    let elsewhere = Engine::new(2);
    let context = Context::new(&elsewhere, Position::none());
    let vm = Vm::reentrant_from(context, warm);
    assert_eq!(vm.caches(), 0);
}

#[test]
fn a_cache_is_lent_where_the_same_is_searched() {
    let (.., warm) = crossings("fn f(x) { abs(0 - x - 1) }", "f", 1, true);
    let engine = Engine::new(1);
    let vm = Vm::reentrant_from(Context::new(&engine, Position::none()), warm);
    assert_eq!(vm.caches(), 1);

    // Another library is another search.
    let (.., warm) = crossings("fn f(x) { abs(0 - x - 1) }", "f", 1, true);
    let mut context = Context::new(&engine, Position::none());
    context.lib = vec![7];
    assert_eq!(Vm::reentrant_from(context, warm).caches(), 0);
}

#[test]
fn a_crossing_hands_on_no_values() {
    let source = "fn f(x) { let a = [x, x + 1]; let t = x; for i in a { t += i; } t }";
    let (.., warm) = crossings(source, "f", 3, true);
    assert!(warm.holds_nothing());
}

#[test]
fn a_closure_made_inside_a_callback_carries_its_body_too() {
    let value = value_of("let a = [1]; a.map(|x| || 7)");
    match &value.value {
        Union::Array(items) => assert!(carries_its_body(&items[0])),
        other => panic!("an array, not {other:?}"),
    }
}

#[test]
fn a_loop_over_a_hosts_items_adds_them_up() {
    // 5 + (5 + 6)
    let source = "fn f(x) { let a = [x, x + 1]; let t = x; for i in a { t += i; } t }";
    let engine = Engine::new(1);
    let program = compile(source);
    let host = Host::new(&program, &engine);
    let mut answers: Vec<Answer> = Vec::new();
    loop {
        let mut vm = Vm::new(&engine);
        vm.answer_with(answers.iter().map(copy_answer).collect());
        let out = vm.call_function(&program, "f", vec![whole(5)], 0, Position::none());
        match vm.take_request() {
            Some(request) => answers.push(host.answer(&request)),
            None => {
                assert_eq!(out.unwrap().as_int(), Ok(16));
                assert_eq!(vm.depth(), 0);
                return;
            }
        }
    }
}

#[test]
fn a_call_of_the_wrong_arity_names_the_function() {
    let engine = Engine::new(1);
    let program = compile("fn f(x) { x * 2 }");
    let mut pool = Crossings::new();
    let pos = Position { line: 3, column: 4 };
    let context = Context::new(&engine, pos);
    let crossed = invoke(&program, 0, "f", context, Vec::new(), &mut pool);
    let err = crossed.result.unwrap_err();
    assert!(
        matches!(&err.kind, FailureKind::ErrorFunctionNotFound(text) if text == "f (0 args)"),
        "{err:?}"
    );
    assert_eq!(err.pos, pos);
}

#[test]
fn a_reentrant_machine_inherits_nothing() {
    let engine = Engine::new(1);
    let program = compile("fn f(x) { x * 2 }");
    let mut vm = Vm::reentrant(Context::new(&engine, Position::none()));
    assert_eq!(vm.caches(), 0);
    assert_eq!(vm.last_generation(), 0);
    let out = vm.call_function(&program, "f", vec![whole(21)], 0, Position::none());
    assert_eq!(out.unwrap().as_int(), Ok(42));
    assert_eq!(vm.last_generation(), 1);
}

#[test]
fn wrappers_leave_out_what_cannot_be_found() {
    let mut program = compile("fn f(x) { x * 2 }");
    let wide: Vec<String> = (0..=MAX_PARAMS).map(|i| format!("p{i}")).collect();
    let plain = |name: u32, params: Vec<String>, takes_this: bool| Function {
        name,
        param_names: params,
        this_type: None,
        takes_this,
        chunk: Chunk { entry: 0, end: 0 },
    };
    program.functions.push(plain(1, wide, false));
    program.functions.push(plain(1, Vec::new(), true));
    program.functions.push(plain(99, Vec::new(), false));
    let list = wrappers(&program);
    assert_eq!(list.len(), 1);
    assert_eq!((list[0].index, list[0].name.as_str(), list[0].arity), (0, "f", 1));
}

#[test]
fn a_pointer_hands_over_a_copy_of_its_first_argument_only() {
    let engine = Engine::new(1);
    let program = compile("fn f(x) { x * 2 }");
    let mut pool = Crossings::new();
    let context = Context { pooled: true, ..Context::new(&engine, Position::none()) };
    let mut args = vec![whole(4)];
    let crossed = call_pointer(&program, 0, "f", context, &mut args, &mut pool);
    assert_eq!(crossed.result.unwrap().as_int(), Ok(8));
    assert_eq!(args[0].as_int(), Ok(4));
    // What the crossing finished with is in the pool, and is lent once.
    let lent = pool.take(true);
    assert!(lent.holds_nothing());
    assert_eq!(pool.take(true).caches(), 0);

    let context = Context::new(&engine, Position::none());
    let mut args = vec![whole(4), whole(5)];
    let crossed = call_pointer(&program, 0, "f", context, &mut args, &mut pool);
    assert!(crossed.result.is_err());
    assert_eq!(args[0].as_int(), Ok(4));
    assert!(args[1].is_unit());
}
