//! Programs entered from outside: receivers, chains, calls by reference and
//! loops.
use grain_vm::arith::BinOpKind;
use grain_vm::engine::Engine;
use grain_vm::error::{Error, FailureKind};
use grain_vm::host::{Answer, Ask, HostRequest, Reply};
use grain_vm::machine::Vm;
use grain_vm::position::Position;
use grain_vm::program::{Chain, Chunk, Function, Program, Root, Step, Tail};
use grain_vm::scope::Scope;
use grain_vm::stack::{operand_ref, operand_slot, set_operand, OperandSlot};
use grain_vm::tag;
use grain_vm::value::{clone_value, Dynamic, Union};
use grain_vm::vm::{CallFnOptions, Output};

// --- assembling -------------------------------------------------------------

/// One instruction as bytes: its tag, then its operands.
fn op(tag: u8, words: &[u16]) -> Vec<u8> {
    let mut bytes = vec![tag];
    for w in words {
        bytes.extend_from_slice(&w.to_le_bytes());
    }
    bytes
}

/// A call by name.
fn call_op(name: u16, argc: u8) -> Vec<u8> {
    let mut bytes = op(tag::CALL, &[name]);
    bytes.push(argc);
    bytes
}

/// A call by reference on the receiver.
fn call_this_ref(name: u16, argc: u8) -> Vec<u8> {
    let mut bytes = op(tag::CALL_THIS_REF, &[name]);
    bytes.push(argc);
    bytes
}

fn jump(tag: u8, target: u32) -> Vec<u8> {
    let mut bytes = vec![tag];
    bytes.extend_from_slice(&target.to_le_bytes());
    bytes
}

/// A fused operator: name, kind, token, then its sources and its branch.
fn fused(tag: u8, name: u16, kind: u8, token: u16, sources: &[u16], branch: Option<u32>) -> Vec<u8> {
    let mut bytes = vec![tag];
    bytes.extend_from_slice(&name.to_le_bytes());
    bytes.push(kind);
    bytes.extend_from_slice(&token.to_le_bytes());
    for s in sources {
        bytes.extend_from_slice(&s.to_le_bytes());
    }
    if let Some(target) = branch {
        bytes.extend_from_slice(&target.to_le_bytes());
    }
    bytes
}

fn join(ops: &[Vec<u8>]) -> Vec<u8> {
    ops.concat()
}

fn empty_program() -> Program {
    Program {
        id: 1,
        code: Vec::new(),
        names: Vec::new(),
        constants: Vec::new(),
        tokens: Vec::new(),
        assign_ops: Vec::new(),
        chains: Vec::new(),
        switches: Vec::new(),
        functions: Vec::new(),
        residuals: 0,
        positions: Vec::new(),
        main: Chunk { entry: 0, end: 0 },
        max_stack: 8,
        source: None,
        lib: None,
        resolver: None,
    }
}

/// A program of functions named `f` upwards in the order given. The main chunk
/// does nothing. Name indices are positions in `NAMES`.
fn program_with(
    bodies: &[Vec<Vec<u8>>],
    constants: Vec<Dynamic>,
    chains: Vec<Chain>,
    residuals: u32,
) -> Program {
    const NAMES: [&str; 4] = ["f", "g", "push", "len"];

    let mut code = join(&[op(tag::UNIT, &[]), op(tag::RETURN, &[])]);
    let mut functions = Vec::new();
    for (index, body) in bodies.iter().enumerate() {
        let entry = code.len() as u32;
        code.extend_from_slice(&join(body));
        functions.push(Function {
            name: index as u32,
            param_names: Vec::new(),
            this_type: None,
            takes_this: false,
            chunk: Chunk { entry, end: code.len() as u32 },
        });
    }
    Program {
        code,
        names: NAMES.iter().map(|n| n.to_string()).collect(),
        constants,
        chains,
        functions,
        residuals,
        ..empty_program()
    }
}

fn one(body: Vec<Vec<u8>>, constants: Vec<Dynamic>) -> Program {
    program_with(&[body], constants, Vec::new(), 0)
}

fn whole(i: i64) -> Dynamic {
    Dynamic::from_int(i)
}

fn array(items: &[i64]) -> Dynamic {
    Dynamic::from_array(items.iter().map(|i| whole(*i)).collect())
}

fn ints(value: &Dynamic) -> Vec<i64> {
    match &value.value {
        Union::Array(items) => items.iter().map(|v| v.as_int().unwrap()).collect(),
        other => panic!("still an array, not {other:?}"),
    }
}

fn method(name: u32, argc: u8, skip: bool) -> Step {
    Step::Method { name, argc, operand: 0, skip, pos: Position::none() }
}

fn chain(root: Root, steps: Vec<Step>, operands: u16) -> Chain {
    Chain { root, steps, operands, tail: Tail::Read }
}

fn root_this() -> Root {
    Root::This { pos: Position::none() }
}

// --- a host -----------------------------------------------------------------

/// What a small host says: it has `push` for arrays and reads the receiver for
/// a fragment that is nothing but `this`.
fn answer(request: &HostRequest) -> Answer {
    let mut operands: Vec<Dynamic> = request.operands.iter().map(clone_value).collect();
    match (request.ask, request.name.as_str()) {
        (Ask::Dispatch { .. }, "push") => {
            let item = operands.pop().unwrap();
            if let Union::Array(items) = &mut operands[0].value {
                items.push(item);
            }
            operands.push(Dynamic::unit());
            Answer { operands, ..Answer::plain(Reply::Value(Dynamic::unit())) }
        }
        (Ask::Residual { .. }, _) => {
            let this = clone_value(&operands[0]);
            Answer { operands, ..Answer::plain(Reply::Value(this)) }
        }
        _ => Answer::plain(Reply::Nothing),
    }
}

/// Run until nothing is asked any more.
fn call(program: &Program, mut this: Option<&mut Dynamic>) -> Result<Dynamic, Error> {
    let engine = Engine::new(1);
    let mut asked: Vec<HostRequest> = Vec::new();
    loop {
        let mut vm = Vm::new(&engine);
        vm.answer_with(asked.iter().map(answer).collect());
        let options = CallFnOptions { eval_ast: false, ..CallFnOptions::new() };
        // Each run starts from the receiver as the host has it.
        let mut receiver = this.as_ref().map(|slot| Dynamic {
            mode: slot.mode,
            ..clone_value(slot)
        });
        let out = vm.call_fn_with_options(
            options,
            &mut receiver,
            &mut Scope::new(),
            program,
            "f",
            Vec::new(),
            Output::Any,
        );
        match vm.take_request() {
            Some(request) => asked.push(request),
            None => {
                if let (Some(slot), Some(left)) = (&mut this, receiver) {
                    **slot = left;
                }
                return out;
            }
        }
    }
}

/// The failure inside a called function.
fn inner(err: &Error) -> &FailureKind<Dynamic, String> {
    match &err.kind {
        FailureKind::ErrorInFunctionCall(_, _, inner) => &inner.kind,
        other => panic!("expected a failure inside a function, got {other:?}"),
    }
}

// --- operand slots ----------------------------------------------------------

#[test]
fn jit_operand_slots_are_pointer_sized_and_reused() {
    assert_eq!(core::mem::size_of::<OperandSlot>(), core::mem::size_of::<usize>());

    let mut slot = operand_slot(whole(1));
    let address = format!("{:p}", operand_ref(&slot));
    set_operand(&mut slot, whole(2));

    assert_eq!(address, format!("{:p}", operand_ref(&slot)));
    assert_eq!(operand_ref(&slot).as_int(), Ok(2));
}

// --- loops ------------------------------------------------------------------

/// The code of one of the two loops, with `s` in slot 0 and `i` in slot 1.
fn loop_of(source: &str) -> Program {
    let guard_names_both = match source {
        "let s = 0; let i = 0; while i < 400 { s = s + i; i = i + 1; } s" => true,
        "let s = 0; let i = 0; while (i + 1) <= 400 { s = s + i; i = i + 1; } s" => false,
        other => panic!("no code for `{other}`"),
    };
    let add = BinOpKind::Add as u8;
    // names: s, i, +, <, <=; tokens: the same operators
    let mut program = Program {
        names: ["s", "i", "+", "<", "<="].iter().map(|n| n.to_string()).collect(),
        tokens: ["+", "<", "<="].iter().map(|n| n.to_string()).collect(),
        constants: vec![whole(0), whole(400), whole(1)],
        ..empty_program()
    };
    let head = join(&[
        op(tag::CONST, &[0]),
        op(tag::DECLARE_LOCAL, &[0]),
        op(tag::CONST, &[0]),
        op(tag::DECLARE_LOCAL, &[1]),
    ]);
    let guard = |exit: u32| {
        if guard_names_both {
            fused(tag::BIN_OP_FROM_CONST_JF, 3, BinOpKind::Less as u8, 1, &[1, 1], Some(exit))
        } else {
            join(&[
                fused(tag::BIN_OP_FROM_CONST, 2, add, 0, &[1, 2], None),
                fused(tag::BIN_OP_RHS_CONST_JF, 4, BinOpKind::LessEquals as u8, 2, &[1], Some(exit)),
            ])
        }
    };
    let body = join(&[
        fused(tag::BIN_OP_FROM_LOCAL, 2, add, 0, &[0, 1], None),
        op(tag::ASSIGN_LOCAL, &[0, 0]),
        fused(tag::BIN_OP_FROM_CONST, 2, add, 0, &[1, 2], None),
        op(tag::ASSIGN_LOCAL, &[1, 1]),
        op(tag::TICK, &[]),
        jump(tag::JUMP, head.len() as u32),
    ]);
    let exit = (head.len() + guard(0).len() + body.len()) as u32;
    program.code = join(&[
        head,
        guard(exit),
        body,
        op(tag::LOAD_LOCAL, &[0]),
        op(tag::RETURN, &[]),
    ]);
    program
}

#[test]
fn a_loop_turn_leaves_the_operand_stack_where_it_found_it() {
    const LOOPS: [&str; 2] = [
        "let s = 0; let i = 0; while i < 400 { s = s + i; i = i + 1; } s",
        "let s = 0; let i = 0; while (i + 1) <= 400 { s = s + i; i = i + 1; } s",
    ];

    let engine = Engine::new(1);
    for source in LOOPS {
        let program = loop_of(source);
        let ceiling = (program.max_stack as usize).next_power_of_two().max(8);

        let mut vm = Vm::new(&engine);
        let value = vm.eval_with_scope(&mut Scope::new(), &program).expect("the loop runs");
        assert_eq!(value.as_int(), Ok(79800), "{source}");
        assert!(
            vm.allocated() <= ceiling,
            "four hundred turns of `{source}` grew the operand stack to {}, \
             against a chunk that declares {}",
            vm.allocated(),
            program.max_stack,
        );
    }
}

/// `s < i ? 1 : 2`, with the operands named or pushed, and the branch swallowed
/// or not.
fn less(lhs: i64, rhs: i64, named: bool, swallowed: bool) -> Program {
    let kind = BinOpKind::Less as u8;
    let head = join(&[
        op(tag::CONST, &[0]),
        op(tag::DECLARE_LOCAL, &[0]),
        op(tag::CONST, &[1]),
        op(tag::DECLARE_LOCAL, &[1]),
    ]);
    let pushes = join(&[op(tag::LOAD_LOCAL, &[0]), op(tag::LOAD_LOCAL, &[1])]);
    let test = |other: u32| match (named, swallowed) {
        (true, true) => fused(tag::BIN_OP_FROM_LOCAL_JF, 2, kind, 0, &[0, 1], Some(other)),
        (true, false) => join(&[
            fused(tag::BIN_OP_FROM_LOCAL, 2, kind, 0, &[0, 1], None),
            jump(tag::JUMP_IF_FALSE, other),
        ]),
        (false, true) => {
            join(&[pushes.clone(), fused(tag::BIN_OP_JF, 2, kind, 0, &[], Some(other))])
        }
        (false, false) => join(&[
            pushes.clone(),
            fused(tag::BIN_OP, 2, kind, 0, &[], None),
            jump(tag::JUMP_IF_FALSE, other),
        ]),
    };
    let taken = join(&[op(tag::CONST, &[2]), op(tag::RETURN, &[])]);
    let other = (head.len() + test(0).len() + taken.len()) as u32;
    Program {
        names: ["s", "i", "<"].iter().map(|n| n.to_string()).collect(),
        tokens: vec!["<".to_string()],
        constants: vec![whole(lhs), whole(rhs), whole(1), whole(2)],
        code: join(&[head, test(other), taken, op(tag::CONST, &[3]), op(tag::RETURN, &[])]),
        ..empty_program()
    }
}

#[test]
fn fused_operators_agree_with_the_plain_ones() {
    let engine = Engine::new(1);
    for (lhs, rhs, expected) in [(1, 2, 1), (2, 1, 2), (3, 3, 2)] {
        for (named, swallowed) in [(true, true), (true, false), (false, true), (false, false)] {
            let program = less(lhs, rhs, named, swallowed);
            let mut vm = Vm::new(&engine);
            let value = vm.eval_with_scope(&mut Scope::new(), &program).expect("the test runs");
            assert_eq!(value.as_int(), Ok(expected), "{lhs} < {rhs}, {named}, {swallowed}");
        }
    }
}

// --- receivers --------------------------------------------------------------

#[test]
fn a_bound_receiver_is_what_load_this_pushes() {
    let program = one(vec![op(tag::LOAD_THIS, &[]), op(tag::RETURN, &[])], Vec::new());
    let mut this = whole(7);
    assert_eq!(call(&program, Some(&mut this)).unwrap().as_int(), Ok(7));
}

#[test]
fn reading_an_unbound_receiver_is_an_error() {
    let program = one(vec![op(tag::LOAD_THIS, &[]), op(tag::RETURN, &[])], Vec::new());
    let err = call(&program, None).unwrap_err();
    assert!(
        matches!(inner(&err), FailureKind::ErrorUnboundThis),
        "expected an unbound `this`, got {err:?}"
    );
}

#[test]
fn assigning_to_an_unbound_receiver_is_caught_before_the_value_runs() {
    let program = one(
        vec![op(tag::REQUIRE_THIS, &[]), op(tag::UNIT, &[]), op(tag::RETURN, &[])],
        Vec::new(),
    );
    let err = call(&program, None).unwrap_err();
    assert!(
        matches!(inner(&err), FailureKind::ErrorUnboundThis),
        "expected an unbound `this`, got {err:?}"
    );
}

#[test]
fn a_write_through_this_reaches_the_hosts_value() {
    let program = one(
        vec![
            op(tag::CONST, &[0]),
            op(tag::ASSIGN_THIS, &[]),
            op(tag::UNIT, &[]),
            op(tag::RETURN, &[]),
        ],
        vec![whole(9)],
    );
    let mut this = whole(1);
    assert!(call(&program, Some(&mut this)).is_ok());
    assert_eq!(this.as_int(), Ok(9));
}

#[test]
fn a_write_through_this_survives_a_failure_after_it() {
    let program = one(
        vec![
            op(tag::CONST, &[0]),
            op(tag::ASSIGN_THIS, &[]),
            op(tag::CONST, &[1]),
            op(tag::THROW, &[]),
        ],
        vec![whole(9), Dynamic::from_text("boom".to_string())],
    );
    let mut this = whole(1);
    assert!(call(&program, Some(&mut this)).is_err());
    assert_eq!(this.as_int(), Ok(9));
}

#[test]
fn a_receiver_is_not_inherited_by_a_callee() {
    // `f` has a receiver and calls `g`, which reads one it was never given.
    let program = program_with(
        &[
            vec![call_op(1, 0), op(tag::RETURN, &[])],
            vec![op(tag::LOAD_THIS, &[]), op(tag::RETURN, &[])],
        ],
        Vec::new(),
        Vec::new(),
        0,
    );

    let mut this = whole(7);
    let err = call(&program, Some(&mut this)).unwrap_err();
    assert!(
        format!("{err:?}").contains("ErrorUnboundThis"),
        "expected `g` to have no receiver, got {err:?}"
    );
}

#[test]
fn a_callee_frame_does_not_disturb_the_callers_receiver() {
    let program = program_with(
        &[
            vec![
                call_op(1, 0),
                op(tag::POP, &[]),
                op(tag::LOAD_THIS, &[]),
                op(tag::RETURN, &[]),
            ],
            vec![op(tag::UNIT, &[]), op(tag::RETURN, &[])],
        ],
        Vec::new(),
        Vec::new(),
        0,
    );

    let mut this = whole(7);
    assert_eq!(call(&program, Some(&mut this)).unwrap().as_int(), Ok(7));
}

#[test]
fn a_method_step_reaching_a_chunk_binds_the_receiver() {
    // `f` is `this.g()`; `g` is `this`.
    let program = program_with(
        &[
            vec![op(tag::CHAIN, &[0]), op(tag::RETURN, &[])],
            vec![op(tag::LOAD_THIS, &[]), op(tag::RETURN, &[])],
        ],
        Vec::new(),
        vec![chain(root_this(), vec![method(1, 0, false)], 0)],
        0,
    );

    let mut this = whole(7);
    assert_eq!(call(&program, Some(&mut this)).unwrap().as_int(), Ok(7));
}

#[test]
fn a_write_inside_a_method_step_reaches_the_host() {
    // `f` is `this.g()`; `g` is `this = 9`.
    let program = program_with(
        &[
            vec![op(tag::CHAIN, &[0]), op(tag::RETURN, &[])],
            vec![
                op(tag::CONST, &[0]),
                op(tag::ASSIGN_THIS, &[]),
                op(tag::UNIT, &[]),
                op(tag::RETURN, &[]),
            ],
        ],
        vec![whole(9)],
        vec![chain(root_this(), vec![method(1, 0, false)], 0)],
        0,
    );

    let mut this = whole(1);
    assert!(call(&program, Some(&mut this)).is_ok());
    assert_eq!(this.as_int(), Ok(9));
}

#[test]
fn a_residual_fragment_reads_the_frames_receiver() {
    let program = program_with(
        &[vec![op(tag::EVAL_AST_KEEP, &[0]), op(tag::RETURN, &[])]],
        Vec::new(),
        Vec::new(),
        1,
    );

    let mut this = whole(7);
    assert_eq!(call(&program, Some(&mut this)).unwrap().as_int(), Ok(7));
}

#[test]
fn a_chain_rooted_at_this_mutates_the_hosts_value() {
    let program = program_with(
        &[vec![op(tag::CONST, &[0]), op(tag::CHAIN, &[0]), op(tag::RETURN, &[])]],
        vec![whole(2)],
        vec![chain(root_this(), vec![method(2, 1, false)], 1)],
        0,
    );

    let mut this = array(&[1]);
    assert!(call(&program, Some(&mut this)).is_ok());
    assert_eq!(ints(&this), vec![1, 2]);
}

#[test]
fn this_as_a_first_argument_goes_by_reference() {
    let program = one(
        vec![
            op(tag::LOAD_THIS, &[]),
            op(tag::CONST, &[0]),
            call_this_ref(2, 2),
            op(tag::RETURN, &[]),
        ],
        vec![whole(2)],
    );

    let mut this = array(&[1]);
    if let Err(err) = call(&program, Some(&mut this)) {
        panic!("expected the push to succeed, got {err:?}");
    }
    assert_eq!(ints(&this), vec![1, 2]);
}

#[test]
fn an_unbound_this_beats_a_failing_argument() {
    let program = one(
        vec![
            op(tag::LOAD_THIS, &[]),
            op(tag::LOAD_NAMED, &[3]), // `len`, which is no variable
            call_this_ref(2, 2),
            op(tag::RETURN, &[]),
        ],
        Vec::new(),
    );

    let err = call(&program, None).unwrap_err();
    assert!(
        format!("{err:?}").contains("ErrorUnboundThis"),
        "expected the receiver to fail first, got {err:?}"
    );
}

#[test]
fn a_chain_rooted_at_an_unbound_this_is_an_error() {
    let program = program_with(
        &[vec![op(tag::CHAIN, &[0]), op(tag::RETURN, &[])]],
        Vec::new(),
        vec![chain(root_this(), vec![method(3, 0, false)], 0)],
        0,
    );

    let err = call(&program, None).unwrap_err();
    assert!(
        format!("{err:?}").contains("ErrorUnboundThis"),
        "expected an unbound `this`, got {err:?}"
    );
}

#[test]
fn a_coalescing_step_short_circuits_on_unit() {
    let program = program_with(
        &[vec![op(tag::UNIT, &[]), op(tag::CHAIN, &[0]), op(tag::RETURN, &[])]],
        Vec::new(),
        vec![chain(Root::Temporary, vec![method(3, 0, true)], 0)],
        0,
    );

    let out = call(&program, None).expect("coalescing should skip method dispatch on unit");
    assert!(out.is_unit(), "expected unit, got {out:?}");
}

#[test]
fn a_read_only_receiver_refuses_the_write_and_is_left_alone() {
    let program = one(
        vec![
            op(tag::CONST, &[0]),
            op(tag::ASSIGN_THIS, &[]),
            op(tag::UNIT, &[]),
            op(tag::RETURN, &[]),
        ],
        vec![whole(9)],
    );
    let mut this = whole(1).into_read_only();
    let err = call(&program, Some(&mut this)).unwrap_err();
    assert!(
        // Named for an expression that has no name.
        matches!(inner(&err), FailureKind::ErrorAssignmentToConstant(name) if name.is_empty()),
        "expected a refused write to a constant, got {err:?}"
    );
    assert_eq!(this.as_int(), Ok(1));
}
