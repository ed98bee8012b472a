//! Values, cells, arithmetic and the small containers.
use grain_vm::arith::BinOpKind::{
    Add, And, Divide, Equals, Greater, GreaterEquals, Less, LessEquals, Modulo, Multiply,
    NotEquals, Or, Power, ShiftLeft, ShiftRight, Subtract, Xor,
};
use grain_vm::arith::{
    apply_assign, apply_binary, apply_unary, as_float_operand, int_assign, int_binary, Applied,
    BinOpKind, FloatOperand, UnOpKind,
};
use grain_vm::dict::find;
use grain_vm::engine::Engine;
use grain_vm::error::{unwind_exit, FailureKind};
use grain_vm::heap::Heap;
use grain_vm::memo::{call_memo_slot, operand_codes, CallMemo, OperatorMemo};
use grain_vm::position::Position;
use grain_vm::scope::Scope;
use grain_vm::stack::Stack;
use grain_vm::text::{is_valid_identifier, numbered};
use grain_vm::value::{
    clone_value, overwrite, type_text, AccessMode, Dict, Dynamic, FnPtr, FnPtrType, Union,
};

fn whole(i: i64) -> Dynamic {
    Dynamic::from_int(i)
}

fn text(s: &str) -> Dynamic {
    Dynamic::from_text(s.to_string())
}

/// One value of every kind a value can be, read-only.
fn every_variant() -> (Heap, Vec<Dynamic>) {
    let mut heap = Heap::new();
    let shared = heap.share(whole(1));
    let values = vec![
        Dynamic::unit(),
        Dynamic::from_bool(true),
        Dynamic::of(Union::Char('x')),
        whole(42),
        text("a string"),
        Dynamic::from_fn_ptr(FnPtr {
            name: "f".to_string(),
            curry: Vec::new(),
            typ: FnPtrType::Normal,
        }),
        Dynamic::of(Union::Variant("Custom".to_string(), 7)),
        Dynamic::of(Union::Float(1.5f64.to_bits())),
        Dynamic::from_array(vec![whole(1)]),
        Dynamic::of(Union::Blob(vec![1, 2, 3])),
        Dynamic::from_dict(Dict::of(vec![("k".to_string(), whole(1))])),
        Dynamic::of(Union::TimeStamp(99)),
        Dynamic::of(Union::Range(0, 3)),
        shared,
    ];
    (heap, values.into_iter().map(Dynamic::into_read_only).collect())
}

/// How a value reads: its type, what it prints as, and whether it is read-only.
fn reading(heap: &Heap, value: &Dynamic) -> (String, String, bool) {
    (type_text(value), format!("{:?}", value.value), heap.is_read_only(value))
}

#[test]
fn a_fast_copy_reads_as_the_clone_it_replaces() {
    let (heap, values) = every_variant();
    for value in values {
        let copy = clone_value(&value);
        let (kind, _, read_only) = reading(&heap, &copy);
        assert_eq!(kind, type_text(&value));
        // Elements of a read-only container are read-only too; their copies are
        // not, and all else of the payload is the same.
        let payload = format!("{:?}", value.value).replace("ReadOnly", "ReadWrite");
        assert_eq!(format!("{:?}", copy.value), payload);
        assert!(!read_only, "a copy of {value:?} can be written");
        assert_eq!(copy.tag, value.tag);

        // Copying a copy changes nothing, and a flat copy is the copy of what
        // the value reads as.
        assert_eq!(format!("{:?}", clone_value(&copy)), format!("{copy:?}"));
        let flat = heap.flatten_clone_value(&value);
        let read = clone_value(&heap.flatten(value));
        assert_eq!(reading(&heap, &flat), reading(&heap, &read));
    }
}

#[test]
fn a_shared_cell_is_flattened_and_never_copied_inline() {
    let mut heap = Heap::new();
    let cell = heap.share(whole(7));
    assert!(clone_value(&cell).is_shared(), "cloning a cell keeps the cell");
    let flattened = heap.flatten_clone_value(&cell);
    assert!(!flattened.is_shared(), "flattening a cell must reach its value");
    assert_eq!(flattened.as_int().expect("the cell holds an integer"), 7);
}

#[test]
fn overwriting_a_slot_leaves_the_new_value() {
    let (_, values) = every_variant();
    for value in values {
        let mut slot = value;
        overwrite(&mut slot, whole(9));
        assert_eq!(
            slot.as_int().expect("the slot now holds an integer"),
            9,
            "overwrite left the wrong value",
        );
        overwrite(&mut slot, Dynamic::unit());
        assert!(slot.is_unit(), "overwrite left the wrong value");
    }
}

#[test]
fn a_cell_taken_for_writing_reads_as_unit_until_it_is_back() {
    let mut heap = Heap::new();
    let shared = heap.share(whole(3));
    let cell = match shared.value {
        Union::Shared(cell) => cell,
        other => panic!("a cell, not {other:?}"),
    };
    let held = heap.lock(cell).expect("nobody holds it");
    assert!(heap.is_shut(cell));
    assert!(heap.read(cell).is_unit());
    assert!(heap.lock(cell).is_none(), "one writer at a time");
    heap.unlock(cell, held);
    assert_eq!(heap.read(cell).as_int(), Ok(3));
    assert_eq!(heap.len(), 1);
}

// --- arithmetic -------------------------------------------------------------

fn answer(kind: BinOpKind, x: i64, y: i64) -> Result<Dynamic, String> {
    match int_binary(kind, x, y) {
        Some(Ok(v)) => Ok(v),
        Some(Err(err)) => Err(format!("{:?}", err.kind)),
        None => panic!("{kind:?} has no answer for integers"),
    }
}

#[test]
fn integers_are_added_and_compared() {
    let int_of = |kind, x, y| answer(kind, x, y).unwrap().as_int().unwrap();
    assert_eq!(int_of(Add, 2, 3), 5);
    assert_eq!(int_of(Subtract, 2, 3), -1);
    assert_eq!(int_of(Multiply, -4, 3), -12);
    assert_eq!(int_of(Divide, -7, 2), -3);
    assert_eq!(int_of(Modulo, -7, 2), -1);
    assert_eq!(int_of(Power, 2, 10), 1024);
    assert_eq!(int_of(ShiftLeft, 1, 4), 16);
    assert_eq!(int_of(ShiftRight, -16, 2), -4);
    assert_eq!(int_of(And, 12, 10), 8);
    assert_eq!(int_of(Or, 12, 10), 14);
    assert_eq!(int_of(Xor, 12, 10), 6);
    let holds = |kind, x, y| match answer(kind, x, y).unwrap().value {
        Union::Bool(b) => b,
        other => panic!("a boolean, not {other:?}"),
    };
    assert!(holds(Equals, 3, 3) && !holds(Equals, 3, 4));
    assert!(holds(NotEquals, 3, 4) && !holds(NotEquals, 3, 3));
    assert!(holds(Greater, 4, 3) && !holds(Greater, 3, 3));
    assert!(holds(GreaterEquals, 3, 3) && !holds(GreaterEquals, 2, 3));
    assert!(holds(Less, 2, 3) && !holds(Less, 3, 3));
    assert!(holds(LessEquals, 3, 3) && !holds(LessEquals, 4, 3));
}

#[test]
fn arithmetic_that_does_not_fit_is_an_error() {
    for (kind, x, y) in [
        (Add, i64::MAX, 1),
        (Subtract, i64::MIN, 1),
        (Multiply, i64::MAX, 2),
        (Divide, 1, 0),
        (Divide, i64::MIN, -1),
        (Modulo, 1, 0),
        (Modulo, i64::MIN, -1),
        (Power, 10, 30),
        (Power, 2, -1),
    ] {
        let text = answer(kind, x, y).unwrap_err();
        assert!(text.starts_with("ErrorArithmetic"), "{kind:?} {x} {y}: {text}");
    }
}

#[test]
fn an_assignment_is_its_operator() {
    let mut target = whole(40);
    assert!(matches!(
        apply_assign(BinOpKind::Add, &mut target, &whole(2)),
        Ok(Applied::Done(42))
    ));
    assert_eq!(target.as_int(), Ok(42));
    assert!(apply_assign(BinOpKind::Divide, &mut target, &whole(0)).is_err());
    assert_eq!(target.as_int(), Ok(42), "a failed assignment leaves its target alone");
    assert!(matches!(
        apply_assign(BinOpKind::Add, &mut target, &text("x")),
        Ok(Applied::Declined)
    ));
    assert_eq!(target.as_int(), Ok(42));
    assert!(matches!(int_assign(BinOpKind::Multiply, 6, 7), Some(Ok(42))));
}

#[test]
fn only_a_pair_with_a_float_is_widened() {
    let half = Dynamic::of(Union::Float(0.5f64.to_bits()));
    assert!(matches!(apply_binary(BinOpKind::Add, &half, &whole(1)), Ok(Applied::Float)));
    assert!(matches!(apply_binary(BinOpKind::Add, &whole(1), &half), Ok(Applied::Float)));
    assert!(matches!(apply_binary(BinOpKind::Add, &whole(1), &whole(1)), Ok(Applied::Done(_))));
    assert!(matches!(apply_binary(BinOpKind::Add, &text("a"), &whole(1)), Ok(Applied::Declined)));
    assert_eq!(as_float_operand(&whole(3)), Some((FloatOperand::Whole(3), false)));
    assert_eq!(
        as_float_operand(&half),
        Some((FloatOperand::Bits(0.5f64.to_bits()), true))
    );
    assert_eq!(as_float_operand(&text("3")), None);
}

#[test]
fn only_booleans_are_negated() {
    let no = apply_unary(UnOpKind::Not, &Dynamic::from_bool(true)).unwrap();
    assert!(matches!(no.value, Union::Bool(false)));
    assert!(apply_unary(UnOpKind::Not, &whole(1)).is_none());
    assert_eq!(UnOpKind::from_byte(1), None);
    assert_eq!(BinOpKind::from_byte(17), None);
}

// --- containers -------------------------------------------------------------

#[test]
fn a_key_is_bound_once() {
    let mut map = Dict::new();
    map.insert("a", whole(1));
    map.insert("b", whole(2));
    map.insert("a", whole(3));
    assert_eq!(map.pairs().len(), 2);
    let at = map.find("a").unwrap();
    assert_eq!(map.get(at).as_int(), Ok(3));
    assert!(map.find("c").is_none());
    assert_eq!(find(map.pairs(), "b"), Some(1));

    // Whatever a map is made of, each key stands once and the last value wins.
    let row = [("k", 1), ("l", 2), ("k", 3)];
    let mut map = Dict::of(row.iter().map(|(k, v)| (k.to_string(), whole(*v))).collect());
    let keys: Vec<&str> = map.pairs().iter().map(|(key, _)| key.as_str()).collect();
    assert_eq!(keys, vec!["k", "l"]);
    assert_eq!(map.get(0).as_int(), Ok(3));
    assert_eq!(map.take(1).as_int(), Ok(2));
    assert!(map.get(1).is_unit());
    map.put(1, whole(4));
    map.insert_all(Dict::of(vec![("l".to_string(), whole(5)), ("m".to_string(), whole(6))]));
    assert_eq!(map.pairs().len(), 3);
    assert_eq!(map.get(1).as_int(), Ok(5));
}

#[test]
fn the_newest_variable_of_a_name_is_found() {
    let mut scope = Scope::new();
    scope.push_dynamic("x", whole(1));
    scope.push_constant_dynamic("x", whole(2));
    let at = scope.search("x").unwrap();
    assert_eq!(at, 1);
    assert_eq!(scope.get_by_index(at).as_int(), Ok(2));
    assert_eq!(scope.get_by_index(at).mode, AccessMode::ReadOnly);
    let value = scope.take(0);
    assert!(scope.get_by_index(0).is_unit());
    scope.put(0, value);
    assert_eq!(scope.get_by_index(0).as_int(), Ok(1));
    scope.rewind(1);
    assert_eq!(scope.len(), 1);
    assert!(scope.search("y").is_none());
    scope.clear();
    assert!(scope.is_empty());
}

#[test]
fn what_leaves_the_stack_leaves_nothing_behind() {
    let mut stack = Stack::new();
    stack.push_all(vec![whole(1), whole(2), whole(3)]);
    assert_eq!(stack.pop().unwrap().as_int(), Ok(3));
    stack.push(whole(4));
    stack.rotate(1);
    assert_eq!(stack.get(1).as_int(), Ok(4));
    assert_eq!(stack.get(2).as_int(), Ok(2));
    stack.open_slots(1, 2);
    assert_eq!(stack.depth(), 5);
    assert!(stack.get(1).is_unit() && stack.get(2).is_unit());
    assert_eq!(stack.get(3).as_int(), Ok(4));
    assert!(!stack.holds_nothing());
    let taken = stack.take_values_from(1);
    assert_eq!(taken.len(), 4);
    stack.truncate(0);
    assert_eq!(stack.depth(), 0);
    assert!(stack.holds_nothing());
    assert!(stack.pop().is_none());
}

#[test]
fn a_stack_is_allocated_in_powers_of_two() {
    let mut stack = Stack::new();
    assert_eq!(stack.allocated(), 0);
    stack.reserve(0);
    assert_eq!(stack.allocated(), 0);
    stack.push(whole(1));
    assert_eq!(stack.allocated(), 1);
    stack.reserve(4);
    assert_eq!((stack.allocated(), stack.depth()), (8, 1));
    stack.reserve(7);
    assert_eq!(stack.allocated(), 8);
    stack.push_all((0..8).map(whole).collect());
    assert_eq!((stack.allocated(), stack.depth()), (16, 9));
    stack.open_slots(2, 7);
    assert_eq!(stack.allocated(), 16);
    stack.truncate(3);
    assert_eq!(stack.allocated(), 16);
    stack.grow_stack(0);
    assert_eq!((stack.allocated(), stack.depth()), (4, 3));
    assert_eq!(stack.get(0).as_int(), Ok(1));
}

#[test]
fn memo_entries_answer_their_own_site_only() {
    let kinds = operand_codes(&whole(1), &text("a"));
    let entry = OperatorMemo { generation: 2, at: 10, operands: kinds, resolved: None };
    assert!(entry.answers(2, 10, kinds));
    assert!(!entry.answers(3, 10, kinds));
    assert!(!entry.answers(2, 11, kinds));
    assert!(!entry.answers(2, 10, operand_codes(&text("a"), &whole(1))));
    assert!(!OperatorMemo::empty().answers(0, 0, 0), "no frame has the number zero");

    let call = CallMemo { generation: 1, name: 4, argc: 2, args: 9, imports: 0, resolved: None };
    assert!(call.answers(1, 4, 2, 9, 0));
    assert!(!call.answers(1, 4, 2, 9, 1));
    assert!(call_memo_slot(4, 2) < 16);
}

#[test]
fn limits_name_what_is_too_large() {
    let mut engine = Engine::new(1);
    assert!(engine.throw_on_size(1000, 1000, 1000).is_none());
    engine.max_array_size = 3;
    let err = engine.throw_on_size(4, 0, 0).unwrap();
    assert!(matches!(err.kind, FailureKind::ErrorDataTooLarge(_)), "{err:?}");
    assert!(engine.throw_on_size(3, 0, 0).is_none());
}

#[test]
fn control_transfers_turn_back_into_values() {
    let pos = Position::none();
    for kind in [FailureKind::Return(whole(1)), FailureKind::Exit(whole(1))] {
        let out = unwind_exit(Err(grain_vm::error::Error { kind, pos }));
        assert_eq!(out.unwrap().as_int(), Ok(1));
    }
    let out = unwind_exit(Err(grain_vm::error::Error { kind: FailureKind::ErrorFor, pos }));
    assert!(matches!(out.unwrap_err().kind, FailureKind::ErrorFor));
}

#[test]
fn texts_are_spelled_out() {
    assert_eq!(numbered("no name ", 120, "!"), "no name 120!");
    assert_eq!(numbered("", 0, ""), "0");
    assert!(is_valid_identifier("_x1"));
    assert!(!is_valid_identifier("1x") && !is_valid_identifier("") && !is_valid_identifier("a-b"));
}
