//! The tracing driver's state, the merge point, the lowered tables and the
//! helpers compiled code calls.
use grain_vm::ab_gate;
use grain_vm::arith::BinOpKind;
use grain_vm::bindings::{runtime_bindings, shim_index, Shim, BINDINGS, SHIMS};
use grain_vm::bytecode::Receiver;
use grain_vm::counters::{majit_diag_summary, reset_stats, stats, Count, Counters, Step as Pace};
use grain_vm::engine::Engine;
use grain_vm::error::FailureKind;
use grain_vm::host::{Answer, Reply};
use grain_vm::jit_state::{
    field_name, forward_ref_bits, frame_fields, merge_point_slot_regs, GcRef, GrainJitState,
    GrainSym, GuardResumeFrame, GuardResumeReg, Kind, OpRef, ResumeFrame, Value,
};
use grain_vm::jitcodes::{
    all, body_byte, check_tables, count, descr_bodies, driver, entries, grain_driver_descriptor, jitcode_bodies,
    liveness_parts, portal_index, portal_merge_point_offset, red_kinds,
    resolve_symbolic_fnaddr_path, symbolic_fnaddrs, Body, CompiledJitDriver, TableError,
};
use grain_vm::machine::{Items, Iteration, Vm};
use grain_vm::merge::{
    bridge_setup, enter_residual, green_types, green_values, leave_residual, next_iter_header,
    resume_frame, runtime_allowed, Act, Addresses, Door, EdgeReply, GrainFrame, GrainJitDriver,
    Visit,
};
use grain_vm::position::Position;
use grain_vm::program::{AssignOp, Case, Chunk, Function, Program, RangeCase, Switch};
use grain_vm::residual::{
    cached_plain_add, code_byte, code_position_bits, code_u16, code_u32, code_width,
    compiled_fn_is_plain_add, dynamic_store, dynamic_store_float, dynamic_store_int,
    function_body_is_plain_add, int_max, int_modulo, live_address, live_count,
    name_is_abs, position_bits, program_name, position_from_bits, receiver_of, scope_rewind, source_of,
    store_int_range_next, store_iteration_count, Held,
};
use grain_vm::resume::{rebuild_from_resumedata, Rebuilt, ResumeStorage};
use grain_vm::scope::Scope;
use grain_vm::tag;
use grain_vm::value::{AccessMode, Dynamic, Union};

// --- a lowered portal -------------------------------------------------------

/// The merge point of this portal is at its third byte: two bytes of opcode,
/// three green integers, no green references or floats, no red integers, two
/// red references in the registers 2 and 5, and no red floats.
const PORTAL: [u8; 16] = [9, 9, 9, 77, 0, 3, 0, 1, 2, 0, 0, 0, 2, 2, 5, 0];

const HEADER: usize = 3;

fn tables() -> (Vec<CompiledJitDriver>, Vec<Body>) {
    let drivers = vec![CompiledJitDriver {
        main_jitcode_index: 1,
        greens: ["pc", "program_identity", "program"].iter().map(|n| n.to_string()).collect(),
        green_args_spec: vec![Kind::Int, Kind::Int, Kind::Ref],
        reds: ["frame", "vm"].iter().map(|n| n.to_string()).collect(),
        red_args_types: vec![Kind::Ref, Kind::Ref],
    }];
    let bodies = vec![
        Body { code: vec![1, 2, 3], jit_merge_point_offset: None },
        Body { code: PORTAL.to_vec(), jit_merge_point_offset: Some(HEADER) },
    ];
    (drivers, bodies)
}

fn kinds() -> Vec<Kind> {
    red_kinds(driver(&tables().0).unwrap()).clone()
}

fn reg(index: u32, opref: OpRef, value: i64) -> GuardResumeReg {
    GuardResumeReg { bank: Kind::Ref, index, opref, value }
}

fn input(index: u32) -> OpRef {
    OpRef::input_arg_typed(index, Kind::Ref)
}

fn frame_of(regs: Vec<GuardResumeReg>) -> ResumeFrame {
    GuardResumeFrame { code: PORTAL.to_vec(), pc: HEADER, regs }
}

#[test]
fn live_values_come_from_this_entry_not_the_compiled_artifacts_meta() {
    let (drivers, table) = tables();
    let mut state = GrainJitState::new();
    let first = vec![0x1000, 0x2000];
    state.publish_live(&first, &Vec::new());
    let meta = state.build_meta(
        portal_merge_point_offset(&drivers, &table).expect("the lowered portal has a merge point"),
        &first,
        &kinds(),
    );
    assert_eq!(state.extract_live(&meta), first);

    let next = vec![0x3000, 0x4000];
    state.publish_live(&next, &Vec::new());
    assert_eq!(state.extract_live(&meta), next);
    assert_eq!(meta.reds, first);
    let values = state.extract_live_values(&meta, &kinds());
    assert_eq!(values.iter().map(Value::get_type).collect::<Vec<_>>(), kinds());
    assert_eq!(values[1], Value::Ref(GcRef(0x4000)));
}

#[test]
fn merge_point_red_r_names_two_ref_reds() {
    let (drivers, table) = tables();
    let header_pc = portal_merge_point_offset(&drivers, &table).unwrap();
    let portal = &table[portal_index(&drivers).unwrap()];
    let Some(slots) = merge_point_slot_regs(&portal.code, header_pc) else {
        panic!("the portal merge point must decode");
    };
    assert!(slots[4].len() >= 2, "grain's two reds are both Ref: {:?}", slots[4]);
    assert_eq!(slots[0], vec![0, 1, 2]);
    assert_eq!(slots[4], vec![2, 5]);
}

#[test]
fn a_merge_point_that_is_cut_off_names_no_registers() {
    for len in 0..PORTAL.len() {
        assert!(merge_point_slot_regs(&PORTAL[..len].to_vec(), HEADER).is_none());
    }
    assert!(merge_point_slot_regs(&PORTAL.to_vec(), usize::MAX).is_none());
}

#[test]
fn forward_ref_bits_replaces_only_matching_shadows() {
    let stale = 0xDEAD_0000;
    let live = 0x2222_0000;
    let unrelated = 0xBEEF_0000;
    let mut frames = vec![frame_of(vec![
        reg(0, input(0), stale),
        reg(1, input(1), unrelated),
        GuardResumeReg { bank: Kind::Int, index: 2, opref: input(2), value: stale },
    ])];
    forward_ref_bits(&mut frames, stale, live);
    assert_eq!(frames[0].regs[0].value, live);
    assert_eq!(frames[0].regs[1].value, unrelated);
    assert_eq!(frames[0].regs[2].value, stale, "an integer is no reference");
}

#[test]
fn rebind_bridge_reds_rewrites_only_the_reserved_vm_slot() {
    let (drivers, table) = tables();
    let header_pc = portal_merge_point_offset(&drivers, &table);
    let slots = merge_point_slot_regs(&PORTAL.to_vec(), header_pc.unwrap()).unwrap();
    let vm_reg = slots[4][1] as u32;
    let mut state = GrainJitState::new();
    state.publish_live(&vec![0x1111_0000, 0x2222_0000], &Vec::new());
    let stale = 0xDEAD_0000;
    let other = 0xBEEF_0000;
    let mut frames = vec![frame_of(vec![
        reg(vm_reg, input(vm_reg), stale),
        reg(vm_reg.wrapping_add(3), input(vm_reg + 3), stale),
        reg(7, input(7), other),
    ])];
    state.rebind_bridge_reds(&mut frames, &kinds(), header_pc);
    assert_eq!(frames[0].regs[0].value, 0x2222_0000);
    assert_eq!(
        frames[0].regs[0].opref,
        OpRef::ConstPtr(GcRef(0x2222_0000)),
        "without a live-Vm failarg the reserved slot is a Const of the live bits",
    );
    assert_eq!(
        frames[0].regs[1].value, stale,
        "only the reserved vm index is rewritten, not every copy of its bits",
    );
    assert_eq!(frames[0].regs[2].value, other);
}

#[test]
fn rebind_bridge_reds_keeps_the_live_vm_inputarg() {
    let (drivers, table) = tables();
    let header_pc = portal_merge_point_offset(&drivers, &table);
    let slots = merge_point_slot_regs(&PORTAL.to_vec(), header_pc.unwrap()).unwrap();
    let vm_reg = slots[4][1] as u32;
    let mut state = GrainJitState::new();
    let live = 0x2222_0000;
    state.publish_live(&vec![0x1111_0000, live], &Vec::new());
    let stale = 0xDEAD_0000;
    let vm_box = input(3);
    let mut frames =
        vec![frame_of(vec![reg(vm_reg, input(vm_reg), stale), reg(4, vm_box, live)])];
    state.rebind_bridge_reds(&mut frames, &kinds(), header_pc);
    assert_eq!(frames[0].regs[0].value, live);
    assert_eq!(
        frames[0].regs[0].opref, vm_box,
        "the reserved slot takes the failarg that already names the live Vm",
    );
}

#[test]
fn a_bridge_that_needs_no_rebinding_is_left_alone() {
    let mut state = GrainJitState::new();
    state.publish_live(&vec![0x1111_0000, 0x2222_0000], &Vec::new());
    // Already the live machine, by a symbol of the trace.
    let mut frames = vec![frame_of(vec![reg(5, input(5), 0x2222_0000)])];
    state.rebind_bridge_reds(&mut frames, &kinds(), Some(HEADER));
    assert_eq!(frames[0].regs[0], reg(5, input(5), 0x2222_0000));
    // The frame itself.
    let mut frames = vec![frame_of(vec![reg(5, input(5), 0x1111_0000)])];
    state.rebind_bridge_reds(&mut frames, &kinds(), Some(HEADER));
    assert_eq!(frames[0].regs[0], reg(5, input(5), 0x1111_0000));
    // No merge point to say which register it is.
    let mut frames = vec![frame_of(vec![reg(5, input(5), 1)])];
    state.rebind_bridge_reds(&mut frames, &kinds(), None);
    assert_eq!(frames[0].regs[0].value, 1);
}

#[test]
fn the_state_takes_back_what_compiled_code_left() {
    let mut state = GrainJitState::new();
    state.restore_values(&vec![
        Value::Int(-3),
        Value::Ref(GcRef(16)),
        Value::Float(1.5f64.to_bits()),
        Value::Void,
    ]);
    assert_eq!(state.take_restored(), vec![-3, 16, 1.5f64.to_bits() as i64, 0]);
    assert!(state.take_restored().is_empty());
    state.restore(&vec![1, 2]);
    assert_eq!(state.last_restored, vec![1, 2]);
    assert_eq!(state.deliver_blackhole_exception(), Some(usize::MAX));
}

#[test]
fn the_frames_fields_are_handed_out_under_its_name_only() {
    let mut state = GrainJitState::new();
    assert_eq!(state.live_frame(), None);
    state.publish_live(&vec![0x1000, 0x2000], &vec![1, 2, 3, 4, 5]);
    assert_eq!(state.virtualizable_heap_ptr("frame"), Some(0x1000));
    assert_eq!(state.virtualizable_heap_ptr("scope"), None);
    let mut statics = vec![9];
    let mut arrays = vec![vec![1]];
    assert!(!state.export_virtualizable_boxes_into("vm", 5, &mut statics, &mut arrays));
    assert!(!state.export_virtualizable_boxes_into("frame", 4, &mut statics, &mut arrays));
    assert_eq!((statics.len(), arrays.len()), (1, 1));
    assert!(state.export_virtualizable_boxes_into("frame", 5, &mut statics, &mut arrays));
    assert_eq!(statics, vec![1, 2, 3, 4, 5]);
    assert!(arrays.is_empty());
    let names: Vec<&str> = frame_fields().iter().map(|(field, _)| field_name(*field)).collect();
    assert_eq!(names, ["scope", "base", "reached", "stack_base", "jit_resume_pc_plus_one"]);
    assert_eq!(frame_fields()[0].1, Kind::Ref);
}

#[test]
fn a_trace_starts_with_one_input_per_red_and_closes_with_the_fields() {
    let sym: GrainSym = GrainJitState::create_sym(HEADER, &kinds());
    assert_eq!(sym.loop_header_pc(), HEADER);
    assert_eq!(sym.total_slots(), 0);
    assert_eq!(sym.reds, vec![input(0), input(1)]);
    assert_eq!(sym.loop_carried_boxes(&kinds()), vec![(input(0), Kind::Ref), (input(1), Kind::Ref)]);
    assert!(sym.validate_close(&kinds()));
    let field = OpRef::Op { index: 8 };
    let boxes = vec![(field, Kind::Int), (input(0), Kind::Ref)];
    assert_eq!(sym.collect_jump_args_with_boxes(&boxes), vec![input(0), input(1), field]);
    assert_eq!(sym.collect_jump_args_with_boxes(&Vec::new()), sym.collect_jump_args());
}

#[test]
fn an_artifact_of_another_shape_is_refused_and_counted() {
    let state = GrainJitState::new();
    let meta = state.build_meta(HEADER, &vec![1, 2], &kinds());
    let mut counters = Counters::new(0);
    assert!(state.is_compatible(&meta, &kinds(), &mut counters));
    assert_eq!(counters.compiled_entries_refused, 0);
    assert!(!state.is_compatible(&meta, &vec![Kind::Ref], &mut counters));
    assert_eq!(counters.compiled_entries_refused, 1);
}

// --- the merge point --------------------------------------------------------

#[test]
fn jit_restore_updates_only_the_current_frame_image() {
    let mut frame = GrainFrame::new(1, 2, 3);
    let here = Addresses { frame: 0x7000, vm: 0x8000, scope: 0x9000 };
    let (frame_addr, vm_addr, scope_addr) = (0x7000, 0x8000, 0x9000);

    frame.restore_from_jit(&vec![frame_addr, vm_addr, scope_addr, 10, 20, 30], here);
    assert_eq!((frame.base, frame.reached, frame.stack_base), (10, 20, 30));

    frame.restore_from_jit(&vec![frame_addr + 1, vm_addr, scope_addr, 40, 50, 60], here);
    assert_eq!(
        (frame.base, frame.reached, frame.stack_base),
        (10, 20, 30),
        "a resume image for another inlined frame must be ignored",
    );
    frame.restore_from_jit(&vec![frame_addr, vm_addr, scope_addr, 1, 1], here);
    assert_eq!(frame.base, 10, "an image that is too short must be ignored");
    assert_eq!(frame.jit_vable_words(5), vec![5, 10, 20, 30, 0]);
}

#[test]
fn the_driver_is_asked_at_back_edges_and_while_tracing() {
    let jit = GrainJitDriver;
    let mut step = Pace::new();
    let mut counters = Counters::new(0);
    let mut knock = |step: &mut Pace, counters: &mut Counters, nest, pc, busy| {
        jit.jit_merge_point(step, counters, nest, pc, busy)
    };
    assert_eq!(knock(&mut step, &mut counters, 0, 10, false), Door::Open);
    assert_eq!(knock(&mut step, &mut counters, 0, 13, false), Door::Forward);
    assert_eq!(step.skipped, 1);
    assert_eq!(knock(&mut step, &mut counters, 0, 10, false), Door::Open);
    assert_eq!(knock(&mut step, &mut counters, 1, 10, false), Door::Nested);
    assert_eq!(knock(&mut step, &mut counters, 0, 10, true), Door::Busy);
    step.tracing = true;
    assert_eq!(knock(&mut step, &mut counters, 0, 13, false), Door::Open);
    assert_eq!(counters.merge_points_consulted, 3);
    assert_eq!(counters.reentrant_consultations_declined, 1);
}

#[test]
fn compiled_code_is_entered_again_while_it_comes_back_here() {
    let mut counters = Counters::new(0);
    let (mut visit, act) = Visit::begin(40, false);
    assert_eq!(act, Act::BackEdge { at: 40 });
    let again =
        EdgeReply { resume: Some(40), finished: false, tracing: false, compiled: true };
    assert_eq!(visit.answer(again, &mut counters), Act::BackEdge { at: 40 });
    assert_eq!(visit.answer(again, &mut counters), Act::BackEdge { at: 40 });
    assert_eq!(visit.hops, 2);
    let out = EdgeReply { resume: Some(90), ..again };
    assert_eq!(visit.answer(out, &mut counters), Act::Settle);
    assert_eq!(counters.entry_door_interpret, 1);
    let mut step = Pace::new();
    let settled = visit.settle(None, None, false, false, &mut step);
    assert_eq!(settled.resume, Some(90));
    assert!(!settled.write_back);
    assert_eq!(settled.report, None);
}

#[test]
fn a_started_trace_is_walked_and_an_abort_outranks_it() {
    let mut counters = Counters::new(0);
    let (mut visit, _) = Visit::begin(40, false);
    let started = EdgeReply { resume: None, finished: false, tracing: true, compiled: false };
    assert_eq!(visit.answer(started, &mut counters), Act::Walk);
    assert_eq!(counters.traces_started, 1);
    assert_eq!(visit.walked(3, 10, &mut counters), Act::Settle);
    assert_eq!((counters.ops_recorded, counters.max_trace_ops), (7, 7));
    let mut step = Pace::new();
    let settled = visit.settle(Some(44), Some(55), false, true, &mut step);
    assert_eq!(settled.resume, Some(55));
    assert!(settled.write_back);
    assert_eq!(settled.report, Some(true));
    assert!(step.tracing);
    let settled = visit.settle(Some(44), None, true, false, &mut step);
    assert_eq!(settled.resume, None);
    assert!(settled.write_back && !step.tracing);
}

#[test]
fn a_finished_frame_goes_on_nowhere() {
    let mut counters = Counters::new(0);
    let (mut visit, _) = Visit::begin(40, true);
    let done = EdgeReply { resume: Some(40), finished: true, tracing: false, compiled: true };
    assert_eq!(visit.answer(done, &mut counters), Act::Settle);
    assert_eq!(visit.resume, None);
    assert_eq!(counters.entry_door_already_tracing, 1);
}

#[test]
fn a_loop_that_ran_out_goes_on_at_its_header() {
    let engine = Engine::new(1);
    let mut program = blank();
    // a range made into a loop, then its header
    program.code = [
        op(tag::CONST, &[0]),
        op(tag::ITER_INIT, &[]),
        op(tag::TICK, &[]),
        jump(tag::ITER_NEXT, 4),
        op(tag::UNIT, &[]),
        op(tag::RETURN, &[]),
    ]
    .concat();
    assert_eq!(next_iter_header(&program.code, 4), Some(5));
    assert_eq!(next_iter_header(&program.code, 10), None);

    let vm = Vm::new(&engine);
    assert!(!vm.range_exhausted());
    let mut frame = GrainFrame::new(0, 0, 0);
    resume_frame(&mut frame, &vm, &program, 4, Some(7));
    assert_eq!(frame.jit_resume_pc_plus_one, 8);
    resume_frame(&mut frame, &vm, &program, 4, None);
    resume_frame(&mut frame, &vm, &program, 4, Some(usize::MAX));
    assert_eq!(frame.jit_resume_pc_plus_one, 8, "no loop ran out, so nothing changes");
    let jit = GrainJitDriver;
    jit.can_enter_jit(4, 1, &program, &mut frame, &vm);
    assert_eq!(frame.jit_resume_pc_plus_one, 8);
}

#[test]
fn a_driver_is_built_by_its_owner_from_lowered_code() {
    let mut counters = Counters::new(0);
    assert!(!runtime_allowed(0, true, &mut counters));
    assert!(!runtime_allowed(0, false, &mut counters));
    assert_eq!(counters.non_owner_consultations_declined, 0);
    assert!(!runtime_allowed(3, false, &mut counters));
    assert_eq!(counters.non_owner_consultations_declined, 1);
    assert!(runtime_allowed(3, true, &mut counters));
    assert_eq!(enter_residual(0, true, &mut counters), 1);
    assert_eq!(enter_residual(1, false, &mut counters), 1);
    assert_eq!(counters.reentrant_consultations_declined, 1);
    assert_eq!((leave_residual(1), leave_residual(0)), (0, 0));
    assert!(bridge_setup(false, true).incomplete && !bridge_setup(false, true).shape_only);
    assert_eq!(green_values(5, 6, 7), vec![5, 5, 6, 7]);
    assert_eq!(green_types(&vec![Kind::Ref]), vec![Kind::Int, Kind::Ref]);
}

// --- counters ---------------------------------------------------------------

#[test]
fn a_window_starts_from_nothing() {
    let mut counters = Counters::new(0);
    let mut step = Pace::new();
    for what in [Count::MergePoint, Count::Aborted, Count::LoopCompiled, Count::Entered] {
        counters.bump_stats(what);
    }
    step.skipped = 3;
    let seen = stats(&counters, &step, "too_long=1", 2);
    assert_eq!(seen.merge_points_consulted, 1);
    assert_eq!(seen.traces_aborted, 1);
    assert_eq!(seen.loops_compiled, 1);
    assert_eq!(seen.compiled_entries, 1);
    assert_eq!(seen.forward_steps_skipped, 3);
    assert_eq!(seen.symbolic_residual_aborts, 2);
    assert_eq!(seen.abort_reasons, "too_long=1 unbound_symbolic_residual=2");

    reset_stats(&mut counters, &mut step, 2);
    let fresh = stats(&counters, &step, "", 2);
    assert_eq!(fresh.merge_points_consulted, 0);
    assert_eq!(fresh.symbolic_residual_aborts, 0);
    assert_eq!(fresh.abort_reasons, "");
    assert_eq!(stats(&counters, &step, "", 12).abort_reasons, "unbound_symbolic_residual=10");
}

#[test]
fn a_census_keeps_what_counts_something() {
    assert_eq!(majit_diag_summary(" a=1  b=0\tc=10\nd=0 "), "a=1 c=10");
    assert_eq!(majit_diag_summary("a=0"), "");
    assert_eq!(majit_diag_summary(""), "");
    assert_eq!(majit_diag_summary("x=00 y=5"), "x=00 y=5");
}

#[test]
fn the_gate_takes_the_leg_it_is_set_to() {
    let mut gate = ab_gate::Gate { on: false };
    assert!(!ab_gate::on(&gate));
    ab_gate::set(&mut gate, true);
    assert!(ab_gate::on(&gate));
}

// --- tables -----------------------------------------------------------------

#[test]
fn records_are_the_stretches_between_offsets() {
    let records = entries(&vec![1, 2, 3, 4, 5], &vec![0, 2, 2, 5]);
    assert_eq!(records, vec![vec![1, 2], vec![], vec![3, 4, 5]]);
    assert!(entries(&Vec::new(), &vec![0]).is_empty());
    assert!(entries(&Vec::new(), &Vec::new()).is_empty());
}

#[test]
fn tables_are_read_back_in_their_order() {
    let names = vec!["run_frame".to_string(), "push".to_string()];
    let index = bincode::serialize(&(names.clone(), vec![0u32, 3, 4])).unwrap();
    let (read, bodies) = jitcode_bodies(&vec![7, 8, 9, 10], &index).unwrap();
    assert_eq!(read, names);
    assert_eq!(bodies, vec![vec![7, 8, 9], vec![10]]);

    let offsets = bincode::serialize(&vec![1u32, 2]).unwrap();
    assert_eq!(descr_bodies(&vec![7, 8], &offsets).unwrap(), vec![vec![8]]);
    // Bytes after the offsets are no matter.
    let mut longer = offsets.clone();
    longer.push(1);
    assert_eq!(descr_bodies(&vec![7, 8], &longer).unwrap(), vec![vec![8]]);
    assert_eq!(descr_bodies(&vec![7], &offsets), Err(TableError::OutOfBounds));
    assert_eq!(
        descr_bodies(&vec![7, 8], &offsets[..offsets.len() - 1].to_vec()),
        Err(TableError::Undecodable)
    );
    let backwards = bincode::serialize(&vec![2u32, 1]).unwrap();
    assert_eq!(descr_bodies(&vec![7, 8], &backwards), Err(TableError::OutOfBounds));
    assert_eq!(jitcode_bodies(&Vec::new(), &vec![1]), Err(TableError::Undecodable));
}

#[test]
fn a_symbolic_address_is_resolved_to_its_first_path() {
    let recorded = vec![
        (5i64, "a::b".to_string()),
        (-7, "c".to_string()),
        (5, "never".to_string()),
    ];
    let paths = symbolic_fnaddrs(&bincode::serialize(&recorded).unwrap()).unwrap();
    assert_eq!(paths, recorded);
    assert_eq!(resolve_symbolic_fnaddr_path(&paths, 5), Some("a::b"));
    assert_eq!(resolve_symbolic_fnaddr_path(&paths, -7), Some("c"));
    assert_eq!(resolve_symbolic_fnaddr_path(&paths, 6), None);
    assert_eq!(symbolic_fnaddrs(&vec![1, 2]), Err(TableError::Undecodable));
}

#[test]
fn opcode_names_come_with_their_numbers() {
    let insns: std::collections::BTreeMap<String, u8> =
        [("live".to_string(), 3), ("goto".to_string(), 1)].into_iter().collect();
    let list = liveness_parts(&bincode::serialize(&insns).unwrap()).unwrap();
    assert_eq!(list, vec![("goto".to_string(), 1), ("live".to_string(), 3)]);
    assert_eq!(liveness_parts(&vec![9]), Err(TableError::Undecodable));
    // A name that is written twice has the later number.
    let twice = vec![("live".to_string(), 3u8), ("live".to_string(), 4)];
    let list = liveness_parts(&bincode::serialize(&twice).unwrap()).unwrap();
    assert_eq!(list, vec![("live".to_string(), 4)]);
    // Bytes that are no text are no name.
    let mut broken = bincode::serialize(&vec![("a".to_string(), 3u8)]).unwrap();
    broken[16] = 0xff;
    assert_eq!(liveness_parts(&broken), Err(TableError::Undecodable));
}

#[test]
fn the_portal_is_the_one_the_driver_names() {
    let (drivers, table) = tables();
    assert_eq!(count(&table), 2);
    assert_eq!(all(&table)[1].code, PORTAL);
    assert_eq!(portal_index(&drivers), Some(1));
    assert_eq!(portal_index(&Vec::new()), None);
    assert_eq!(portal_merge_point_offset(&drivers, &table), Some(HEADER));
    assert!(check_tables(&drivers, &table));
    assert!(body_byte(&table, 1, HEADER).is_some());
    assert!(!check_tables(&drivers, &Vec::new()), "the portal is no body");
    let cut = vec![
        Body { code: Vec::new(), jit_merge_point_offset: None },
        Body { code: vec![0], jit_merge_point_offset: Some(1) },
    ];
    assert!(!check_tables(&drivers, &cut), "the merge point is past the code");
    assert_eq!(portal_merge_point_offset(&drivers, &Vec::new()), None);
    assert_eq!(body_byte(&table, 0, 2), Some(3));
    assert_eq!(body_byte(&table, 0, 3), None);
    assert_eq!(body_byte(&table, 2, 0), None);
    let descriptor = grain_driver_descriptor(&drivers[0]);
    assert_eq!(descriptor.greens[0], ("pc".to_string(), Kind::Int));
    assert_eq!(descriptor.greens[2], ("program".to_string(), Kind::Ref));
    assert_eq!(descriptor.reds[1], ("vm".to_string(), Kind::Ref));
}

#[test]
fn every_path_is_bound_to_its_shims_address() {
    let addresses: Vec<i64> = (0..SHIMS as i64).map(|n| 1000 + n).collect();
    let table = runtime_bindings(&addresses);
    assert_eq!(table.len(), BINDINGS);
    let address = |path: &str| table.iter().find(|(name, _)| *name == path).unwrap().1;
    assert_eq!(
        address("rhai::grain::vm::jit::code_byte"),
        1000 + shim_index(Shim::CodeByte) as i64
    );
    // Two paths of one shim have one address.
    assert_eq!(address("__len"), address("rhai::grain::vm::jit::refuse_synthetic_len"));
    assert_eq!(address("rhai::grain::vm::program_name"), address("rhai::grain::vm::jit::program_name"));
    let mut paths: Vec<&str> = table.iter().map(|(path, _)| *path).collect();
    paths.sort();
    paths.dedup();
    assert_eq!(paths.len(), BINDINGS, "no path is bound twice");
}

// --- resuming ---------------------------------------------------------------

/// A numbering of small items: an item that is not negative is stored doubled,
/// and any other as one less than twice its magnitude.
fn numbering(items: &[i32]) -> Vec<u8> {
    let mut bytes = Vec::new();
    for item in items {
        majit_ir::resumecode::encode_varint(&mut bytes, *item);
    }
    bytes
}

#[test]
fn a_guards_frame_is_rebuilt_from_its_numbering() {
    let storage = |items: &[i32]| ResumeStorage {
        rd_numb: numbering(items),
        rd_consts: vec![(17, Kind::Ref)],
    };
    // An item: a number, and what it is the number of.
    let tagged = |value: i32, tag: i32| value * 4 + tag;
    // size 9, two arguments, one own value, no references, then a frame
    let whole = storage(&[9, 2, 1, 5, 0, 3, 200, 4, -1]);
    assert!(whole.is_readable());
    let data = rebuild_from_resumedata(Some(&whole), &vec![Kind::Int, Kind::Ref]).unwrap();
    assert_eq!(data.num_failargs, 2);
    assert_eq!(data.virtualizable_values, vec![Rebuilt::Int(1)]);
    assert_eq!(data.virtualref_values, vec![]);
    assert_eq!(data.frames.len(), 1);
    assert_eq!((data.frames[0].jitcode_index, data.frames[0].pc), (3, 200));
    // No second constant; and the virtual before the first.
    assert_eq!(
        data.frames[0].values,
        vec![Rebuilt::Const(0, Kind::Int), Rebuilt::Virtual(usize::MAX)]
    );
    assert_eq!(data.fail_arg_types, vec![Kind::Int, Kind::Ref]);

    // One of each, past an announced size that leaves the last two out.
    let items = [
        13,
        5,
        2,
        tagged(0, 0),
        tagged(-6, 1),
        1,
        tagged(7, 2),
        tagged(-2, 2),
        3,
        200,
        tagged(9, 3),
        tagged(-1, 0),
        tagged(-2, 0),
        tagged(1, 1),
        tagged(2, 1),
    ];
    let each = storage(&items);
    assert!(each.is_readable());
    let data = rebuild_from_resumedata(Some(&each), &Vec::new()).unwrap();
    assert_eq!(data.num_failargs, 5);
    assert_eq!(data.virtualizable_values, vec![Rebuilt::Const(17, Kind::Ref), Rebuilt::Int(-6)]);
    assert_eq!(data.virtualref_values, vec![Rebuilt::Slot(7), Rebuilt::Slot(3)]);
    assert_eq!(
        data.frames[0].values,
        vec![Rebuilt::Virtual(9), Rebuilt::Const(0, Kind::Ref), Rebuilt::Unassigned]
    );

    // Nothing recorded, and nothing after the rows.
    assert!(rebuild_from_resumedata(None, &Vec::new()).is_none());
    let rows = storage(&[6, 0, 0, 1, 7, 8]);
    assert!(rows.is_readable());
    assert!(rebuild_from_resumedata(Some(&rows), &Vec::new()).is_none());

    assert!(!storage(&[4, 0, 1, 5]).is_readable());
    assert!(!storage(&[1, 0, 0]).is_readable());
    let mut cut = storage(&[4, 0, 0, 0, 5000]);
    cut.rd_numb.pop();
    assert!(!cut.is_readable());
}

// --- helpers ----------------------------------------------------------------

fn op(tag: u8, words: &[u16]) -> Vec<u8> {
    let mut bytes = vec![tag];
    for w in words {
        bytes.extend_from_slice(&w.to_le_bytes());
    }
    bytes
}

fn jump(tag: u8, target: u32) -> Vec<u8> {
    let mut bytes = vec![tag];
    bytes.extend_from_slice(&target.to_le_bytes());
    bytes
}

fn binary(tag: u8, name: u16, kind: BinOpKind, sources: &[u16]) -> Vec<u8> {
    let mut bytes = vec![tag];
    bytes.extend_from_slice(&name.to_le_bytes());
    bytes.push(kind as u8);
    bytes.extend_from_slice(&0u16.to_le_bytes());
    for s in sources {
        bytes.extend_from_slice(&s.to_le_bytes());
    }
    bytes
}

fn call_op(name: u16, argc: u8) -> Vec<u8> {
    let mut bytes = op(tag::CALL, &[name]);
    bytes.push(argc);
    bytes
}

fn blank() -> Program {
    Program {
        id: 1,
        code: Vec::new(),
        names: Vec::new(),
        constants: Vec::new(),
        tokens: Vec::new(),
        assign_ops: Vec::new(),
        chains: Vec::new(),
        switches: Vec::new(),
        functions: Vec::new(),
        residuals: 0,
        positions: Vec::new(),
        main: Chunk { entry: 0, end: 0 },
        max_stack: 8,
        source: None,
        lib: None,
        resolver: None,
    }
}

fn whole(i: i64) -> Dynamic {
    Dynamic::from_int(i)
}

/// A program with one function `add(a, b)` of this body.
fn adder(body: &[Vec<u8>]) -> Program {
    let code: Vec<u8> = body.concat();
    let chunk = Chunk { entry: 0, end: code.len() as u32 };
    Program {
        code,
        names: ["add", "+", "abs", "s", "other"].iter().map(|n| n.to_string()).collect(),
        tokens: vec!["+".to_string()],
        functions: vec![Function {
            name: 0,
            param_names: vec!["a".to_string(), "b".to_string()],
            this_type: None,
            takes_this: false,
            chunk,
        }],
        ..blank()
    }
}

#[test]
fn a_body_that_only_adds_is_recognised() {
    let sum = || binary(tag::BIN_OP_FROM_LOCAL, 1, BinOpKind::Add, &[0, 1]);
    let ret = || op(tag::RETURN, &[]);
    let loads = || [op(tag::LOAD_LOCAL, &[0]), op(tag::LOAD_LOCAL, &[1])].concat();
    let is = |body: &[Vec<u8>]| compiled_fn_is_plain_add(&adder(body), 0, 2) == 1;
    assert!(is(&[sum(), ret()]));
    assert!(is(&[op(tag::TICK, &[]), sum()]));
    assert!(is(&[loads(), binary(tag::BIN_OP, 1, BinOpKind::Add, &[]), ret()]));
    assert!(is(&[loads(), call_op(1, 2), ret()]));
    assert!(is(&[loads(), call_op(1, 2)]));
    assert!(!is(&[loads(), call_op(4, 2), ret()]), "another function is no addition");
    assert!(!is(&[binary(tag::BIN_OP_FROM_LOCAL, 1, BinOpKind::Add, &[1, 0]), ret()]));
    assert!(!is(&[binary(tag::BIN_OP_FROM_LOCAL, 1, BinOpKind::Subtract, &[0, 1]), ret()]));
    assert!(!is(&[]));
    assert_eq!(compiled_fn_is_plain_add(&adder(&[sum(), ret()]), 0, 1), 0);
    assert_eq!(compiled_fn_is_plain_add(&adder(&[sum(), ret()]), 3, 2), 0);
}

#[test]
fn an_addition_by_reference_is_answered_on_the_spot() {
    let engine = Engine::new(1);
    let program = adder(&[
        binary(tag::BIN_OP_FROM_LOCAL, 1, BinOpKind::Add, &[0, 1]),
        op(tag::RETURN, &[]),
    ]);
    let mut held = Held::new();
    let mut vm = Vm::new(&engine);
    let mut scope = Scope::new();
    scope.push_dynamic("s", whole(40));
    vm.push_fast(&mut held, whole(2));
    let out = vm.call_by_reference_abi(
        &mut held,
        &program,
        0,
        2,
        Receiver::Local(0),
        &mut scope,
        0,
        false,
        0,
    );
    assert!(out.is_none());
    assert_eq!(vm.depth(), 1);
    assert_eq!(held.plain_adds, vec![(1, 0, true)]);

    // The magnitude of a variable, by its name.
    let mut vm = Vm::new(&engine);
    let mut scope = Scope::new();
    scope.push_dynamic("s", whole(i64::MIN));
    let pos = Position { line: 2, column: 7 };
    let out = vm.call_by_reference_abi(
        &mut held,
        &program,
        2,
        1,
        receiver_of(1, 3),
        &mut scope,
        0,
        false,
        position_bits(pos),
    );
    let err = out.unwrap();
    assert_eq!(err.pos, pos);
    assert!(matches!(
        &err.kind,
        FailureKind::ErrorArithmetic(text) if text == "Negation overflow: --9223372036854775808"
    ));

    // No such name.
    let out = vm.call_by_reference_abi(
        &mut held,
        &program,
        77,
        1,
        Receiver::This,
        &mut scope,
        0,
        false,
        position_bits(pos),
    );
    assert!(format!("{:?}", out.unwrap().kind).contains("malformed chunk: no name 77"));
}

#[test]
fn a_stacked_addition_takes_its_operands_place() {
    let engine = Engine::new(1);
    let program = adder(&[
        binary(tag::BIN_OP_FROM_LOCAL, 1, BinOpKind::Add, &[0, 1]),
        op(tag::RETURN, &[]),
    ]);
    let mut held = Held::new();
    let mut vm = Vm::new(&engine);
    let mut scope = Scope::new();
    for i in [1, 20, 22] {
        vm.push_fast(&mut held, whole(i));
    }
    let out =
        vm.call_syntactic_or_stacked_abi(&mut held, &program, 0, 2, 1, &mut scope, false, 0);
    assert!(out.is_none());
    assert_eq!(vm.depth(), 2);
    let table = Switch {
        cases: vec![Case { literal: whole(42), target: 7 }],
        ranges: vec![RangeCase { from: 50, to: 60, inclusive: true, target: 8 }],
        default: 9,
    };
    assert_eq!((table.int_key(0), table.int_key(1)), (Some(42), None));
    assert_eq!(table.range(0).target, 8);
    assert_eq!(table.range(1).target, 0);
    assert_eq!(table.dispatch(&whole(60)), 8);
    assert_eq!(table.dispatch(&whole(61)), 9);
    assert!(vm.switch_dispatch(&mut held, &table).is_none());
    assert_eq!(held.switch_target, 7);
    assert!(vm.switch_pop_subject(&mut held, &table).is_none());
    assert_eq!((held.switch_kind, held.fast_int), (1, 1));
    assert!(vm.switch_dispatch(&mut held, &table).is_some(), "nothing is left");

    vm.push_fast(&mut held, Dynamic::from_bool(true));
    assert!(vm.switch_pop_subject(&mut held, &table).is_none());
    assert_eq!((held.switch_kind, held.switch_target), (0, 9));
}

#[test]
fn additions_and_magnitudes_say_whether_they_were_done() {
    let engine = Engine::new(1);
    let program = adder(&[]);
    let mut held = Held::new();
    let mut vm = Vm::new(&engine);
    let mut scope = Scope::new();
    scope.push_dynamic("s", whole(-5));
    assert!(vm.call_plain_add_abi(&mut held, 0).is_none());
    assert!(!held.plain_add_handled);
    assert!(vm.call_plain_abs_ref_abi(&mut held, &scope, 0, 0, 0).is_none());
    assert!(held.unary_handled);
    assert!(vm.call_plain_add_ref_abi(&mut held, &scope, 0, 0, 0).is_none());
    assert!(held.plain_add_handled);
    assert_eq!(vm.depth(), 1);
    assert!(vm.call_plain_add_ref_abi(&mut held, &scope, 0, 1, 0).is_none());
    assert!(!held.plain_add_handled, "there is no such local");
    // -5 + 5 is on the stack
    assert!(vm.unary_builtin_abi(&mut held, &program, 2, 0, 0).is_none());
    assert!(held.unary_handled);
    assert!(vm.unary_builtin_abi(&mut held, &program, 3, 0, 0).is_none());
    assert!(!held.unary_handled);
    assert!(vm.call_plain_add_abi(&mut held, 0).is_none());
    assert!(held.plain_add_handled);
    assert_eq!(vm.depth(), 1);
    assert_eq!((name_is_abs(&program, 2), name_is_abs(&program, 3)), (1, 0));
}

#[test]
fn a_built_in_leaves_its_operands_under_its_value() {
    let engine = Engine::new(1);
    let program = adder(&[]);
    let mut held = Held::new();
    let mut vm = Vm::new(&engine);
    let text = |s: &str| Dynamic::from_text(s.to_string());
    vm.answer_with(vec![
        Answer::plain(Reply::Handle(5, false)),
        Answer::plain(Reply::Value(text("ab"))),
    ]);
    for s in ["a", "b", "more"] {
        vm.push_fast(&mut held, text(s));
    }
    assert!(vm.operator_builtin_abi(&mut held, &program, "+", 1, 0, 7, 0).is_none());
    assert!(held.operator_handled);
    assert_eq!(vm.depth(), 4);
    let top = vm.operand_stack_entry(&mut held, 3).unwrap();
    assert!(matches!(&top.value, Union::Str(s) if s == "ab"));
    assert!(!held.abort);

    // Host values are left to their functions.
    vm.operand_stack_store(&mut held, 0, &mut Dynamic::of(Union::Variant("T".to_string(), 1)));
    assert!(vm.operator_builtin_abi(&mut held, &program, "+", 1, 0, 7, 0).is_none());
    assert!(!held.operator_handled);
    assert!(vm.operator_builtin_abi(&mut held, &program, "+", 1, 1 << 40, 7, 0).is_none());
    assert!(held.abort);
}

#[test]
fn operand_slots_are_read_and_written_by_number() {
    let engine = Engine::new(1);
    let mut held = Held::new();
    let mut vm = Vm::new(&engine);
    vm.grow_stack_abi(&mut held, 4);
    vm.push_fast(&mut held, whole(1));
    vm.operand_stack_store_int(&mut held, 0, 8);
    assert_eq!(vm.operand_stack_entry(&mut held, 0).unwrap().as_int(), Ok(8));
    vm.operand_stack_store_bool(&mut held, 0, 2);
    let bool_slot = vm.operand_stack_entry(&mut held, 0).unwrap();
    assert!(matches!(bool_slot.value, Union::Bool(true)));
    vm.operand_stack_store_float(&mut held, 0, 1.5f64.to_bits());
    let mut taken = Dynamic::unit();
    vm.operand_stack_take(&mut held, 0, &mut taken);
    assert!(matches!(taken.value, Union::Float(bits) if f64::from_bits(bits) == 1.5));
    assert!(vm.operand_stack_entry(&mut held, 0).unwrap().is_unit());
    vm.operand_stack_store_unit(&mut held, 0);
    // A slot above the top holds unit.
    vm.operand_stack_take(&mut held, 3, &mut taken);
    assert!(taken.is_unit() && !held.abort);
    assert!(vm.operand_stack_entry(&mut held, 3).unwrap().is_unit());
    assert!(vm.operand_stack_entry(&mut held, 4).is_none());
    assert!(held.abort);
    let mut target = whole(1);
    let mut value = whole(2);
    dynamic_store(&mut target, &mut value);
    assert_eq!(target.as_int(), Ok(2));
    assert!(value.is_unit());
}

#[test]
fn a_built_in_assignment_is_asked_for_and_then_run() {
    let engine = Engine::new(1);
    let program = adder(&[]);
    let op = AssignOp { kind: None, op_assign_name: 1, op_name: 1 };
    let mut vm = Vm::new(&engine);
    let done = Answer {
        operands: vec![whole(9), Dynamic::unit()],
        ..Answer::plain(Reply::Value(Dynamic::unit()))
    };
    vm.answer_with(vec![
        Answer::plain(Reply::Value(Dynamic::unit())),
        Answer::plain(Reply::Nothing),
        done,
        Answer { operands: vec![whole(9), whole(3)], ..Answer::plain(Reply::Nothing) },
    ]);
    let mut target = whole(4);
    assert_eq!(vm.store_builtin_available(&program, op, &target, &whole(5)), 1);
    assert_eq!(vm.store_builtin_available(&program, op, &target, &whole(5)), 0);
    assert!(vm.store_builtin_apply(&program, op, &mut target, whole(5), 0).is_none());
    assert_eq!(target.as_int(), Ok(9));
    let err = vm.store_builtin_apply(&program, op, &mut target, whole(3), 0).unwrap();
    assert!(format!("{:?}", err.kind).contains("answered twice and disagreed"));
}

#[test]
fn a_compiled_call_with_too_few_operands_is_an_error() {
    let engine = Engine::new(1);
    let program = adder(&[op(tag::UNIT, &[]), op(tag::RETURN, &[])]);
    let mut held = Held::new();
    let mut vm = Vm::new(&engine);
    let mut scope = Scope::new();
    vm.push_fast(&mut held, whole(1));
    let err = vm
        .call_syntactic_or_stacked_abi(&mut held, &program, 0, 2, 0, &mut scope, false, 0)
        .unwrap();
    assert!(format!("{:?}", err.kind).contains("call with too few arguments"));
}

#[test]
fn what_is_known_of_one_program_survives_another() {
    let sum = || binary(tag::BIN_OP_FROM_LOCAL, 1, BinOpKind::Add, &[0, 1]);
    let first = adder(&[sum(), op(tag::RETURN, &[])]);
    let second = Program { id: 2, ..adder(&[op(tag::UNIT, &[]), op(tag::RETURN, &[])]) };
    let mut held = Held::new();
    assert!(cached_plain_add(&mut held, &first, 0));
    assert!(!cached_plain_add(&mut held, &second, 0));
    assert!(cached_plain_add(&mut held, &first, 0));
    assert_eq!(held.plain_adds, vec![(1, 0, true), (2, 0, false)]);
    assert!(function_body_is_plain_add(&first, 0, 2));
    assert!(!function_body_is_plain_add(&first, 0, 3), "there is no such function");
}

#[test]
fn variables_are_reached_by_name_and_by_slot() {
    let engine = Engine::new(1);
    let program = adder(&[]);
    let mut held = Held::new();
    let mut vm = Vm::new(&engine);
    let mut scope = Scope::new();
    vm.push_fast(&mut held, whole(1));
    assert!(vm.declare_local_abi(&program, &mut scope, 3, false, 0).is_none());
    vm.push_fast(&mut held, whole(2));
    assert!(vm.assign_named_abi(&program, &mut scope, 3, None, 0).is_none());
    assert_eq!(scope.get_by_index(0).as_int(), Ok(2));
    assert!(vm.load_named_abi(&program, &mut scope, 3, true, 0).is_none());
    assert_eq!(vm.depth(), 1);
    assert!(vm.store_shared_from_stack(&mut held, &program, &mut scope, 0, 0).is_none());
    assert!(held.committed);
    vm.store_scope_int(&mut held, &program, &mut scope, 0, 8, 0);
    assert_eq!(scope.get_by_index(0).as_int(), Ok(8));
    vm.push_fast(&mut held, whole(3));
    assert!(vm
        .assign_local_abi(&mut held, &program, &mut scope, 0, 0, 3, source_of(0, 0), None, 0)
        .is_none());
    assert_eq!(scope.get_by_index(0).as_int(), Ok(3));
    vm.push_fast(&mut held, whole(4));
    assert!(vm.store_scope_slot(&program, &mut scope, 0, true, 0).is_none());
    assert_eq!(scope.get_by_index(0).mode, AccessMode::ReadOnly);
    vm.push_fast(&mut held, whole(5));
    let err = vm.assign_named_abi(&program, &mut scope, 3, None, 0).unwrap();
    assert!(matches!(&err.kind, FailureKind::ErrorAssignmentToConstant(name) if name == "s"));
    let err = vm.load_named_abi(&program, &mut scope, 4, true, 0).unwrap();
    assert!(matches!(&err.kind, FailureKind::ErrorVariableNotFound(name) if name == "other"));
    vm.push_fast(&mut held, whole(6));
    assert!(vm.catch_bind_abi(&program, &mut scope, 4, 0).is_none());
    assert_eq!(scope.len(), 2);
    assert!(vm.share_named_abi(&program, &mut scope, 4, 0).is_none());
    assert!(scope.get_by_index(1).is_shared());
    assert_eq!(vm.dynamic_as_fast(&mut held, scope.get_by_index(1)), 1);
    assert_eq!(held.fast_int, 6);
    assert!(vm.make_closure_abi(&program, &scope, 0).is_none());
    assert_eq!(vm.depth(), 1);

    assert!(!held.abort);
    assert!(vm
        .assign_local_abi(&mut held, &program, &mut scope, 0, 1 << 40, 3, source_of(1, 0), None, 0)
        .is_none());
    assert!(held.abort, "a slot that is an address abandons the walk");

    // A constant there is none of, whose number would name one in sixteen bits.
    let mut held = Held::new();
    let err = vm
        .assign_local_abi(
            &mut held,
            &program,
            &mut scope,
            0,
            1,
            4,
            source_of(2, 1 << 16),
            None,
            0,
        )
        .unwrap();
    assert!(format!("{:?}", err.kind).contains("malformed chunk: no constant 65536"));
    assert_eq!(receiver_of(1, 70_000), Receiver::Named(70_000));
    assert_eq!(receiver_of(0, 70_000), Receiver::Local(4464));
}

#[test]
fn plain_values_are_told_apart() {
    let engine = Engine::new(1);
    let vm = Vm::new(&engine);
    let mut held = Held::new();
    assert_eq!(vm.dynamic_as_fast(&mut held, &whole(4)), 1);
    assert_eq!(vm.dynamic_as_fast(&mut held, &Dynamic::from_bool(true)), 2);
    let half = Dynamic::of(Union::Float(0.5f64.to_bits()));
    assert_eq!(vm.dynamic_as_fast(&mut held, &half), 3);
    assert_eq!(vm.dynamic_as_fast(&mut held, &Dynamic::unit()), 4);
    assert_eq!(vm.dynamic_as_fast(&mut held, &Dynamic::from_text("x".to_string())), 0);
    assert_eq!((held.fast_int, held.fast_bool, held.fast_float), (4, 1, 0.5f64.to_bits()));
    // A cell that is not there cannot be read.
    assert_eq!(vm.dynamic_as_fast(&mut held, &Dynamic::of(Union::Shared(3))), 0);
}

#[test]
fn code_is_read_in_single_words() {
    let mut program = blank();
    program.code = vec![tag::LOAD_LOCAL, 0x34, 0x12, 0, 0, 255];
    program.positions = vec![Position { line: 3, column: 9 }];
    assert_eq!(code_byte(&program, 1), 0x34);
    assert_eq!(code_byte(&program, 6), -1);
    assert_eq!(code_width(&program, 0), 3);
    assert_eq!(code_width(&program, 5), -1);
    assert_eq!(code_u16(&program, 1), 0x1234);
    assert_eq!(code_u16(&program, 5), -1);
    assert_eq!(code_u32(&program, 1), 0x1234);
    assert_eq!(code_u32(&program, 3), -1);
    assert_eq!(code_position_bits(&program, 0), 3 << 16 | 9);
    assert_eq!(code_position_bits(&program, 4), 0);
    assert_eq!(position_from_bits(3 << 16 | 9), Position { line: 3, column: 9 });
    assert_eq!(position_from_bits(9), Position::none());
    assert_eq!((int_max(2, 3), int_max(-1, -2)), (3, -1));
    assert!(live_count(0xffff) && !live_count(0x10000));
    assert!(live_address(0x1001) && !live_address(0x1000));
}

#[test]
fn a_remainder_is_left_for_the_next_helper() {
    let mut held = Held::new();
    assert!(int_modulo(&mut held, 17, 5).is_none());
    assert_eq!(held.int_modulo, 2);
    assert!(int_modulo(&mut held, 17, 0).is_some());
    assert_eq!(held.int_modulo, 2);
}

#[test]
fn stacks_are_cut_back_to_counts_only() {
    let engine = Engine::new(1);
    let mut vm = Vm::new(&engine);
    let mut held = Held::new();
    for i in 0..4 {
        vm.push_fast(&mut held, whole(i));
    }
    vm.truncate_stack_abi(&mut held, 1);
    assert_eq!(vm.depth(), 1);
    assert!(held.committed && !held.abort);
    vm.truncate_stack_abi(&mut held, 0x10000);
    assert_eq!(vm.depth(), 1);
    assert!(held.abort);
    let mut held = Held::new();
    vm.iterators_pop(&mut held);
    assert!(!held.committed, "there is no loop to drop");
    vm.iterators_truncate(&mut held, 0);
    vm.handlers_truncate(&mut held, 0);
    vm.sizes_truncate(&mut held, 0);
    let mut scope = Scope::new();
    scope.push_dynamic("x", whole(1));
    scope_rewind(&mut held, &mut scope, 0x10000);
    assert_eq!(scope.len(), 1);
    scope_rewind(&mut held, &mut scope, 0);
    assert_eq!(scope.len(), 0);
}

#[test]
fn payloads_are_written_in_place() {
    let mut value = whole(1).into_read_only();
    value.tag = 5;
    dynamic_store_int(&mut value, 2);
    assert_eq!((value.as_int(), value.tag, value.mode), (Ok(2), 5, AccessMode::ReadOnly));
    let mut value = Dynamic::of(Union::Float(0));
    dynamic_store_float(&mut value, 2.0f64.to_bits());
    assert!(matches!(value.value, Union::Float(bits) if bits == 2.0f64.to_bits()));
    let mut iteration = Iteration { items: Items::IntRange { next: 1, end: 9 }, count: -1 };
    store_int_range_next(&mut iteration.items, 4);
    store_iteration_count(&mut iteration, 2);
    assert_eq!(iteration, Iteration { items: Items::IntRange { next: 4, end: 9 }, count: 2 });
    let mut hosted = Items::Hosted { handle: 3 };
    store_int_range_next(&mut hosted, 4);
    assert_eq!(hosted, Items::Hosted { handle: 3 });
}

#[test]
fn a_loop_moved_on_by_a_helper_says_whether_it_had_an_item() {
    let engine = Engine::new(1);
    let program = adder(&[]);
    let mut held = Held::new();
    let mut vm = Vm::new(&engine);
    let mut scope = Scope::new();
    scope.push_dynamic("s", whole(0));
    let err = vm.iter_next_store(&mut held, &program, &mut scope, 0, 0).unwrap();
    assert!(format!("{err:?}").contains("no iterator to advance"));
    assert!(vm.iter_next_store(&mut held, &program, &mut scope, 1 << 20, 0).is_none());
    assert!(held.abort);
    vm.push_from_cell(scope.get_by_index(0));
    assert_eq!(vm.depth(), 1);
    vm.track_operation_abi(0);
    let mut held = Held::new();
    vm.grow_stack_abi(&mut held, 40);
    assert!(vm.allocated() == 64 && held.committed);
    let mut held = Held::new();
    vm.grow_stack_abi(&mut held, 1 << 20);
    assert!(vm.allocated() == 64 && held.abort);
    held = Held::new();
    assert_eq!(vm.fast_operators(), 1);
    assert_eq!(program_name(&mut held, &program, 2), 1);
    assert_eq!(held.program_name.as_deref(), Some("abs"));
    assert_eq!(program_name(&mut held, &program, 99), 0);
    assert_eq!(held.program_name, None);
}

#[test]
fn a_finished_frame_hands_its_value_over_once() {
    let mut frame = GrainFrame::new(0, 0, 0);
    let mut value = whole(1);
    assert!(frame.take_finished_result(&mut value).is_none());
    assert_eq!(value.as_int(), Ok(1));
    frame.stash_ok_result(&whole(9));
    assert_eq!(frame.jit_return_kind, 1);
    assert!(frame.take_finished_result(&mut value).is_none());
    assert_eq!(value.as_int(), Ok(9));
    assert_eq!(frame.jit_return_kind, 0);
    assert!(frame.jit_finished.is_none());
}
