//! Frames: the dispatch loop, and catching what fails in it.
//!
//! A frame runs the instructions of one body from its entry until one returns
//! or fails. A failure goes to the innermost `try` the frame has entered, and
//! the loop starts again at its catch block.
use vstd::prelude::*;

use crate::bytecode::{decode, decoded, Op, Unreadable};
use crate::call::{called_by_reference, called_fn_ptr, gave, levels_left};
use crate::element::{
    chain_at, chain_kept, did_index_get, did_index_set, dropped, pool_chain, top, turned,
};
use crate::debug::did_statement;
use crate::dict::{all_bound, bound};
use crate::error::{
    fail, malformed, malformed_fail, malformed_number, raised, result_view, unnumbered, Error, Fail,
    FailureKind, VmResult,
};
use crate::heap::flattened;
use crate::host::{reply_value, value_of, Ask, Request};
use crate::machine::{
    asked, counted, faults_cleared, follows, handler_views, popped, text_view, Handler, Machine,
    Registers, Vm,
};
use crate::operate::{operated, stepped_as, transferred, Flow, Stepped};
use crate::ops::{
    did_append, did_assign_local, did_assign_named, did_assign_this, did_check_size, did_checkpoint,
    did_const, did_curry, did_declare, did_eval_ast, did_interpolate_end, did_is_shared,
    did_iter_drop, did_iter_init, did_load_local, did_load_named, did_load_shared, did_load_this,
    did_make_array, did_make_closure, did_make_fn_ptr, did_make_map, did_pop, did_pop_handler,
    did_push_handler, did_require_this, did_rotate, did_share, did_share_named, did_store_local,
    did_store_shared, did_throw, did_unwind_to, guard, named, pool_name, Did,
};
use crate::position::{nowhere, Position};
use crate::program::{Program, Tail};
use crate::scope::{declared, rewound, Names, Scope};
use crate::value::{all_views, copied, datum, unit, AccessMode, Data, Datum, Dict, Dynamic, Union};

verus! {

/// What a frame starts from.
#[verifier::ext_equal]
pub struct Entry {
    pub p: Program,
    pub m: Machine,
    pub scope: Names,
    pub entry: u32,
    pub base: usize,
}

/// What a frame ran to: its result, the run and the scope after, and the
/// address of the last instruction it reached.
#[verifier::ext_equal]
pub struct Ran {
    pub result: Result<Datum, Fail>,
    pub m: Machine,
    pub scope: Names,
    pub reached: usize,
}

/// What running a body gives.
pub type Runner = spec_fn(Entry) -> Ran;

/// What running the bodies called from a frame gives, with this many call
/// levels left in the frame.
#[verifier::opaque]
pub open spec fn below(n: nat) -> Runner
    decreases n, 0nat,
{
    |e: Entry|
        if n == 0 {
            arbitrary()
        } else {
            executed((n - 1) as nat, e)
        }
}

/// A frame run with this many call levels left in it.
#[verifier::opaque]
pub open spec fn executed(n: nat, e: Entry) -> Ran
    decreases n, 1nat,
{
    executed_with(below(n), e)
}

/// A body called from a frame has one call level less.
pub proof fn below_runs(n: nat)
    requires
        n > 0,
    ensures
        forall|e: Entry| #[trigger] below(n)(e) == executed((n - 1) as nat, e),
{
    reveal(below);
    reveal(executed);
}

// ---------------------------------------------------------------------------
// One instruction.

/// An instruction that neither transfers control nor calls a body.
#[verifier::opaque]
pub open spec fn plain_did(
    p: Program,
    m: Machine,
    scope: Names,
    base: usize,
    pos: Position,
    op: Op,
) -> Did {
    match op {
        Op::Const(i) => did_const(p, m, scope, i),
        Op::Unit => (Ok(()), m.push(unit()), scope),
        Op::Bool(b) => (Ok(()), m.push(datum(Data::Bool(b))), scope),
        Op::LoadLocal(slot) => did_load_local(m, scope, base, slot),
        Op::StoreLocal { slot, constant } => did_store_local(
            p,
            m,
            scope,
            base,
            slot,
            if constant {
                AccessMode::ReadOnly
            } else {
                AccessMode::ReadWrite
            },
            pos,
        ),
        Op::LoadNamed { name, flatten } => did_load_named(p, m, scope, name, flatten, pos),
        Op::AssignNamed { name, op } => did_assign_named(p, m, scope, name, op, pos),
        Op::Declare { name, constant } => did_declare(p, m, scope, name, constant),
        Op::AssignLocal { slot, name, from, op } => did_assign_local(
            p,
            m,
            scope,
            base,
            slot,
            name,
            from,
            op,
            pos,
        ),
        Op::LoadThis { flatten } => did_load_this(m, scope, flatten, pos),
        Op::RequireThis => did_require_this(m, scope, pos),
        Op::AssignThis { op } => did_assign_this(p, m, scope, op, pos),
        Op::Pop => did_pop(m, scope),
        Op::EvalAst { index, rewind } => did_eval_ast(p, m, scope, index, rewind, pos),
        Op::Rotate(under) => did_rotate(m, scope, under),
        Op::MakeArray(len) => did_make_array(m, scope, len),
        Op::MakeMap(len) => did_make_map(m, scope, len),
        Op::CheckSize { index, map } => did_check_size(m, scope, index, map, pos),
        Op::LoadShared(slot) => did_load_shared(m, scope, base, slot),
        Op::Share(slot) => did_share(m, scope, base, slot),
        Op::ShareNamed(name) => did_share_named(p, m, scope, name, pos),
        Op::MakeClosure(name) => did_make_closure(p, m, scope, name),
        Op::IsShared => did_is_shared(m, scope),
        Op::MakeFnPtr => did_make_fn_ptr(m, scope, pos),
        Op::Curry(argc) => did_curry(m, scope, argc, pos),
        Op::InterpolateStart => (Ok(()), m.push(datum(Data::Str(""@))), scope),
        Op::InterpolateAppend => did_append(m, scope, pos),
        Op::InterpolateEnd => did_interpolate_end(m, scope),
        Op::UnwindTo(depth) => did_unwind_to(m, scope, base, depth),
        Op::Tick => {
            let (r, m1) = counted(m, pos);
            (r, m1, scope)
        },
        Op::Checkpoint => did_checkpoint(m, scope),
        Op::Statement(depth) => did_statement(m, scope, depth, pos),
        Op::PushHandler { target, var } => did_push_handler(m, scope, target, var),
        Op::PopHandler => did_pop_handler(m, scope),
        Op::IterInit => did_iter_init(m, scope, pos),
        Op::IterDrop => did_iter_drop(m, scope),
        Op::StoreShared(slot) => did_store_shared(p, m, scope, base, slot, pos),
        _ => did_throw(m, scope, pos),
    }
}

/// On to the next instruction, where this one went well.
pub open spec fn then_next(did: Did, next: usize) -> Stepped {
    match did {
        (Ok(_), m, scope) => (Ok(Flow::Next(next)), m, scope),
        (Err(err), m, scope) => (Err(err), m, scope),
    }
}

/// A call's value pushed.
pub open spec fn pushed(gave: crate::site::Gave) -> Did {
    match gave {
        (Ok(v), m, scope) => (Ok(()), m.push(v), scope),
        (Err(err), m, scope) => (Err(err), m, scope),
    }
}

/// A branch on the top operand.
pub open spec fn branched(
    p: Program,
    m: Machine,
    scope: Names,
    pc: usize,
    next: usize,
    target: u32,
    when: bool,
) -> Stepped {
    match popped(m) {
        Err(err) => (Err(err), m, scope),
        Ok((v, m1)) => match guard(m1, v, p.pos_of(pc as int)) {
            Err(err) => (Err(err), m1, scope),
            Ok(holds) => if holds == when {
                transferred(p, m1, scope, pc, target)
            } else {
                (Ok(Flow::Next(next)), m1, scope)
            },
        },
    }
}

/// A jump past what follows, unless the top operand is unit.
pub open spec fn skipped(
    p: Program,
    m: Machine,
    scope: Names,
    pc: usize,
    next: usize,
    target: u32,
) -> Stepped {
    if m.stack.len() == 0 {
        (Err(malformed_fail("operand stack underflow"@)), m, scope)
    } else if !(m.stack.last().data is Unit) {
        transferred(p, m, scope, pc, target)
    } else {
        (Ok(Flow::Next(next)), m, scope)
    }
}

/// A jump to the case the top operand answers to, read out of any cell it is
/// in.
pub open spec fn switched(p: Program, m: Machine, scope: Names, pc: usize, index: u16) -> Stepped {
    if index >= p.switches@.len() {
        (Err(unnumbered("no switch "@, index as nat, ""@)), m, scope)
    } else {
        match popped(m) {
            Err(err) => (Err(err), m, scope),
            Ok((v, m1)) => transferred(
                p,
                m1,
                scope,
                pc,
                p.switches@[index as int].goes(flattened(m1.heap, v).data, 0),
            ),
        }
    }
}

/// A chain an instruction names, with its value kept where it reads one and
/// something wants it.
pub open spec fn chained(
    k: Runner,
    p: Program,
    m: Machine,
    scope: Names,
    base: usize,
    index: u16,
    discard: bool,
    pos: Position,
) -> Did {
    match chain_at(p, index) {
        Err(err) => (Err(err), m, scope),
        Ok(chain) => chain_kept(
            k,
            p,
            m,
            scope,
            base,
            index,
            chain.tail is Read && !discard,
            pos,
        ),
    }
}

/// A call by reference an instruction names.
pub open spec fn called_ref(
    k: Runner,
    p: Program,
    m: Machine,
    scope: Names,
    base: usize,
    name: u16,
    argc: u8,
    receiver: crate::bytecode::Receiver,
    capture: bool,
    pos: Position,
) -> Did {
    match named(p, name as int) {
        Err(err) => (Err(err), m, scope),
        Ok(text) => pushed(
            called_by_reference(
                k,
                p,
                m,
                scope,
                base,
                name as u32,
                text,
                argc as int,
                receiver,
                capture,
                pos,
            ),
        ),
    }
}

/// One instruction. `floor` is where the frame's operands begin.
#[verifier::opaque]
pub open spec fn stepped(
    k: Runner,
    p: Program,
    m: Machine,
    scope: Names,
    base: usize,
    floor: usize,
    pc: usize,
    next: usize,
    op: Op,
) -> Stepped {
    let pos = p.pos_of(pc as int);
    match op {
        Op::Jump(target) => transferred(p, m, scope, pc, target),
        Op::JumpIf { target, when } => branched(p, m, scope, pc, next, target, when),
        Op::SkipIfNotUnit(target) => skipped(p, m, scope, pc, next, target),
        Op::Switch(index) => switched(p, m, scope, pc, index),
        Op::IterNext { body, indexed, store } => turned(
            p,
            m,
            scope,
            base,
            pc,
            next,
            body,
            indexed,
            store,
        ),
        Op::Operate(o) => operated(k, p, m, scope, base, pc, next, o),
        Op::CallRef { name, argc, receiver, capture } => then_next(
            called_ref(k, p, m, scope, base, name, argc, receiver, capture, pos),
            next,
        ),
        Op::CallFnPtr { argc, method, receiver } => then_next(
            pushed(called_fn_ptr(k, p, m, scope, base, argc as int, method, receiver, pos)),
            next,
        ),
        Op::Chain { index, discard } => then_next(
            chained(k, p, m, scope, base, index, discard, pos),
            next,
        ),
        Op::IndexSet(o) => then_next(did_index_set(k, p, m, scope, base, o, pos), next),
        Op::IndexGet { chain, root, index } => then_next(
            did_index_get(k, p, m, scope, base, chain, root, index, pos),
            next,
        ),
        Op::Return => (Ok(Flow::Leave(top(m))), dropped(m).truncate(floor as int), scope),
        _ => then_next(plain_did(p, m, scope, base, pos, op), next),
    }
}

// ---------------------------------------------------------------------------
// The loop.

/// What is wrong with code no instruction can be read from.
pub open spec fn unreadable(why: Unreadable) -> Fail {
    match why {
        Unreadable::End => fail(
            FailureKind::ErrorRuntime(datum(Data::Str("ran off the end of a chunk"@))),
            nowhere(),
        ),
        Unreadable::Unknown => malformed_fail("undecodable instruction"@),
        Unreadable::Truncated => malformed_fail("undecodable instruction"@),
    }
}

/// How many operations a run can still count.
pub open spec fn operations_left(m: Machine) -> nat {
    (u64::MAX - m.regs.operations) as nat
}

/// How much code lies ahead of an address.
pub open spec fn code_left(p: Program, pc: usize) -> nat {
    if pc < p.code@.len() {
        (p.code@.len() - pc) as nat
    } else {
        0
    }
}

/// Whether control moved on: to an address further ahead, or at the cost of an
/// operation.
pub open spec fn moved_on(before: Machine, after: Machine, pc: usize, to: usize) -> bool {
    after.regs.operations > before.regs.operations || (after.regs.operations
        == before.regs.operations && to > pc)
}

/// A frame's instructions run from an address on.
#[verifier::opaque]
pub open spec fn ran(
    k: Runner,
    p: Program,
    m: Machine,
    scope: Names,
    base: usize,
    floor: usize,
    pc: usize,
) -> Ran
    decreases operations_left(m), code_left(p, pc),
{
    match decoded(p.code@, pc as int) {
        Err(why) => Ran { result: Err(unreadable(why)), m, scope, reached: pc },
        Ok((op, width)) => match stepped(
            k,
            p,
            m,
            scope,
            base,
            floor,
            pc,
            (pc + width) as usize,
            op,
        ) {
            (Err(err), m1, left) => Ran { result: Err(err), m: m1, scope: left, reached: pc },
            (Ok(Flow::Leave(v)), m1, left) => Ran {
                result: Ok(v),
                m: m1,
                scope: left,
                reached: pc,
            },
            (Ok(Flow::Next(to)), m1, left) => if moved_on(m, m1, pc, to) && pc < p.code@.len() {
                ran(k, p, m1, left, base, floor, to)
            } else {
                Ran {
                    result: Err(fail(FailureKind::ErrorTooManyOperations, nowhere())),
                    m: m1,
                    scope: left,
                    reached: pc,
                }
            },
        },
    }
}

/// A run about to enter a frame: there is room for its operands, and a program
/// with fragments has its variables looked for by name from here on.
pub open spec fn entering(p: Program, m: Machine) -> Machine {
    let m1 = m.reserve(p.max_stack as nat);
    if p.residuals > 0 {
        m1.with_regs(Registers { always_search_scope: true, ..m1.regs })
    } else {
        m1
    }
}

// ---------------------------------------------------------------------------
// Catching.

/// A failure on its way out through the regions that are already handling one,
/// and the run with those regions left: leaving a catch block by a bare `throw`
/// raises again what it caught.
pub open spec fn leaving(
    m: Machine,
    err: Fail,
    handler_base: int,
) -> (Fail, Machine)
    decreases m.handlers.len(),
{
    if m.handlers.len() <= handler_base || m.handlers.len() == 0 {
        (err, m)
    } else {
        match m.handlers.last().caught {
            None => (err, m),
            Some(original) => {
                let repeats = err.kind matches FailureKind::ErrorRuntime(v) && v.data is Unit;
                leaving(
                    Machine { handlers: m.handlers.drop_last(), ..m },
                    if repeats {
                        original.at(err.pos)
                    } else {
                        err
                    },
                    handler_base,
                )
            },
        }
    }
}

/// What the host says of a failure: its message, and its other parts where it
/// gives any.
pub open spec fn parts_said(said: Datum) -> (Datum, Seq<(Seq<char>, Datum)>) {
    match said.data {
        Data::Array(row) if row.len() == 2 && row[1].data is Dict => (
            row[0],
            row[1].data->Dict_0,
        ),
        _ => (said, Seq::empty()),
    }
}

/// The map that describes a failure: its message, the source, where it
/// happened if it says so, and its other parts.
pub open spec fn described(source: Option<Seq<char>>, pos: Position, said: Datum) -> Datum {
    let (message, parts) = parts_said(said);
    let pairs = bound(Seq::empty(), "message"@, message);
    let pairs = match source {
        Some(s) => bound(pairs, "source"@, datum(Data::Str(s))),
        None => pairs,
    };
    let pairs = if pos == nowhere() {
        pairs
    } else {
        bound(
            bound(pairs, "line"@, datum(Data::Int(pos.line as i64))),
            "position"@,
            datum(Data::Int(pos.column as i64)),
        )
    };
    datum(Data::Dict(all_bound(pairs, parts)))
}

/// What a catch variable is bound to, and the failure as it is kept: nothing
/// where none is wanted, the value thrown, or the host's description.
pub open spec fn catch_value(m: Machine, err: Fail, wanted: bool) -> (
    Result<(Datum, Fail), Fail>,
    Machine,
) {
    if !wanted {
        (Ok((unit(), err)), m)
    } else {
        match err.innermost().kind {
            FailureKind::ErrorRuntime(v) => (Ok((copied(v), err)), m),
            _ => match asked(
                m,
                Request {
                    ask: Ask::Describe,
                    name: match m.source {
                        Some(s) => s,
                        None => ""@,
                    },
                    operands: Seq::empty(),
                    failure: Some(err),
                    scope: None,
                    calls: Seq::empty(),
                    pos: err.pos,
                },
            ) {
                (Err(susp), m1) => (Err(susp), m1),
                (Ok(a), m1) => match reply_value(a.reply) {
                    Ok(v) => (Ok((described(m1.source, err.pos, v), err.at(nowhere()))), m1),
                    Err(e) => (Err(e), m1),
                },
            },
        }
    }
}

/// The run back where a region began, at all depths.
pub open spec fn rewound_to(m: Machine, operands: usize, iters: usize) -> Machine {
    Machine { iterators: cut(m.iterators, iters as int), ..m.truncate(operands as int) }
}

/// The run with its innermost region handling a failure.
pub open spec fn handling(m: Machine, err: Fail) -> Machine {
    Machine {
        handlers: m.handlers.drop_last().push(
            Handler { caught: Some(err), ..m.handlers.last() },
        ),
        ..m
    }
}

/// A failure given to the innermost region of the frame that is not handling
/// one: where its catch block starts, or the failure on its way up.
#[verifier::opaque]
pub open spec fn caught(
    p: Program,
    m: Machine,
    err: Fail,
    handler_base: int,
    scope: Names,
) -> (Result<usize, Fail>, Machine, Names) {
    let (err1, m1) = leaving(m, err, handler_base);
    if m1.handlers.len() <= handler_base || m1.handlers.len() == 0 || !err1.catchable() {
        (Err(err1), m1, scope)
    } else {
        let h = m1.handlers.last();
        match catch_value(m1, err1, h.catch_var is Some) {
            (Err(e), m2) => (Err(e), m2, scope),
            (Ok((value, kept)), m2) => {
                let m3 = rewound_to(m2, h.operands, h.iters);
                let names = rewound(scope, h.scope_len as int);
                match h.catch_var {
                    None => (Ok(h.target), handling(m3, kept), names),
                    Some(index) => match named(p, index as int) {
                        Err(e) => (Err(e), m3, names),
                        Ok(name) => if names.len() >= m3.engine.max_variables {
                            (
                                Err(
                                    fail(
                                        FailureKind::ErrorTooManyVariables,
                                        p.pos_of(h.target as int),
                                    ),
                                ),
                                m3,
                                names,
                            )
                        } else {
                            (
                                Ok(h.target),
                                handling(m3, kept),
                                declared(names, name, value.mode, value),
                            )
                        },
                    },
                }
            },
        }
    }
}

/// A frame run from an address, and again from each catch block a failure in
/// it goes to.
#[verifier::opaque]
pub open spec fn resumed(
    k: Runner,
    p: Program,
    m: Machine,
    scope: Names,
    base: usize,
    floor: usize,
    handler_base: int,
    start: usize,
) -> Ran
    decreases operations_left(m),
{
    let r = ran(k, p, entering(p, m), scope, base, floor, start);
    match r.result {
        Ok(_) => r,
        Err(err) => match caught(p, r.m, err, handler_base, r.scope) {
            (Err(e), m1, left) => Ran { result: Err(e), m: m1, scope: left, reached: r.reached },
            (Ok(target), m1, left) => match counted(
                faults_cleared(m1),
                p.pos_of(target as int),
            ) {
                (Err(e), m2) => Ran {
                    result: Err(e),
                    m: m2,
                    scope: left,
                    reached: r.reached,
                },
                (Ok(_), m2) => if m2.regs.operations > m.regs.operations {
                    resumed(k, p, m2, left, base, floor, handler_base, target)
                } else {
                    Ran {
                        result: Err(fail(FailureKind::ErrorTooManyOperations, nowhere())),
                        m: m2,
                        scope: left,
                        reached: r.reached,
                    }
                },
            },
        },
    }
}

/// A row cut back to its first `len` entries.
pub open spec fn cut<A>(row: Seq<A>, len: int) -> Seq<A> {
    if len < row.len() {
        row.subrange(0, len)
    } else {
        row
    }
}

/// The number of the next frame. A frame that comes after the last number
/// there is has none, and so remembers nothing.
pub open spec fn next_generation(last: u64) -> u64 {
    if last == u64::MAX {
        0
    } else {
        (last + 1) as u64
    }
}

/// A run as a frame finds it: its unwinding floor and its number are its own.
pub open spec fn framed(m: Machine, base: usize) -> Machine {
    let generation = next_generation(m.regs.last_generation);
    m.with_regs(
        Registers {
            unwind_floor: base,
            generation,
            last_generation: if generation == 0 {
                m.regs.last_generation
            } else {
                generation
            },
            ..m.regs
        },
    )
}

/// A run as a frame leaves it: without what the frame's loops, regions and
/// literals held, and with its caller's floor and number.
pub open spec fn unframed(before: Machine, after: Machine) -> Machine {
    Machine {
        iterators: cut(after.iterators, before.iterators.len() as int),
        handlers: cut(after.handlers, before.handlers.len() as int),
        sizes: cut(after.sizes, before.sizes.len() as int),
        regs: Registers {
            unwind_floor: before.regs.unwind_floor,
            generation: before.regs.generation,
            ..after.regs
        },
        ..after
    }
}

/// A frame run and cleaned up after however it left.
#[verifier::opaque]
pub open spec fn executed_with(k: Runner, e: Entry) -> Ran {
    let m1 = framed(e.m, e.base);
    let r = resumed(
        k,
        e.p,
        m1,
        e.scope,
        e.base,
        e.m.stack.len() as usize,
        e.m.handlers.len() as int,
        e.entry as usize,
    );
    Ran {
        result: r.result,
        m: unframed(e.m, r.m),
        scope: if r.result is Err {
            rewound(r.scope, r.m.regs.unwind_floor as int)
        } else {
            r.scope
        },
        reached: r.reached,
    }
}


// ---------------------------------------------------------------------------
// The frame itself.

impl<'e> Vm<'e> {
    /// Run an instruction that neither transfers control nor calls a body.
    #[verifier::rlimit(50)]
    fn step_plain(
        &mut self,
        program: &Program,
        scope: &mut Scope,
        base: usize,
        pos: Position,
        op: Op,
    ) -> (out: Result<(), Error>)
        requires
            old(self).wf(),
        ensures
            final(self).did(
                old(self)@,
                out,
                final(scope)@,
                plain_did(*program, old(self)@, old(scope)@, base, pos, op),
            ),
    {
        proof {
            reveal(plain_did);
        }
        match op {
            Op::Const(i) => self.op_const(program, scope, i),
            Op::Unit => {
                self.push(Dynamic::unit());
                Ok(())
            },
            Op::Bool(b) => {
                self.push(Dynamic::from_bool(b));
                Ok(())
            },
            Op::LoadLocal(slot) => self.op_load_local(scope, base, slot),
            Op::StoreLocal { slot, constant } => {
                let mode = if constant {
                    AccessMode::ReadOnly
                } else {
                    AccessMode::ReadWrite
                };
                self.op_store_local(program, scope, base, slot, mode, pos)
            },
            Op::LoadNamed { name, flatten } => self.op_load_named(
                program,
                scope,
                name,
                flatten,
                pos,
            ),
            Op::AssignNamed { name, op } => self.op_assign_named(program, scope, name, op, pos),
            Op::Declare { name, constant } => self.op_declare(program, scope, name, constant),
            Op::AssignLocal { slot, name, from, op } => self.op_assign_local(
                program,
                scope,
                base,
                slot,
                name,
                from,
                op,
                pos,
            ),
            Op::LoadThis { flatten } => self.op_load_this(scope, flatten, pos),
            Op::RequireThis => {
                if self.this.is_none() {
                    Err(raised(FailureKind::ErrorUnboundThis, pos))
                } else {
                    Ok(())
                }
            },
            Op::AssignThis { op } => self.op_assign_this(program, scope, op, pos),
            Op::Pop => {
                let _ = self.pop()?;
                Ok(())
            },
            Op::EvalAst { index, rewind } => self.op_eval_ast(program, scope, index, rewind, pos),
            Op::Rotate(under) => self.op_rotate(scope, under),
            Op::MakeArray(len) => self.op_make_array(scope, len),
            Op::MakeMap(len) => self.op_make_map(scope, len),
            Op::CheckSize { index, map } => self.check_size(scope, index, map, pos),
            Op::LoadShared(slot) => self.op_load_shared(scope, base, slot),
            Op::Share(slot) => self.op_share(scope, base, slot),
            Op::ShareNamed(name) => self.op_share_named(program, scope, name, pos),
            Op::MakeClosure(name) => self.op_make_closure(program, scope, name),
            Op::IsShared => self.op_is_shared(scope),
            Op::MakeFnPtr => self.op_make_fn_ptr(scope, pos),
            Op::Curry(argc) => self.op_curry(scope, argc, pos),
            Op::InterpolateStart => {
                self.push(Dynamic::from_text("".to_owned()));
                Ok(())
            },
            Op::InterpolateAppend => self.append_segment(scope, pos),
            Op::InterpolateEnd => self.op_interpolate_end(scope),
            Op::UnwindTo(depth) => self.op_unwind_to(scope, base, depth),
            Op::Tick => self.track_operation(pos),
            Op::Checkpoint => {
                self.regs.unwind_floor = scope.len();
                Ok(())
            },
            Op::Statement(depth) => self.at_statement(scope, depth, pos),
            Op::PushHandler { target, var } => self.op_push_handler(scope, target, var),
            Op::PopHandler => self.op_pop_handler(scope),
            Op::IterInit => self.iter_init(scope, pos),
            Op::IterDrop => self.op_iter_drop(scope),
            Op::StoreShared(slot) => self.op_store_shared(program, scope, base, slot, pos),
            _ => self.op_throw(scope, pos),
        }
    }

    fn step_branch(
        &mut self,
        program: &Program,
        scope: &Scope,
        pc: usize,
        next: usize,
        target: u32,
        when: bool,
    ) -> (out: Result<Flow<Dynamic>, Error>)
        requires
            old(self).wf(),
            next > pc,
        ensures
            stepped_as(
                *final(self),
                old(self)@,
                out,
                scope@,
                branched(*program, old(self)@, scope@, pc, next, target, when),
            ),
            out matches Ok(Flow::Next(to)) ==> to > pc
                || final(self)@.regs.operations > old(self)@.regs.operations,
    {
        let value = self.pop()?;
        if self.guard_holds(&value, program.position(pc))? == when {
            self.transfer(program, scope, pc, target)
        } else {
            Ok(Flow::Next(next))
        }
    }

    fn step_skip(
        &mut self,
        program: &Program,
        scope: &Scope,
        pc: usize,
        next: usize,
        target: u32,
    ) -> (out: Result<Flow<Dynamic>, Error>)
        requires
            old(self).wf(),
            next > pc,
        ensures
            stepped_as(
                *final(self),
                old(self)@,
                out,
                scope@,
                skipped(*program, old(self)@, scope@, pc, next, target),
            ),
            out matches Ok(Flow::Next(to)) ==> to > pc
                || final(self)@.regs.operations > old(self)@.regs.operations,
    {
        let depth: usize = self.stack.depth();
        if depth == 0 {
            return Err(malformed("operand stack underflow".to_owned()));
        }
        if !self.stack.get(depth - 1).is_unit() {
            self.transfer(program, scope, pc, target)
        } else {
            Ok(Flow::Next(next))
        }
    }

    fn step_switch(&mut self, program: &Program, scope: &Scope, pc: usize, index: u16) -> (out:
        Result<Flow<Dynamic>, Error>)
        requires
            old(self).wf(),
        ensures
            stepped_as(
                *final(self),
                old(self)@,
                out,
                scope@,
                switched(*program, old(self)@, scope@, pc, index),
            ),
            out matches Ok(Flow::Next(to)) ==> to > pc
                || final(self)@.regs.operations > old(self)@.regs.operations,
    {
        if index as usize >= program.switches.len() {
            return Err(malformed_number("no switch ", index as u64, ""));
        }
        let subject = self.pop()?;
        let subject = self.heap.flatten(subject);
        let target: u32 = program.switches[index as usize].dispatch(&subject);
        self.transfer(program, scope, pc, target)
    }

    fn step_call_ref(
        &mut self,
        program: &Program,
        scope: &mut Scope,
        base: usize,
        name: u16,
        argc: u8,
        receiver: crate::bytecode::Receiver,
        capture: bool,
        pos: Position,
    ) -> (out: Result<(), Error>)
        requires
            old(self).wf(),
        ensures
            final(self).did(
                old(self)@,
                out,
                final(scope)@,
                called_ref(
                    below(levels_left(old(self)@)),
                    *program,
                    old(self)@,
                    old(scope)@,
                    base,
                    name,
                    argc,
                    receiver,
                    capture,
                    pos,
                ),
            ),
        decreases levels_left(old(self)@), 5nat, 0nat, 0nat,
    {
        let text = pool_name(program, name as u32)?;
        let v = self.call_by_reference(
            program,
            name as u32,
            text,
            argc as usize,
            receiver,
            scope,
            base,
            capture,
            pos,
        )?;
        self.push(v);
        Ok(())
    }

    fn step_call_fn_ptr(
        &mut self,
        program: &Program,
        scope: &mut Scope,
        base: usize,
        argc: u8,
        method: bool,
        receiver: Option<crate::bytecode::Receiver>,
        pos: Position,
    ) -> (out: Result<(), Error>)
        requires
            old(self).wf(),
        ensures
            final(self).did(
                old(self)@,
                out,
                final(scope)@,
                pushed(
                    called_fn_ptr(
                        below(levels_left(old(self)@)),
                        *program,
                        old(self)@,
                        old(scope)@,
                        base,
                        argc as int,
                        method,
                        receiver,
                        pos,
                    ),
                ),
            ),
        decreases levels_left(old(self)@), 5nat, 0nat, 0nat,
    {
        let v = self.call_fn_ptr(program, argc as usize, method, receiver, scope, base, pos)?;
        self.push(v);
        Ok(())
    }

    fn step_chain(
        &mut self,
        program: &Program,
        scope: &mut Scope,
        base: usize,
        index: u16,
        discard: bool,
        pos: Position,
    ) -> (out: Result<(), Error>)
        requires
            old(self).wf(),
        ensures
            final(self).did(
                old(self)@,
                out,
                final(scope)@,
                chained(
                    below(levels_left(old(self)@)),
                    *program,
                    old(self)@,
                    old(scope)@,
                    base,
                    index,
                    discard,
                    pos,
                ),
            ),
        decreases levels_left(old(self)@), 5nat, 1nat, 0nat,
    {
        let chain = pool_chain(program, index)?;
        let keep = matches!(chain.tail, Tail::Read) && !discard;
        self.keep_chain(program, scope, base, index, keep, pos)
    }

    /// Run one instruction.
    #[verifier::rlimit(50)]
    fn step(
        &mut self,
        program: &Program,
        scope: &mut Scope,
        base: usize,
        floor: usize,
        pc: usize,
        next: usize,
        op: Op,
    ) -> (out: Result<Flow<Dynamic>, Error>)
        requires
            old(self).wf(),
            next > pc,
        ensures
            stepped_as(
                *final(self),
                old(self)@,
                out,
                final(scope)@,
                stepped(
                    below(levels_left(old(self)@)),
                    *program,
                    old(self)@,
                    old(scope)@,
                    base,
                    floor,
                    pc,
                    next,
                    op,
                ),
            ),
            out matches Ok(Flow::Next(to)) ==> moved_on(old(self)@, final(self)@, pc, to),
        decreases levels_left(old(self)@), 5nat, 3nat, 0nat,
    {
        proof {
            reveal(stepped);
        }
        let pos = program.position(pc);
        match op {
            Op::Jump(target) => {
                return self.transfer(program, scope, pc, target);
            },
            Op::JumpIf { target, when } => {
                return self.step_branch(program, scope, pc, next, target, when);
            },
            Op::SkipIfNotUnit(target) => {
                return self.step_skip(program, scope, pc, next, target);
            },
            Op::Switch(index) => {
                return self.step_switch(program, scope, pc, index);
            },
            Op::IterNext { body, indexed, store } => {
                return self.op_iter_next(program, scope, base, pc, next, body, indexed, store);
            },
            Op::Operate(o) => {
                return self.op_operate(program, scope, base, pc, next, o);
            },
            Op::Return => {
                let value = self.pop_or_unit();
                self.truncate_stack(floor);
                return Ok(Flow::Leave(value));
            },
            Op::CallRef { name, argc, receiver, capture } => {
                self.step_call_ref(program, scope, base, name, argc, receiver, capture, pos)?;
            },
            Op::CallFnPtr { argc, method, receiver } => {
                self.step_call_fn_ptr(program, scope, base, argc, method, receiver, pos)?;
            },
            Op::Chain { index, discard } => {
                self.step_chain(program, scope, base, index, discard, pos)?;
            },
            Op::IndexSet(o) => {
                self.op_index_set(program, scope, base, o, pos)?;
            },
            Op::IndexGet { chain, root, index } => {
                self.op_index_get(program, scope, base, chain, root, index, pos)?;
            },
            _ => {
                self.step_plain(program, scope, base, pos, op)?;
            },
        }
        Ok(Flow::Next(next))
    }

    /// The dispatch loop. `reached` is left at the last instruction it came to.
    fn run_frame(
        &mut self,
        program: &Program,
        scope: &mut Scope,
        base: usize,
        floor: usize,
        start: usize,
        reached: &mut usize,
    ) -> (out: VmResult)
        requires
            old(self).wf(),
        ensures
            ({
                let r = ran(
                    below(levels_left(old(self)@)),
                    *program,
                    entering(*program, old(self)@),
                    old(scope)@,
                    base,
                    floor,
                    start,
                );
                result_view(out) == r.result && final(self).reached(old(self)@, r.m)
                    && final(scope)@ == r.scope && *final(reached) == r.reached
            }),
        decreases levels_left(old(self)@), 6nat, 0nat, 0nat,
    {
        self.stack.reserve(program.max_stack as usize);
        if program.residuals > 0 {
            self.regs.always_search_scope = true;
        }
        let ghost k = below(levels_left(self@));
        let ghost first = self@;
        let ghost expected = ran(k, *program, self@, scope@, base, floor, start);
        let mut pc: usize = start;
        loop
            invariant
                self.wf(),
                follows(old(self)@, self@),
                levels_left(self@) == levels_left(old(self)@),
                k == below(levels_left(old(self)@)),
                first == entering(*program, old(self)@),
                expected == ran(k, *program, first, old(scope)@, base, floor, start),
                expected == ran(k, *program, self@, scope@, base, floor, pc),
            decreases operations_left(self@), code_left(*program, pc),
        {
            *reached = pc;
            let ghost m = self@;
            let ghost names = scope@;
            proof {
                reveal(ran);
            }
            let (op, width) = match decode(&program.code, pc) {
                Ok((op, width)) => (op, width),
                Err(why) => {
                    return Err(match why {
                        Unreadable::End => raised(
                            FailureKind::ErrorRuntime(
                                Dynamic::from_text("ran off the end of a chunk".to_owned()),
                            ),
                            Position::none(),
                        ),
                        Unreadable::Unknown => malformed("undecodable instruction".to_owned()),
                        Unreadable::Truncated => malformed("undecodable instruction".to_owned()),
                    });
                },
            };
            let len: usize = program.code.len();
            assert(pc + width <= len);
            match self.step(program, scope, base, floor, pc, pc + width, op)? {
                Flow::Leave(value) => {
                    return Ok(value);
                },
                Flow::Next(to) => {
                    pc = to;
                },
            }
        }
    }

    /// Leave the regions that are already handling a failure.
    fn leave_handlers(&mut self, err: Error, handler_base: usize) -> (out: Error)
        requires
            old(self).wf(),
        ensures
            ({
                let (e, m) = leaving(old(self)@, err@, handler_base as int);
                out@ == e && final(self).reached(old(self)@, m)
            }),
    {
        let ghost expected = leaving(self@, err@, handler_base as int);
        let mut out = err;
        loop
            invariant
                self.wf(),
                follows(old(self)@, self@),
                expected == leaving(old(self)@, err@, handler_base as int),
                expected == leaving(self@, out@, handler_base as int),
            decreases self.handlers@.len(),
        {
            let len: usize = self.handlers.len();
            if len <= handler_base || len == 0 || self.handlers[len - 1].caught.is_none() {
                return out;
            }
            let ghost m = self@;
            if let Some(h) = self.handlers.pop() {
                assert(handler_views(self.handlers@) =~= m.handlers.drop_last());
                if let Some(original) = h.caught {
                    if out.repeats() {
                        let pos = out.position();
                        out = crate::error::reposition(original, pos);
                    }
                }
            }
        }
    }

    fn find_catch_value(&mut self, err: Error, wanted: bool) -> (out: Result<
        (Dynamic, Error),
        Error,
    >)
        requires
            old(self).wf(),
        ensures
            ({
                let (r, m) = catch_value(old(self)@, err@, wanted);
                (match out {
                    Ok((v, kept)) => r == Ok::<(Datum, Fail), Fail>((v@, kept@)),
                    Err(e) => r == Err::<(Datum, Fail), Fail>(e@),
                }) && final(self).reached(old(self)@, m)
            }),
    {
        if !wanted {
            return Ok((Dynamic::unit(), err));
        }
        if let Some(v) = err.thrown() {
            return Ok((v, err));
        }
        let (reply, err) = self.ask_describe(err)?;
        let said = value_of(reply)?;
        let v = describe(&self.source, err.position(), said);
        Ok((v, crate::error::reposition(err, Position::none())))
    }

    fn rewind_to(&mut self, operands: usize, iters: usize)
        requires
            old(self).wf(),
        ensures
            final(self).reached(old(self)@, rewound_to(old(self)@, operands, iters)),
    {
        let ghost before = self@;
        self.stack.truncate(operands);
        self.iterators.truncate(iters);
        assert(self.iterators@ =~= cut(before.iterators, iters as int));
    }

    fn note_caught(&mut self, err: Error)
        requires
            old(self).wf(),
            old(self)@.handlers.len() > 0,
        ensures
            final(self).reached(old(self)@, handling(old(self)@, err@)),
    {
        let ghost m = self@;
        if let Some(h) = self.handlers.pop() {
            let mut h = h;
            h.caught = Some(err);
            self.handlers.push(h);
            assert(handler_views(self.handlers@) =~= handling(m, err@).handlers);
        }
    }

    /// Give a failure to the innermost region of the frame that wants it.
    fn catch_failure(
        &mut self,
        program: &Program,
        err: Error,
        handler_base: usize,
        scope: &mut Scope,
    ) -> (out: Result<usize, Error>)
        requires
            old(self).wf(),
        ensures
            ({
                let (r, m, sc) = caught(
                    *program,
                    old(self)@,
                    err@,
                    handler_base as int,
                    old(scope)@,
                );
                crate::site::resolution(out) == r && final(self).reached(old(self)@, m)
                    && final(scope)@
                    == sc
            }),
    {
        proof {
            reveal(caught);
        }
        let err = self.leave_handlers(err, handler_base);
        let len: usize = self.handlers.len();
        if len <= handler_base || len == 0 || !err.is_catchable() {
            return Err(err);
        }
        let ghost h = self@.handlers.last();
        let (target, catch_var, operands, scope_len, iters) = {
            let h = &self.handlers[len - 1];
            (h.target, h.catch_var, h.operands, h.scope_len, h.iters)
        };
        assert(h.target == target && h.catch_var == catch_var && h.operands == operands
            && h.scope_len == scope_len && h.iters == iters);
        proof {
            describing_keeps_handlers(self@, err@, catch_var is Some);
        }
        let (value, kept) = self.find_catch_value(err, catch_var.is_some())?;
        self.rewind_to(operands, iters);
        scope.rewind(scope_len);
        if let Some(index) = catch_var {
            let name = pool_name(program, index as u32)?;
            if scope.len() >= self.engine.max_variables {
                return Err(raised(FailureKind::ErrorTooManyVariables, program.position(target)));
            }
            scope.push_dynamic(name, value);
        }
        self.note_caught(kept);
        Ok(target)
    }

    fn resume(
        &mut self,
        program: &Program,
        scope: &mut Scope,
        base: usize,
        floor: usize,
        handler_base: usize,
        entry: usize,
        reached: &mut usize,
    ) -> (out: VmResult)
        requires
            old(self).wf(),
        ensures
            ({
                let r = resumed(
                    below(levels_left(old(self)@)),
                    *program,
                    old(self)@,
                    old(scope)@,
                    base,
                    floor,
                    handler_base as int,
                    entry,
                );
                result_view(out) == r.result && final(self).reached(old(self)@, r.m)
                    && final(scope)@
                    == r.scope && *final(reached) == r.reached
            }),
        decreases levels_left(old(self)@), 7nat, 0nat, 0nat,
    {
        let ghost k = below(levels_left(self@));
        let ghost expected = resumed(
            k,
            *program,
            self@,
            scope@,
            base,
            floor,
            handler_base as int,
            entry,
        );
        let mut start: usize = entry;
        loop
            invariant
                self.wf(),
                follows(old(self)@, self@),
                levels_left(self@) == levels_left(old(self)@),
                k == below(levels_left(old(self)@)),
                expected == resumed(
                    k,
                    *program,
                    old(self)@,
                    old(scope)@,
                    base,
                    floor,
                    handler_base as int,
                    entry,
                ),
                expected == resumed(
                    k,
                    *program,
                    self@,
                    scope@,
                    base,
                    floor,
                    handler_base as int,
                    start,
                ),
            decreases operations_left(self@),
        {
            proof {
                reveal(resumed);
            }
            let ghost m = self@;
            match self.run_frame(program, scope, base, floor, start, reached) {
                Ok(value) => {
                    return Ok(value);
                },
                Err(err) => {
                    let target: usize = self.catch_failure(program, err, handler_base, scope)?;
                    self.clear_faults();
                    self.track_operation(program.position(target))?;
                    start = target;
                },
            }
        }
    }

    /// Run one frame, cleaning up after it however it leaves.
    pub(crate) fn execute(
        &mut self,
        program: &Program,
        scope: &mut Scope,
        entry: u32,
        base: usize,
        reached: &mut usize,
    ) -> (out: VmResult)
        requires
            old(self).wf(),
        ensures
            ({
                let r = executed(
                    levels_left(old(self)@),
                    Entry { p: *program, m: old(self)@, scope: old(scope)@, entry, base },
                );
                result_view(out) == r.result && final(self).reached(old(self)@, r.m)
                    && final(scope)@
                    == r.scope && *final(reached) == r.reached
            }),
            old(self)@.regs.last_generation < u64::MAX ==> final(self)@.regs.last_generation
                > old(self)@.regs.last_generation,
        decreases levels_left(old(self)@), 8nat, 0nat, 0nat,
    {
        proof {
            reveal(executed);
            reveal(below);
            reveal(executed_with);
            reveal(crate::memo::memos_stamped);
        }
        let iter_base: usize = self.iterators.len();
        let handler_base: usize = self.handlers.len();
        let size_base: usize = self.sizes.len();
        let outer_floor: usize = self.regs.unwind_floor;
        let outer_generation: u64 = self.regs.generation;
        let generation: u64 = if self.regs.last_generation == u64::MAX {
            0
        } else {
            self.regs.last_generation + 1
        };
        self.regs.unwind_floor = base;
        self.regs.generation = generation;
        if generation != 0 {
            self.regs.last_generation = generation;
        }
        let floor: usize = self.stack.depth();
        let out = self.resume(program, scope, base, floor, handler_base, entry as usize, reached);
        let ghost left = self@;
        self.iterators.truncate(iter_base);
        self.handlers.truncate(handler_base);
        self.sizes.truncate(size_base);
        assert(handler_views(self.handlers@) =~= cut(left.handlers, handler_base as int));
        assert(self.iterators@ =~= cut(left.iterators, iter_base as int));
        assert(self.sizes@ =~= cut(left.sizes, size_base as int));
        if out.is_err() {
            scope.rewind(self.regs.unwind_floor);
        }
        self.regs.unwind_floor = outer_floor;
        self.regs.generation = outer_generation;
        out
    }
}

fn take_parts(said: Dynamic) -> (out: (Dynamic, Dict))
    ensures
        out.0@ == parts_said(said@).0,
        out.1@ == parts_said(said@).1,
{
    broadcast use crate::value::view_of_composite;

    let none = Dict::new();
    let whole = matches!(&said.value, Union::Array(row) if row.len() == 2);
    if !whole {
        return (said, none);
    }
    let ghost before = said@;
    match said.value {
        Union::Array(row) => {
            assert(before.data == Data::Array(all_views(row@)));
            if !matches!(row[1].value, Union::Dict(_)) {
                assert(!(all_views(row@)[1].data is Dict));
                return (Dynamic { value: Union::Array(row), tag: said.tag, mode: said.mode }, none);
            }
            let mut row = row;
            let ghost views = all_views(row@);
            let parts = row.swap_remove(1);
            let message = row.swap_remove(0);
            assert(parts@ == views[1] && message@ == views[0]);
            match parts.value {
                Union::Dict(pairs) => (message, pairs),
                _ => (message, none),
            }
        },
        other => (Dynamic { value: other, tag: said.tag, mode: said.mode }, none),
    }
}

/// The map that describes a failure.
fn describe(source: &Option<String>, pos: Position, said: Dynamic) -> (d: Dynamic)
    ensures
        d@ == described(text_view(*source), pos, said@),
{
    let (message, parts) = take_parts(said);
    let mut pairs = Dict::new();
    pairs.insert("message", message);
    if let Some(s) = source {
        pairs.insert("source", Dynamic::from_text(s.clone()));
    }
    if !pos.is_none() {
        pairs.insert("line", Dynamic::from_int(pos.line as i64));
        pairs.insert("position", Dynamic::from_int(pos.column as i64));
    }
    pairs.insert_all(parts);
    Dynamic::from_dict(pairs)
}

/// Asking for a failure's description leaves the regions alone.
proof fn describing_keeps_handlers(m: Machine, err: Fail, wanted: bool)
    ensures
        catch_value(m, err, wanted).1.handlers == m.handlers,
{
}

} // verus!
