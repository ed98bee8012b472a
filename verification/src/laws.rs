//! What holds of the machine as a whole.
//!
//! Each law relates what several of its operations do, over the same models
//! that the operations' own contracts use.
use vstd::prelude::*;

use crate::arith::{applied, Applied, BinOpKind};
use crate::assign::{stored_through, stored_value};
use crate::bytecode::{decoded, Branch, IndexSet, Op, Operator, Source, Unreadable};
use crate::chain::{
    array_walked, chain_operands, chain_ran, chain_run, element_walked, index_walked, root_walked,
    rooted, to_assign, walked, Course,
};
use crate::element::{chain_kept, did_index_get, did_index_set};
use crate::call::{
    attributed, body_called, bound_args, bound_this, called_with_this, levels_left, params_bound,
    unbound_this, Called,
};
use crate::callback::{cold, cooled, given_back, lent, lent_caches, Context, WarmView};
use crate::error::{unwound, Fail, FailureKind};
use crate::frame::{
    below, branched, caught, code_left, entering, executed, executed_with, framed, leaving,
    moved_on, operations_left, plain_did, ran, resumed, stepped, Entry, Ran, Runner,
};
use crate::heap::{flat_copy, flattened, read_only, CellView};
use crate::host::{AnswerView, Request, RequestView};
use crate::debug::listed_call;
use crate::machine::{asked, counted, faults_cleared, follows, Fault, Machine, Registers};
use crate::memo::memos_stamped;
use crate::operate::{
    delivered, fast_answer, named_operand, operands_pushed, operated, resolved_call, transferred,
    Flow, Stepped,
};
use crate::position::Position;
use crate::program::{Chain, Chunk, Function, Program, Root, Step, Switch, Tail};
use crate::ops::{did_assign_local, shared_at};
use crate::scope::{declared, found, found_is, newest_at, stored, Names};
use crate::site::operator_resolved;
use crate::stack::{slots_for, truncated};
use crate::value::{copied, unit, AccessMode, Data, Datum};
use crate::vm::{
    called_inside, evaluated, evaluated_with_callbacks, fn_called, in_environment, main_run,
    started, Output,
};

verus! {

// ---------------------------------------------------------------------------
// Values.

/// A copy can always be written, whatever it is a copy of, and copying it again
/// gives the same.
pub proof fn copies_are_writable(d: Datum)
    ensures
        copied(d).mode == AccessMode::ReadWrite,
        copied(d).tag == d.tag,
        copied(copied(d)) == copied(d),
    decreases d,
{
    broadcast use crate::value::copied_of_composite;

    match d.data {
        Data::Array(a) => {
            assert forall|i: int| 0 <= i < a.len() implies copied(copied(a[i])) == copied(a[i]) by {
                copies_are_writable(a[i]);
            }
            assert(crate::value::all_copied(crate::value::all_copied(a))
                =~= crate::value::all_copied(a));
        },
        Data::Dict(a) => {
            assert forall|i: int| 0 <= i < a.len() implies copied(copied(a[i].1)) == copied(
                a[i].1,
            ) by {
                copies_are_writable(a[i].1);
            }
            assert(crate::value::pairs_copied(crate::value::pairs_copied(a))
                =~= crate::value::pairs_copied(a));
        },
        Data::FnPtr(_, curry, _) => {
            assert forall|i: int| 0 <= i < curry.len() implies copied(copied(curry[i])) == copied(
                curry[i],
            ) by {
                copies_are_writable(curry[i]);
            }
            assert(crate::value::all_copied(crate::value::all_copied(curry))
                =~= crate::value::all_copied(curry));
        },
        _ => {},
    }
}

/// Reading a value out of its cell and copying it is reading a copy out.
pub proof fn reading_out_and_copying_agree(heap: Seq<CellView>, d: Datum)
    ensures
        copied(flattened(heap, d)) == flat_copy(heap, d),
        d.data is Shared ==> flattened(heap, d) == flat_copy(heap, d),
        flat_copy(heap, d).mode == AccessMode::ReadWrite,
{
    match d.data {
        Data::Shared(cell) => {
            copies_are_writable(crate::heap::readable(heap, cell));
        },
        _ => {
            copies_are_writable(d);
        },
    }
}

// ---------------------------------------------------------------------------
// Variables.

/// What is assigned is what is read back, and every holder of a shared cell
/// reads it. No other cell changes.
pub proof fn assigned_is_read_back(
    m: Machine,
    p: Program,
    entry: Datum,
    rhs: Datum,
    name: Seq<char>,
    pos: Position,
    holder: Datum,
    cell: int,
)
    requires
        !(rhs.data is Shared),
        stored_through(m, p, None, entry, rhs, name, pos).0 is Ok,
    ensures
        ({
            let (_, after, m1) = stored_through(m, p, None, entry, rhs, name, pos);
            &&& flat_copy(m1.heap, after) == copied(rhs)
            &&& entry.data is Shared ==> after == entry
            &&& entry.data is Shared && holder.data == entry.data ==> flat_copy(m1.heap, holder)
                == copied(rhs)
            &&& m1.heap.len() == m.heap.len()
            &&& 0 <= cell < m.heap.len() && !(entry.data matches Data::Shared(c) && c == cell)
                ==> m1.heap[cell] == m.heap[cell]
        }),
{
    reveal(stored_through);
    reveal(stored_value);
}

/// A variable that refuses to be written is left alone, and so is everything
/// else but the operand that was taken.
pub proof fn constants_are_left_alone(
    p: Program,
    m: Machine,
    scope: Names,
    base: usize,
    slot: u16,
    name: u16,
    from: Source,
    op: Option<u16>,
    pos: Position,
)
    requires
        base + slot < scope.len(),
        read_only(m.heap, scope[base + slot].1),
    ensures
        did_assign_local(p, m, scope, base, slot, name, from, op, pos).0 is Err,
        did_assign_local(p, m, scope, base, slot, name, from, op, pos).2 == scope,
        did_assign_local(p, m, scope, base, slot, name, from, op, pos).1.heap == m.heap,
{
}

/// A declared variable is the one its name finds, and every other name finds
/// what it found before.
pub proof fn declared_is_found(
    scope: Names,
    name: Seq<char>,
    mode: AccessMode,
    value: Datum,
    other: Seq<char>,
)
    ensures
        found(declared(scope, name, mode, value), name) == Some(scope.len() as int),
        declared(scope, name, mode, value)[scope.len() as int].1.mode == mode,
        other != name ==> found(declared(scope, name, mode, value), other) == found(scope, other),
{
    let after = declared(scope, name, mode, value);
    found_is(after, name, scope.len() as int);
    if other != name {
        if let Some(i) = found(scope, other) {
            assert(newest_at(scope, other, i));
            assert(newest_at(after, other, i)) by {
                assert forall|j: int| i < j < after.len() implies (#[trigger] after[j]).0
                    != other by {
                    if j < scope.len() {
                        assert(scope[j].0 != other);
                    }
                }
            }
            found_is(after, other, i);
        } else if let Some(i) = found(after, other) {
            assert(newest_at(after, other, i));
            assert(newest_at(scope, other, i)) by {
                assert forall|j: int| i < j < scope.len() implies (#[trigger] scope[j]).0
                    != other by {
                    assert(after[j].0 != other);
                }
            }
            assert(found(scope, other) is Some);
        }
    }
}

/// Sharing a variable does not change what is read of it.
pub proof fn sharing_keeps_values(m: Machine, scope: Names, i: int)
    requires
        0 <= i < scope.len(),
        !(scope[i].1.data is Shared),
        m.heap.len() < usize::MAX,
    ensures
        ({
            let (m1, left) = shared_at(m, scope, i);
            &&& left[i].1.data is Shared
            &&& flat_copy(m1.heap, left[i].1) == flat_copy(m.heap, scope[i].1)
            &&& read_only(m1.heap, left[i].1) == read_only(m.heap, scope[i].1)
            &&& left.len() == scope.len()
            &&& forall|j: int| 0 <= j < scope.len() && j != i ==> left[j] == scope[j]
        }),
{
}

/// A call that cuts its scope back leaves no variable of its own in it, however
/// it ends, and every one that was there before if the call took none away.
pub proof fn calls_cut_the_scope_back(
    p: Program,
    m: Machine,
    scope: Names,
    name: Seq<char>,
    args: Seq<Datum>,
    eval_ast: bool,
    tag: Option<Datum>,
    this: Option<Datum>,
    wanted: Output,
)
    ensures
        ({
            let c = fn_called(p, m, scope, name, args, eval_ast, true, tag, this, wanted);
            let (_, inside) = fn_called_inside(p, m, scope, name, args, eval_ast, tag, this);
            &&& c.scope.len() <= scope.len()
            &&& inside.scope.len() >= scope.len() ==> c.scope.len() == scope.len() && c.scope
                == inside.scope.subrange(0, scope.len() as int)
            &&& begins_with(inside.scope, scope) ==> c.scope == scope
        }),
{
    let (_, inside) = fn_called_inside(p, m, scope, name, args, eval_ast, tag, this);
    if begins_with(inside.scope, scope) {
        assert(inside.scope.subrange(0, scope.len() as int) =~= scope);
    }
}

/// What the body of a call from outside gives, in the program's environment.
pub open spec fn fn_called_inside(
    p: Program,
    m: Machine,
    scope: Names,
    name: Seq<char>,
    args: Seq<Datum>,
    eval_ast: bool,
    tag: Option<Datum>,
    this: Option<Datum>,
) -> (Result<(), Fail>, Called) {
    let m1 = match tag {
        Some(tag) => Machine { tag, ..m },
        None => m,
    };
    called_inside(
        p,
        in_environment(m1, p, None),
        scope,
        name,
        args,
        eval_ast,
        true,
        match this {
            Some(receiver) => Some(bound_this(m1.heap, receiver)),
            None => None,
        },
    )
}

/// Whether a row starts with all of another.
pub open spec fn begins_with<A>(row: Seq<A>, start: Seq<A>) -> bool {
    row.len() >= start.len() && row.subrange(0, start.len() as int) == start
}

// ---------------------------------------------------------------------------
// Receivers.

/// A call leaves its caller's receiver as it was, and comes to the same as if
/// the caller had none: a receiver is never inherited.
pub proof fn callers_keep_their_receivers(
    k: Runner,
    p: Program,
    m: Machine,
    scope: Names,
    f: Function,
    name: Seq<char>,
    first: int,
    rewind: bool,
    pos: Position,
    this: Option<Datum>,
)
    ensures
        ({
            let c = called_with_this(k, p, m, scope, f, name, first, rewind, pos, this);
            let alone = called_with_this(
                k,
                p,
                m.with_this(None),
                scope,
                f,
                name,
                first,
                rewind,
                pos,
                this,
            );
            &&& c.m.this == m.this
            &&& c.result == alone.result
            &&& c.this == alone.this
            &&& c.scope == alone.scope
            &&& c.m == alone.m.with_this(m.this)
        }),
{
    reveal(called_with_this);
    assert(m.with_this(None).with_this(this) =~= m.with_this(this));
}

/// What a callee wrote to its receiver stays written however the call ends and
/// whatever the caller wanted of its value, and a read-only receiver is left
/// alone.
pub proof fn writes_through_this_survive(
    p: Program,
    m: Machine,
    scope: Names,
    name: Seq<char>,
    args: Seq<Datum>,
    eval_ast: bool,
    rewind: bool,
    tag: Option<Datum>,
    receiver: Datum,
    wanted: Output,
    other: Output,
)
    ensures
        ({
            let c = fn_called(
                p,
                m,
                scope,
                name,
                args,
                eval_ast,
                rewind,
                tag,
                Some(receiver),
                wanted,
            );
            let bound = crate::call::bound_this(m.heap, receiver);
            let m1 = match tag {
                Some(tag) => Machine { tag, ..m },
                None => m,
            };
            let (_, inside) = called_inside(
                p,
                in_environment(m1, p, None),
                scope,
                name,
                args,
                eval_ast,
                rewind,
                Some(bound),
            );
            &&& c.this == Some(unbound_this(m.heap, receiver, inside.this))
            &&& !read_only(m.heap, receiver) && inside.this is Some ==> c.this == inside.this
            &&& read_only(m.heap, receiver) ==> c.this == Some(receiver)
            &&& c.this == fn_called(
                p,
                m,
                scope,
                name,
                args,
                eval_ast,
                rewind,
                tag,
                Some(receiver),
                other,
            ).this
        }),
{
}

// ---------------------------------------------------------------------------
// Frames.

/// The instructions of a frame run, before it is cleaned up after.
pub open spec fn body_of(n: nat, e: Entry) -> Ran {
    resumed(
        below(n),
        e.p,
        framed(e.m, e.base),
        e.scope,
        e.base,
        e.m.stack.len() as usize,
        e.m.handlers.len() as int,
        e.entry as usize,
    )
}

/// A frame cleans up after itself however it leaves: its caller's floor and
/// number are back, no more loops, regions and literals are open than were
/// before, and each of the three rows is its caller's as long as the body took
/// nothing off it that was there before.
pub proof fn frames_clean_up(n: nat, e: Entry)
    ensures
        ({
            let r = executed(n, e);
            let body = body_of(n, e);
            &&& r.result == body.result
            &&& r.reached == body.reached
            &&& r.m.regs.unwind_floor == e.m.regs.unwind_floor
            &&& r.m.regs.generation == e.m.regs.generation
            &&& r.m.iterators.len() <= e.m.iterators.len()
            &&& r.m.handlers.len() <= e.m.handlers.len()
            &&& r.m.sizes.len() <= e.m.sizes.len()
            &&& begins_with(body.m.iterators, e.m.iterators) ==> r.m.iterators == e.m.iterators
            &&& begins_with(body.m.handlers, e.m.handlers) ==> r.m.handlers == e.m.handlers
            &&& begins_with(body.m.sizes, e.m.sizes) ==> r.m.sizes == e.m.sizes
        }),
{
    reveal(executed);
    reveal(executed_with);
    let body = body_of(n, e);
    assert(body.m.iterators.subrange(0, body.m.iterators.len() as int) =~= body.m.iterators);
    assert(body.m.handlers.subrange(0, body.m.handlers.len() as int) =~= body.m.handlers);
    assert(body.m.sizes.subrange(0, body.m.sizes.len() as int) =~= body.m.sizes);
}

/// A constant's instruction pushes a copy of it and goes on.
proof fn constants_are_pushed(
    k: Runner,
    p: Program,
    m: Machine,
    scope: Names,
    base: usize,
    floor: usize,
    pc: usize,
    i: u16,
    width: int,
)
    requires
        p.code@.len() <= usize::MAX,
        decoded(p.code@, pc as int) == Ok::<(Op, int), Unreadable>((Op::Const(i), width)),
        i < p.constants@.len(),
    ensures
        pc + width <= p.code@.len(),
        ran(k, p, m, scope, base, floor, pc) == ran(
            k,
            p,
            m.push(copied(p.constants@[i as int]@)),
            scope,
            base,
            floor,
            (pc + width) as usize,
        ),
{
    reveal_with_fuel(ran, 1);
    assert(stepped(k, p, m, scope, base, floor, pc, (pc + width) as usize, Op::Const(i)) == (
        Ok::<Flow<Datum>, Fail>(Flow::Next((pc + width) as usize)),
        m.push(copied(p.constants@[i as int]@)),
        scope,
    )) by {
        reveal(stepped);
        reveal(plain_did);
    }
}

/// A return leaves with the topmost operand and drops the frame's others.
proof fn returns_leave(
    k: Runner,
    p: Program,
    m: Machine,
    scope: Names,
    base: usize,
    floor: usize,
    pc: usize,
    v: Datum,
    last: int,
)
    requires
        decoded(p.code@, pc as int) == Ok::<(Op, int), Unreadable>((Op::Return, last)),
        m.stack.len() == floor,
    ensures
        ran(k, p, m.push(v), scope, base, floor, pc) == (Ran {
            result: Ok(v),
            m: m.push(v).with_stack(m.stack),
            scope,
            reached: pc,
        }),
{
    reveal_with_fuel(ran, 1);
    let pushed = m.push(v);
    assert(pushed.stack.drop_last() =~= m.stack);
    assert(stepped(k, p, pushed, scope, base, floor, pc, (pc + last) as usize, Op::Return) == (
        Ok::<Flow<Datum>, Fail>(Flow::Leave(v)),
        pushed.with_stack(m.stack),
        scope,
    )) by {
        reveal(stepped);
    }
}

/// A program that returns a constant evaluates to a copy of it, and leaves the
/// operands and the variables as they were. The room it leaves is what it said
/// it needs.
pub proof fn constants_evaluate_to_themselves(
    p: Program,
    m: Machine,
    scope: Names,
    i: u16,
    width: int,
    last: int,
)
    requires
        p.code@.len() <= usize::MAX,
        m.stack.len() <= usize::MAX,
        decoded(p.code@, p.main.entry as int) == Ok::<(Op, int), Unreadable>((Op::Const(i), width)),
        decoded(p.code@, p.main.entry + width) == Ok::<(Op, int), Unreadable>((Op::Return, last)),
        i < p.constants@.len(),
        !m.engine.debugger,
    ensures
        evaluated(p, m, scope, None).0 == Ok::<Datum, Fail>(copied(p.constants@[i as int]@)),
        evaluated(p, m, scope, None).1.stack == m.stack,
        evaluated(p, m, scope, None).1.room == entering(p, m).push(copied(p.constants@[i as int]@)).room,
        p.max_stack > 0 && m.stack.len() == 0 && p.max_stack <= usize::MAX ==> evaluated(
            p,
            m,
            scope,
            None,
        ).1.room == entering(p, m).room,
        evaluated(p, m, scope, None).2 == scope,
{
    if p.max_stack > 0 && m.stack.len() == 0 && p.max_stack <= usize::MAX {
        frames_keep_to_their_room(p, m, copied(p.constants@[i as int]@));
        assert(entering(p, m).push(copied(p.constants@[i as int]@)).room == entering(p, m).room);
    }
    let v = copied(p.constants@[i as int]@);
    let m1 = started(in_environment(m, p, None));
    let k = below(levels_left(m1));
    let base = scope.len() as usize;
    let inside = entering(p, framed(m1, base));
    let floor = m1.stack.len() as usize;
    let pc = p.main.entry as usize;
    let e = Entry { p, m: m1, scope, entry: p.main.entry, base };
    constants_are_pushed(k, p, inside, scope, base, floor, pc, i, width);
    returns_leave(k, p, inside, scope, base, floor, (pc + width) as usize, v, last);
    assert(executed(levels_left(m1), e).result == Ok::<Datum, Fail>(v) && executed(
        levels_left(m1),
        e,
    ).m.stack == m.stack && executed(levels_left(m1), e).m.room == inside.push(v).room && executed(
        levels_left(m1),
        e,
    ).m.engine == m.engine && executed(
        levels_left(m1),
        e,
    ).scope == scope) by {
        reveal(executed);
        reveal(executed_with);
        reveal_with_fuel(resumed, 1);
    }
    reveal(main_run);
    reveal(evaluated);
}

/// A failure handed to a region puts the operands, the loops and the variables
/// back where the region began: they are what they were then, as far as the run
/// still had them, and the catch variable if there is one.
pub proof fn catching_goes_back(
    p: Program,
    m: Machine,
    err: Fail,
    handler_base: int,
    scope: Names,
)
    requires
        caught(p, m, err, handler_base, scope).0 is Ok,
    ensures
        ({
            let (err1, m1) = leaving(m, err, handler_base);
            let h = m1.handlers.last();
            let (r, after, names) = caught(p, m, err, handler_base, scope);
            &&& r == Ok::<usize, Fail>(h.target)
            &&& err1.catchable()
            &&& after.stack.len() <= h.operands
            &&& after.iterators.len() <= h.iters
            &&& names.len() <= h.scope_len + (if h.catch_var is Some {
                1int
            } else {
                0
            })
            &&& h.operands <= m.stack.len() ==> after.stack == m.stack.subrange(
                0,
                h.operands as int,
            )
            &&& h.iters <= m.iterators.len() ==> after.iterators == m.iterators.subrange(
                0,
                h.iters as int,
            )
            &&& h.scope_len <= scope.len() ==> begins_with(
                names,
                scope.subrange(0, h.scope_len as int),
            ) && names.len() == h.scope_len + (if h.catch_var is Some {
                1int
            } else {
                0
            })
            &&& after.handlers.len() == m1.handlers.len()
            &&& after.handlers.last().caught is Some
        }),
{
    reveal(caught);
    leaving_keeps_rows(m, err, handler_base);
    let h = leaving(m, err, handler_base).1.handlers.last();
    let (_, after, names) = caught(p, m, err, handler_base, scope);
    if h.operands <= m.stack.len() {
        assert(after.stack =~= m.stack.subrange(0, h.operands as int));
    }
    if h.iters <= m.iterators.len() {
        assert(after.iterators =~= m.iterators.subrange(0, h.iters as int));
    }
    if h.scope_len <= scope.len() {
        assert(names.subrange(0, h.scope_len as int) =~= scope.subrange(0, h.scope_len as int));
    }
}

/// Leaving catch blocks leaves the operands and the loops alone.
proof fn leaving_keeps_rows(m: Machine, err: Fail, handler_base: int)
    ensures
        leaving(m, err, handler_base).1.stack == m.stack,
        leaving(m, err, handler_base).1.iterators == m.iterators,
    decreases m.handlers.len(),
{
    if m.handlers.len() > handler_base && m.handlers.len() > 0 {
        if let Some(original) = m.handlers.last().caught {
            let repeats = err.kind matches FailureKind::ErrorRuntime(v) && v.data is Unit;
            leaving_keeps_rows(
                Machine { handlers: m.handlers.drop_last(), ..m },
                if repeats {
                    original.at(err.pos)
                } else {
                    err
                },
                handler_base,
            );
        }
    }
}

/// Leaving catch blocks drops no region below the frame's own.
proof fn leaving_keeps_lower_regions(m: Machine, err: Fail, handler_base: int)
    requires
        0 <= handler_base <= m.handlers.len(),
    ensures
        ({
            let after = leaving(m, err, handler_base).1.handlers;
            &&& handler_base <= after.len() <= m.handlers.len()
            &&& after =~= m.handlers.subrange(0, after.len() as int)
        }),
    decreases m.handlers.len(),
{
    if m.handlers.len() > handler_base {
        if let Some(original) = m.handlers.last().caught {
            let repeats = err.kind matches FailureKind::ErrorRuntime(v) && v.data is Unit;
            leaving_keeps_lower_regions(
                Machine { handlers: m.handlers.drop_last(), ..m },
                if repeats {
                    original.at(err.pos)
                } else {
                    err
                },
                handler_base,
            );
        }
    }
}

/// A failure never finds a region of a caller: those below the frame's own are
/// all still there, as they were, whether it was caught or not.
pub proof fn regions_stay_in_their_frame(
    p: Program,
    m: Machine,
    err: Fail,
    handler_base: int,
    scope: Names,
)
    requires
        0 <= handler_base <= m.handlers.len(),
    ensures
        ({
            let (r, after, _) = caught(p, m, err, handler_base, scope);
            &&& after.handlers.len() >= handler_base
            &&& after.handlers.subrange(0, handler_base) =~= m.handlers.subrange(0, handler_base)
            &&& r is Ok ==> after.handlers.len() > handler_base
        }),
{
    reveal(caught);
    leaving_keeps_lower_regions(m, err, handler_base);
    let (err1, m1) = leaving(m, err, handler_base);
    if m1.handlers.len() > handler_base && err1.catchable() {
        let h = m1.handlers.last();
        let (_, m2) = crate::frame::catch_value(m1, err1, h.catch_var is Some);
        assert(m2.handlers == m1.handlers);
    }
}

/// A failure that says where it happened is never blamed on another place, and
/// one that does not is blamed on the place it is raised through.
pub proof fn positions_are_kept(err: Fail, pos: Position)
    ensures
        err.pos != crate::position::nowhere() ==> err.placed(pos) == err,
        err.pos == crate::position::nowhere() ==> err.placed(pos).pos == pos,
        err.placed(pos).kind == err.kind,
{
}

/// A suspended run is never taken for a failure a script may handle: it goes up
/// through every region with its request standing, and through every call.
pub proof fn suspension_reaches_the_host(
    p: Program,
    m: Machine,
    err: Fail,
    handler_base: int,
    scope: Names,
    name: Seq<char>,
    source: Option<Seq<char>>,
    pos: Position,
)
    requires
        err.kind is ErrorSuspended,
    ensures
        caught(p, m, err, handler_base, scope).0 == Err::<usize, Fail>(err),
        caught(p, m, err, handler_base, scope).1.request == m.request,
        attributed(Err(err), name, source, pos) is Err,
        attributed(Err(err), name, source, pos)->Err_0.kind is ErrorSuspended,
{
    reveal(caught);
    leaving_keeps_others(m, err, handler_base);
}

/// Leaving catch blocks raises a failure that carries no unit again as it is.
proof fn leaving_keeps_others(m: Machine, err: Fail, handler_base: int)
    requires
        !(err.kind is ErrorRuntime),
    ensures
        leaving(m, err, handler_base).0 == err,
        leaving(m, err, handler_base).1.request == m.request,
    decreases m.handlers.len(),
{
    if m.handlers.len() > handler_base && m.handlers.len() > 0 {
        if let Some(_) = m.handlers.last().caught {
            leaving_keeps_others(
                Machine { handlers: m.handlers.drop_last(), ..m },
                err,
                handler_base,
            );
        }
    }
}

/// A run without an answer stands at its question, with everything else as it
/// was, and asks no other on its way out; with the answer added it passes that
/// question.
pub proof fn questions_wait_for_answers(
    m: Machine,
    request: RequestView,
    other: RequestView,
    a: AnswerView,
)
    requires
        m.answers.len() == 0,
        m.request is None,
    ensures
        asked(m, request).0 is Err,
        asked(m, request).0->Err_0.kind is ErrorSuspended,
        asked(m, request).1 == (Machine {
            request: Some(Request { calls: m.call_stack, ..request }),
            call_stack: Seq::empty(),
            ..m
        }),
        asked(asked(m, request).1, other).1 == asked(m, request).1,
        asked(Machine { answers: seq![a], ..m }, request).0 is Ok,
        asked(Machine { answers: seq![a], ..m }, request).0->Ok_0.reply == a.reply,
        asked(Machine { answers: seq![a], ..m }, request).1.answers.len() == 0,
{
}

/// A call too deep fails without running its body, whatever running it would
/// have done, and hands its receiver back.
pub proof fn depth_is_limited(
    k: Runner,
    other: Runner,
    p: Program,
    m: Machine,
    scope: Names,
    f: Function,
    name: Seq<char>,
    first: int,
    rewind: bool,
    pos: Position,
    this: Option<Datum>,
)
    requires
        m.regs.level >= m.engine.max_call_levels,
    ensures
        ({
            let c = called_with_this(k, p, m, scope, f, name, first, rewind, pos, this);
            &&& c == called_with_this(other, p, m, scope, f, name, first, rewind, pos, this)
            &&& c.result is Err
            &&& counted(m.with_this(this), pos).0 is Ok
                ==> c.result->Err_0.kind is ErrorStackOverflow
            &&& c.this == this
            &&& c.scope == scope
        }),
{
    reveal(called_with_this);
}

// ---------------------------------------------------------------------------
// Operators.

/// How many operands an operator finds on the stack.
pub open spec fn found_operands(o: Operator) -> int {
    let wanted: int = if o.shape is Unary {
        1
    } else {
        2
    };
    wanted - (if o.rhs is Stack {
        0int
    } else if o.lhs is Stack {
        1
    } else {
        2
    })
}

/// A compare-and-branch keeps nothing: where the fast operators answer it, the
/// operand stack is left without the operands it found there and nothing is
/// added, so a turn of a loop leaves the stack at the depth it found.
pub proof fn fused_branches_keep_nothing(
    k: Runner,
    p: Program,
    m: Machine,
    scope: Names,
    base: usize,
    pc: usize,
    next: usize,
    o: Operator,
)
    requires
        o.branch is Some,
        o.shape is Unary ==> o.rhs is Stack,
        operands_pushed(p, m, scope, base, o).0 is Ok,
        fast_answer(
            operands_pushed(p, m, scope, base, o).1,
            o.shape,
            p.pos_of(pc as int),
        ).0 matches Ok(Some(_)),
    ensures
        operated(k, p, m, scope, base, pc, next, o).1.stack == truncated(
            m.stack,
            m.stack.len() - found_operands(o),
        ),
{
    reveal(operands_pushed);
    reveal(fast_answer);
    reveal(operated);
    reveal(delivered);
    reveal(transferred);
    let (_, m1) = operands_pushed(p, m, scope, base, o);
    let (answer, m2) = fast_answer(m1, o.shape, p.pos_of(pc as int));
    assert(m2.stack == m1.stack);
    let floor = (answer->Ok_0->0).0;
    assert(truncated(m1.stack, floor) =~= truncated(m.stack, m.stack.len() - found_operands(o)));
}

/// An operator that names its operands does what it would do to the same
/// operands on the stack.
pub proof fn naming_operands_is_pushing_them(
    k: Runner,
    p: Program,
    m: Machine,
    scope: Names,
    base: usize,
    pc: usize,
    next: usize,
    o: Operator,
    lhs: Datum,
    rhs: Datum,
)
    requires
        !(o.lhs is Stack) && !(o.rhs is Stack),
        named_operand(p, m, scope, base, o.lhs) == Ok::<Datum, Fail>(lhs),
        named_operand(p, m, scope, base, o.rhs) == Ok::<Datum, Fail>(rhs),
    ensures
        operated(k, p, m, scope, base, pc, next, o) == operated(
            k,
            p,
            m.push(lhs).push(rhs),
            scope,
            base,
            pc,
            next,
            Operator { lhs: Source::Stack, rhs: Source::Stack, ..o },
        ),
{
    reveal(operated);
    reveal(operands_pushed);
    reveal(resolved_call);
}

/// A branch an operator swallowed is the branch it would have pushed its result
/// for.
pub proof fn swallowed_branches_branch(
    p: Program,
    m: Machine,
    scope: Names,
    pc: usize,
    next: usize,
    b: Branch,
    floor: int,
    v: Datum,
)
    requires
        0 <= floor < m.stack.len() <= m.room,
    ensures
        ({
            let pushed = delivered(p, m, scope, pc, next, None, floor, v).1;
            delivered(p, m, scope, pc, next, Some(b), floor, v) == branched(
                p,
                pushed,
                scope,
                pc,
                next,
                b.target,
                b.when,
            )
        }),
{
    reveal(delivered);
    let m1 = m.truncate(floor);
    assert(m1.push(v).stack.drop_last() =~= m1.stack);
}

/// Two integers are never widened to floats: only a pair with a float in it is
/// the host's to answer.
pub proof fn integers_are_not_widened(kind: BinOpKind, x: i64, y: i64)
    ensures
        !(applied(kind, Data::Int(x), Data::Int(y)) matches Ok(Applied::Float)),
        applied(kind, Data::Int(x), Data::Int(y)) matches Ok(Applied::Done(v)) ==> v.data is Int
            || v.data is Bool,
{
}

// ---------------------------------------------------------------------------
// Elements.

/// A chain that is one index into a local.
pub open spec fn indexes_local(chain: Chain, root: u16) -> bool {
    &&& chain.root matches Root::Local { slot, .. } && slot == root
    &&& chain.steps@.len() == 1
    &&& chain.steps@[0] matches Step::Index { operand, skip, .. } && operand == 0 && !skip
    &&& chain.operands == 1
}

/// A chain that reads one element of a local array gives a copy of it, and
/// takes its index off the stack.
proof fn chains_read_elements(
    k: Runner,
    p: Program,
    m: Machine,
    index: u16,
    chain: Chain,
    scope: Names,
    base: usize,
    root: u16,
    row: Seq<Datum>,
    n: i64,
    pos: Position,
)
    requires
        indexes_local(chain, root),
        chain.tail is Read,
        base + root < scope.len() <= usize::MAX,
        scope[base + root].1.data == Data::Array(row),
        m.stack.len() > 0,
        m.stack.last().data == Data::Int(n),
        0 <= n < row.len(),
    ensures
        chain_ran(k, p, m, index, chain, scope, base, pos) == (
            Ok::<Datum, Fail>(copied(row[n as int])),
            m.with_stack(m.stack.drop_last()),
            scope,
        ),
{
    reveal(chain_ran);
    reveal(chain_run);
    reveal(rooted);
    reveal(to_assign);
    reveal(root_walked);
    reveal(index_walked);
    reveal(array_walked);
    reveal(element_walked);
    let at = base + root;
    let m1 = m.with_regs(Registers { chain_step: 0, ..m.regs });
    let operands_at = m.stack.len() - 1;
    let operands = chain_operands(m1, chain, operands_at);
    assert(operands.len() == 1);
    assert(operands[0] == copied(m.stack.last()));
    let c = Course { k, p, chain, operands, value: None, pos };
    let target = scope[at].1;
    assert(copied(operands[0]).data == Data::Int(n));
    assert(flat_copy(m1.heap, copied(operands[0])).data == Data::Int(n));
    assert(row.update(n as int, row[n as int]) =~= row);
    assert(walked(c, 0, m1, target) == (
        Ok::<(Datum, bool), Fail>((copied(row[n as int]), false)),
        target,
        m1,
    )) by {
        reveal(walked);
    }
    assert(stored(scope, at as int, target) =~= scope);
    assert(truncated(m.stack, operands_at) =~= m.stack.drop_last());
}

/// Reading an element the short way is what the chain that says the same would
/// have done.
pub proof fn short_reads_agree_with_chains(
    k: Runner,
    p: Program,
    m: Machine,
    scope: Names,
    base: usize,
    chain: u16,
    root: u16,
    row: Seq<Datum>,
    n: i64,
    pos: Position,
)
    requires
        chain < p.chains@.len(),
        indexes_local(p.chains@[chain as int], root),
        p.chains@[chain as int].tail is Read,
        base + root < scope.len() <= usize::MAX,
        scope[base + root].1.data == Data::Array(row),
        m.stack.len() > 0,
        m.stack.last().data == Data::Int(n),
        0 <= n < row.len(),
        !(row[n as int].data is Shared),
    ensures
        did_index_get(k, p, m, scope, base, chain, root, Source::Stack, pos) == chain_kept(
            k,
            p,
            m,
            scope,
            base,
            chain,
            true,
            pos,
        ),
{
    reveal(did_index_get);
    chains_read_elements(
        k,
        p,
        m,
        chain,
        p.chains@[chain as int],
        scope,
        base,
        root,
        row,
        n,
        pos,
    );
}

/// A chain that assigns to one element of a local array puts the value there,
/// and takes the value and its index off the stack.
proof fn chains_write_elements(
    k: Runner,
    p: Program,
    m: Machine,
    index: u16,
    chain: Chain,
    scope: Names,
    base: usize,
    root: u16,
    row: Seq<Datum>,
    n: i64,
    value: Datum,
    pos: Position,
)
    requires
        indexes_local(chain, root),
        chain.tail == (Tail::Assign { op: None }),
        base + root < scope.len() <= usize::MAX,
        scope[base + root].1.data == Data::Array(row),
        scope[base + root].1.mode == AccessMode::ReadWrite,
        m.stack.len() > 1,
        m.stack[m.stack.len() - 2].data == Data::Int(n),
        m.stack.last() == value,
        0 <= n < row.len(),
        !(row[n as int].data is Shared),
        !(value.data is Shared),
        copied(value) == value,
    ensures
        chain_ran(k, p, m, index, chain, scope, base, pos) == (
            Ok::<Datum, Fail>(unit()),
            m.with_stack(m.stack.drop_last().drop_last()),
            stored(
                scope,
                base + root,
                Datum { data: Data::Array(row.update(n as int, value)), ..scope[base + root].1 },
            ),
        ),
{
    reveal(chain_ran);
    reveal(chain_run);
    reveal(rooted);
    reveal(to_assign);
    reveal(root_walked);
    reveal(index_walked);
    reveal(array_walked);
    reveal(element_walked);
    reveal(stored_through);
    reveal(stored_value);
    let at = base + root;
    let m1 = m.with_regs(Registers { chain_step: 0, ..m.regs });
    let operands_at = m.stack.len() - 2;
    let operands = chain_operands(m1, chain, operands_at);
    assert(operands.len() == 1);
    assert(operands[0] == copied(m.stack[operands_at]));
    let c = Course { k, p, chain, operands, value: Some(value), pos };
    let target = scope[at].1;
    assert(copied(operands[0]).data == Data::Int(n));
    assert(flat_copy(m1.heap, copied(operands[0])).data == Data::Int(n));
    let after = Datum { data: Data::Array(row.update(n as int, value)), ..target };
    assert(walked(c, 0, m1, target) == (
        Ok::<(Datum, bool), Fail>((unit(), true)),
        after,
        m1,
    )) by {
        reveal(walked);
    }
    assert(truncated(m.stack, operands_at) =~= m.stack.drop_last().drop_last());
}

/// Assigning to an element the short way is what the chain that says the same
/// would have done.
pub proof fn short_writes_agree_with_chains(
    k: Runner,
    p: Program,
    m: Machine,
    scope: Names,
    base: usize,
    chain: u16,
    root: u16,
    row: Seq<Datum>,
    n: i64,
    value: Datum,
    pos: Position,
)
    requires
        chain < p.chains@.len(),
        indexes_local(p.chains@[chain as int], root),
        p.chains@[chain as int].tail == (Tail::Assign { op: None }),
        base + root < scope.len() <= usize::MAX,
        scope[base + root].1.data == Data::Array(row),
        scope[base + root].1.mode == AccessMode::ReadWrite,
        m.stack.len() > 1,
        m.stack[m.stack.len() - 2].data == Data::Int(n),
        m.stack.last() == value,
        0 <= n < row.len(),
        !(row[n as int].data is Shared),
        !(value.data is Shared),
        copied(value) == value,
    ensures
        did_index_set(
            k,
            p,
            m,
            scope,
            base,
            IndexSet { chain, root, index: Source::Stack, value: None, kind: None },
            pos,
        ) == chain_kept(k, p, m, scope, base, chain, false, pos),
{
    reveal(did_index_set);
    chains_write_elements(
        k,
        p,
        m,
        chain,
        p.chains@[chain as int],
        scope,
        base,
        root,
        row,
        n,
        value,
        pos,
    );
}

// ---------------------------------------------------------------------------
// Memos.

/// A new frame finds nothing in the memo tables: no entry carries its number,
/// because none was ever handed out that high.
pub proof fn new_frames_find_nothing(
    m: Machine,
    base: usize,
    i: int,
    at: usize,
    operands: u16,
    name: u32,
    argc: int,
    args: u32,
    imports: int,
)
    requires
        memos_stamped(m.operator_memo, m.call_memo, m.regs.last_generation),
    ensures
        ({
            let inside = framed(m, base);
            &&& 0 <= i < m.operator_memo.len() ==> !inside.operator_memo[i].hit(
                inside.regs.generation,
                at,
                operands,
            )
            &&& 0 <= i < m.call_memo.len() ==> (inside.call_memo[i] matches Some(memo)
                ==> !memo.hit(inside.regs.generation, name, argc, args, imports))
            &&& m.regs.last_generation < u64::MAX ==> inside.regs.generation
                > m.regs.last_generation && inside.regs.last_generation == inside.regs.generation
        }),
{
    reveal(memos_stamped);
}

/// What a frame writes in the memo tables carries its own number.
pub proof fn entries_carry_their_frame(
    m: Machine,
    at: usize,
    token: Seq<char>,
    lhs: Datum,
    rhs: Datum,
    pos: Position,
    i: int,
)
    requires
        m.operator_memo.len() == crate::memo::OPERATOR_MEMO_SLOTS,
        0 <= i < m.operator_memo.len(),
    ensures
        ({
            let (_, after) = operator_resolved(m, at, token, lhs, rhs, pos);
            &&& after.operator_memo.len() == m.operator_memo.len()
            &&& after.operator_memo[i] == m.operator_memo[i] || after.operator_memo[i].generation
                == m.regs.generation
            &&& after.regs.generation == m.regs.generation
        }),
{
    reveal(operator_resolved);
}

// ---------------------------------------------------------------------------
// Environments and crossings.

/// A program runs with its own source name and resolver, and with its library
/// and its wrappers searched after those there were, the wrappers last.
pub proof fn environments_are_entered(p: Program, m: Machine, wrappers: Option<u64>)
    ensures
        ({
            let inside = in_environment(m, p, wrappers);
            &&& inside.source == crate::machine::text_view(p.source)
            &&& inside.resolver == p.resolver
            &&& inside.lib == m.lib + (match p.lib {
                Some(id) => seq![id],
                None => Seq::empty(),
            }) + (match wrappers {
                Some(id) => seq![id],
                None => Seq::empty(),
            })
            &&& begins_with(inside.lib, m.lib)
        }),
{
    let inside = in_environment(m, p, wrappers);
    assert(inside.lib =~= m.lib + (match p.lib {
        Some(id) => seq![id],
        None => Seq::empty(),
    }) + (match wrappers {
        Some(id) => seq![id],
        None => Seq::empty(),
    }));
    assert(inside.lib.subrange(0, m.lib.len() as int) =~= m.lib);
}

/// A program's environment lasts as long as its run: the source name and the
/// resolver are back afterwards whatever it gave, and so is the library as long
/// as the main chunk took nothing off it that was there before.
pub proof fn environments_are_left(p: Program, m: Machine, scope: Names, wrappers: Option<u64>)
    ensures
        evaluated(p, m, scope, wrappers).1.source == m.source,
        evaluated(p, m, scope, wrappers).1.resolver == m.resolver,
        evaluated(p, m, scope, wrappers).1.lib.len() <= m.lib.len(),
        begins_with(main_run(p, in_environment(m, p, wrappers), scope).1.lib, m.lib) ==> evaluated(
            p,
            m,
            scope,
            wrappers,
        ).1.lib == m.lib,
{
    reveal(evaluated);
    let inside = main_run(p, in_environment(m, p, wrappers), scope).1;
    assert(inside.lib.subrange(0, inside.lib.len() as int) =~= inside.lib);
}

/// So does the program its pointers carry, and the pool its crossings share.
pub proof fn callbacks_are_left(p: Program, m: Machine, scope: Names)
    ensures
        evaluated_with_callbacks(p, m, scope).1.callbacks == m.callbacks,
        evaluated_with_callbacks(p, m, scope).1.regs.pooled == m.regs.pooled,
        evaluated_with_callbacks(p, m, scope).1.source == m.source,
{
    reveal(evaluated);
}

/// A top-level `return` and an `exit` are the run's value and never a failure
/// of it, and every other outcome stays what it is.
pub proof fn exits_are_values(result: Result<Datum, Fail>, v: Datum, pos: Position)
    ensures
        unwound(Err(crate::error::fail(FailureKind::Return(v), pos))) == Ok::<Datum, Fail>(v),
        unwound(Err(crate::error::fail(FailureKind::Exit(v), pos))) == Ok::<Datum, Fail>(v),
        unwound(result) matches Err(err) ==> !(err.kind is Return) && !(err.kind is Exit)
            && result == Err::<Datum, Fail>(err),
        result is Ok ==> unwound(result) == result,
{
}

/// A cache filled against one engine, library or import is not lent to a
/// crossing that searches another.
pub proof fn caches_are_not_lent_elsewhere(warm: WarmView, context: Context<'_>)
    ensures
        warm.searched != context.searched() ==> context.entered(warm).regs.caches == 0,
        warm.searched == context.searched() ==> context.entered(warm).regs.caches == warm.caches,
        warm.searched.engine != Some(context.engine.id) ==> context.entered(warm).regs.caches == 0,
{
}

/// A crossing that inherits differs from one that does not only in what it has
/// resolved, which is the cache, the memo tables and the count that stamps them,
/// and in the room its operands have.
pub proof fn inheriting_changes_resolution_only(warm: WarmView, context: Context<'_>)
    ensures
        context.entered(warm) == (Machine {
            room: warm.room,
            operator_memo: warm.operator_memo,
            call_memo: warm.call_memo,
            regs: Registers {
                last_generation: warm.last_generation,
                caches: lent_caches(warm, context.searched()),
                ..context.entered(cold()).regs
            },
            ..context.entered(cold())
        }),
{
}

/// What a crossing lent goes back once: a pool that lends has one part fewer
/// until the crossing gives it back.
pub proof fn nothing_is_lent_twice(pool: Seq<WarmView>, pooled: bool, back: WarmView)
    ensures
        ({
            let (_, rest) = lent(pool, pooled);
            &&& pooled && pool.len() > 0 ==> rest.len() == pool.len() - 1 && rest
                =~= pool.drop_last()
            &&& pooled ==> lent(given_back(rest, pooled, back), pooled) == (back, rest)
            &&& !pooled ==> rest == pool && given_back(rest, pooled, back) == pool
        }),
{
    let (_, rest) = lent(pool, pooled);
    assert(rest.push(back).drop_last() =~= rest);
}

/// The count of frames goes from a crossing to the one that inherits from it,
/// and one that inherits nothing starts it over.
pub proof fn crossings_carry_the_count(m: Machine, context: Context<'_>)
    ensures
        context.entered(cooled(m)).regs.last_generation == m.regs.last_generation,
        context.entered(cold()).regs.last_generation == 0,
        context.entered(cooled(m)).room == m.room,
{
}

/// A finished crossing lends at most the bottom layer of its cache, and the
/// count of its frames with the tables they stamped.
pub proof fn crossings_lend_one_layer(m: Machine)
    ensures
        cooled(m).caches <= 1,
        cooled(m).caches == 0 ==> m.regs.caches == 0,
        memos_stamped(m.operator_memo, m.call_memo, m.regs.last_generation) ==> memos_stamped(
            cooled(m).operator_memo,
            cooled(m).call_memo,
            cooled(m).last_generation,
        ),
{
}

/// A run that fails says where: the last entry of its trace is the instruction
/// its main chunk stopped at, after those of the frames called from there, and
/// none is of an earlier run. A run that does not fail has no trace, and an
/// `exit` and a top-level `return` are no failures.
pub proof fn traces_tell_of_the_failure(p: Program, m: Machine, scope: Names)
    requires
        m.regs.owns_trace,
    ensures
        ({
            let m1 = started(m);
            let r = executed(
                levels_left(m1),
                Entry { p, m: m1, scope, entry: p.main.entry, base: scope.len() as usize },
            );
            let (result, after, _) = main_run(p, m, scope);
            &&& m1.faults.len() == 0
            &&& m1.regs.pending_slot is None
            &&& result == r.result
            &&& unwound(result) is Err ==> after.faults == r.m.faults.push(
                Fault { address: r.reached, slot: r.m.regs.pending_slot },
            ) && after.faults.last().address == r.reached
            &&& unwound(result) is Ok ==> after.faults.len() == 0
            &&& after.regs.pending_slot is None
        }),
{
    reveal(main_run);
}

/// Evaluating a program leaves a trace only if its main chunk failed.
pub proof fn values_leave_no_trace(p: Program, m: Machine, scope: Names, wrappers: Option<u64>)
    requires
        m.regs.owns_trace,
    ensures
        evaluated(p, m, scope, wrappers).0 is Ok ==> evaluated(
            p,
            m,
            scope,
            wrappers,
        ).1.faults.len() == 0,
        unwound(main_run(p, in_environment(m, p, wrappers), scope).0) is Err ==> evaluated(
            p,
            m,
            scope,
            wrappers,
        ).1.faults.len() > 0,
{
    reveal(evaluated);
    traces_tell_of_the_failure(p, in_environment(m, p, wrappers), scope);
}

/// A callee that fails adds its own frame to the trace after those called from
/// it, and one that does not fail adds none.
pub proof fn traces_run_outwards(
    k: Runner,
    p: Program,
    m: Machine,
    scope: Names,
    f: Function,
    name: Seq<char>,
    first: int,
    rewind: bool,
    pos: Position,
)
    requires
        f.param_names@.len() <= m.engine.max_variables,
        params_bound(m.stack, scope, f.param_names@, first, 0).0,
    ensures
        ({
            let (_, stack, names) = params_bound(m.stack, scope, f.param_names@, first, 0);
            let ran = k(
                Entry {
                    p,
                    m: listed_call(
                        m.with_stack(stack),
                        name,
                        bound_args(names, scope.len() as int),
                        pos,
                    ),
                    scope: names,
                    entry: f.chunk.entry,
                    base: scope.len() as usize,
                },
            );
            let after = body_called(k, p, m, scope, f, name, first, rewind, pos).1;
            &&& unwound(ran.result) is Err ==> after.faults == ran.m.faults.push(
                Fault { address: ran.reached, slot: ran.m.regs.pending_slot },
            )
            &&& unwound(ran.result) is Ok ==> after.faults == ran.m.faults
        }),
{
    reveal(body_called);
}

/// A failure that was caught is forgotten: what runs on has no trace of it.
pub proof fn caught_failures_leave_no_trace(
    k: Runner,
    p: Program,
    m: Machine,
    scope: Names,
    base: usize,
    floor: usize,
    handler_base: int,
    start: usize,
)
    requires
        ({
            let r = ran(k, p, entering(p, m), scope, base, floor, start);
            r.result is Err && caught(p, r.m, r.result->Err_0, handler_base, r.scope).0 is Ok
        }),
    ensures
        ({
            let r = ran(k, p, entering(p, m), scope, base, floor, start);
            let (target, m1, left) = caught(p, r.m, r.result->Err_0, handler_base, r.scope);
            let (again, m2) = counted(faults_cleared(m1), p.pos_of(target->Ok_0 as int));
            &&& m1.regs.owns_trace ==> m2.faults.len() == 0
            &&& again is Ok && m2.regs.operations > m.regs.operations ==> resumed(
                k,
                p,
                m,
                scope,
                base,
                floor,
                handler_base,
                start,
            ) == resumed(k, p, m2, left, base, floor, handler_base, target->Ok_0)
        }),
{
    reveal_with_fuel(resumed, 1);
}

// ---------------------------------------------------------------------------
// Limits.

/// Going back costs an operation, and is refused to a run that has none left.
pub proof fn going_back_is_charged(p: Program, m: Machine, scope: Names, pc: usize, target: u32)
    requires
        target <= pc,
        m.engine.max_operations > 0,
    ensures
        ({
            let (r, after, _) = transferred(p, m, scope, pc, target);
            &&& after.engine == m.engine
            &&& r is Ok ==> after.regs.operations > m.regs.operations && m.regs.operations
                < m.engine.max_operations
            &&& m.regs.operations >= m.engine.max_operations ==> r is Err
                && r->Err_0.kind is ErrorTooManyOperations
            &&& r is Err && !m.engine.watches_progress ==> r->Err_0.kind is ErrorTooManyOperations
        }),
{
    reveal(transferred);
}

/// One way back of a run: where it stands, and from where to where it goes.
#[verifier::ext_equal]
pub struct WayBack {
    pub m: Machine,
    pub scope: Names,
    pub pc: usize,
    pub target: u32,
}

impl WayBack {
    pub open spec fn taken(self, p: Program) -> Stepped {
        transferred(p, self.m, self.scope, self.pc, self.target)
    }
}

/// A cycle ends: of more ways back than there are operations left, each taken
/// after the one before, one is refused, and for too many operations where no
/// host watches the count.
pub proof fn cycles_run_out(p: Program, ways: Seq<WayBack>)
    requires
        ways.len() > 0,
        ways[0].m.engine.max_operations > 0,
        ways.len() + ways[0].m.regs.operations > ways[0].m.engine.max_operations,
        forall|i: int| 0 <= i < ways.len() ==> (#[trigger] ways[i]).target <= ways[i].pc,
        forall|i: int|
            0 < i < ways.len() ==> follows(
                (#[trigger] ways[i - 1].taken(p)).1,
                (#[trigger] ways[i]).m,
            ),
    ensures
        exists|i: int|
            0 <= i < ways.len() && (#[trigger] ways[i].taken(p)).0 is Err && (
            ways[0].m.engine.watches_progress
                || ways[i].taken(p).0->Err_0.kind is ErrorTooManyOperations),
{
    if forall|i: int| 0 <= i < ways.len() ==> (#[trigger] ways[i].taken(p)).0 is Ok {
        ways_add_up(p, ways, ways.len() - 1);
        let last = ways[ways.len() - 1];
        going_back_is_charged(p, last.m, last.scope, last.pc, last.target);
        assert(last.taken(p).0 is Ok);
    } else {
        let i = choose|i: int| 0 <= i < ways.len() && !((#[trigger] ways[i].taken(p)).0 is Ok);
        engines_stay(p, ways, i);
        going_back_is_charged(p, ways[i].m, ways[i].scope, ways[i].pc, ways[i].target);
    }
}

/// Every way back stands on the same engine.
proof fn engines_stay(p: Program, ways: Seq<WayBack>, n: int)
    requires
        0 <= n < ways.len(),
        ways[0].m.engine.max_operations > 0,
        forall|i: int| 0 <= i < ways.len() ==> (#[trigger] ways[i]).target <= ways[i].pc,
        forall|i: int|
            0 < i < ways.len() ==> follows(
                (#[trigger] ways[i - 1].taken(p)).1,
                (#[trigger] ways[i]).m,
            ),
    ensures
        ways[n].m.engine == ways[0].m.engine,
    decreases n,
{
    if n > 0 {
        engines_stay(p, ways, n - 1);
        let w = ways[n - 1];
        going_back_is_charged(p, w.m, w.scope, w.pc, w.target);
        assert(follows(ways[n - 1].taken(p).1, ways[n].m));
    }
}

/// Ways back that were all taken have cost an operation each.
proof fn ways_add_up(p: Program, ways: Seq<WayBack>, n: int)
    requires
        0 <= n < ways.len(),
        ways[0].m.engine.max_operations > 0,
        forall|i: int| 0 <= i < ways.len() ==> (#[trigger] ways[i]).target <= ways[i].pc,
        forall|i: int| 0 <= i < ways.len() ==> (#[trigger] ways[i].taken(p)).0 is Ok,
        forall|i: int|
            0 < i < ways.len() ==> follows(
                (#[trigger] ways[i - 1].taken(p)).1,
                (#[trigger] ways[i]).m,
            ),
    ensures
        ways[n].m.regs.operations >= ways[0].m.regs.operations + n,
        ways[n].m.engine == ways[0].m.engine,
    decreases n,
{
    if n > 0 {
        ways_add_up(p, ways, n - 1);
        let w = ways[n - 1];
        going_back_is_charged(p, w.m, w.scope, w.pc, w.target);
        assert(ways[n - 1].taken(p).0 is Ok);
        assert(follows(ways[n - 1].taken(p).1, ways[n].m));
    }
}

/// A frame only ever runs on at the cost of code still ahead of it or of an
/// operation: from an instruction that leads nowhere new at no cost, it fails.
pub proof fn frames_move_on(
    k: Runner,
    p: Program,
    m: Machine,
    scope: Names,
    base: usize,
    floor: usize,
    pc: usize,
    op: Op,
    width: int,
    to: usize,
)
    requires
        decoded(p.code@, pc as int) == Ok::<(Op, int), Unreadable>((op, width)),
        stepped(k, p, m, scope, base, floor, pc, (pc + width) as usize, op).0 == Ok::<
            Flow<Datum>,
            Fail,
        >(Flow::Next(to)),
        to <= pc,
    ensures
        ({
            let (_, m1, left) = stepped(
                k,
                p,
                m,
                scope,
                base,
                floor,
                pc,
                (pc + width) as usize,
                op,
            );
            let r = ran(k, p, m, scope, base, floor, pc);
            &&& m1.regs.operations > m.regs.operations && pc < p.code@.len() ==> r == ran(
                k,
                p,
                m1,
                left,
                base,
                floor,
                to,
            )
            &&& m1.regs.operations <= m.regs.operations ==> r.result is Err
                && r.result->Err_0.kind is ErrorTooManyOperations
        }),
{
    reveal_with_fuel(ran, 1);
}

// ---------------------------------------------------------------------------
// Chunks.

/// Whether a switch has an arm that starts at an address.
pub open spec fn switch_leads(table: Switch, to: usize) -> bool {
    ||| to == table.default
    ||| exists|i: int| 0 <= i < table.cases@.len() && to == (#[trigger] table.cases@[i]).target
    ||| exists|i: int| 0 <= i < table.ranges@.len() && to == (#[trigger] table.ranges@[i]).target
}

proof fn ranges_lead(table: Switch, n: i64, i: int)
    requires
        0 <= i,
    ensures
        switch_leads(table, table.ranged(n, i) as usize),
    decreases table.ranges@.len() - i,
{
    if i < table.ranges@.len() {
        if table.ranges@[i].holds(n) {
            assert(table.ranged(n, i) == table.ranges@[i].target);
        } else {
            ranges_lead(table, n, i + 1);
        }
    }
}

proof fn cases_lead(table: Switch, subject: Data, i: int)
    requires
        0 <= i,
    ensures
        switch_leads(table, table.goes(subject, i) as usize),
    decreases table.cases@.len() - i,
{
    if i < table.cases@.len() {
        if crate::program::same_literal(table.cases@[i].literal@.data, subject) {
            assert(table.goes(subject, i) == table.cases@[i].target);
        } else {
            cases_lead(table, subject, i + 1);
        }
    } else if let Data::Int(n) = subject {
        ranges_lead(table, n, 0);
    }
}

/// Whether an instruction can lead to an address, where `next` is the one after
/// it.
pub open spec fn leads_to(p: Program, op: Op, next: usize, to: usize) -> bool {
    match op {
        Op::Jump(target) => to == target,
        Op::JumpIf { target, .. } => to == next || to == target,
        Op::SkipIfNotUnit(target) => to == next || to == target,
        Op::Switch(index) => index < p.switches@.len() && switch_leads(
            p.switches@[index as int],
            to,
        ),
        Op::IterNext { body, .. } => to == next || to == body,
        Op::Operate(o) => to == next || (o.branch matches Some(b) && to == b.target),
        Op::Return => false,
        _ => to == next,
    }
}

/// An instruction goes on to nowhere but where it can lead to.
pub proof fn instructions_keep_to_their_targets(
    k: Runner,
    p: Program,
    m: Machine,
    scope: Names,
    base: usize,
    floor: usize,
    pc: usize,
    next: usize,
    op: Op,
    to: usize,
)
    requires
        stepped(k, p, m, scope, base, floor, pc, next, op).0 == Ok::<Flow<Datum>, Fail>(
            Flow::Next(to),
        ),
    ensures
        leads_to(p, op, next, to),
{
    reveal(stepped);
    reveal(transferred);
    match op {
        Op::Switch(index) => {
            if index < p.switches@.len() && m.stack.len() > 0 {
                let m1 = m.with_stack(m.stack.drop_last());
                let subject = flattened(m1.heap, m.stack.last()).data;
                cases_lead(p.switches@[index as int], subject, 0);
            }
        },
        Op::IterNext { .. } => {
            reveal(crate::element::turned);
        },
        Op::Operate(o) => {
            reveal(operated);
            reveal(resolved_call);
            reveal(delivered);
        },
        _ => {},
    }
}

/// Whether the instruction at an address can lead to another.
pub open spec fn goes_on_to(p: Program, pc: usize, to: usize) -> bool {
    decoded(p.code@, pc as int) matches Ok((op, width)) && leads_to(
        p,
        op,
        (pc + width) as usize,
        to,
    )
}

/// Whether a chunk is closed: its instructions start where it says, and lead to
/// nowhere else.
pub open spec fn closed_chunk(p: Program, chunk: Chunk, starts: Set<usize>) -> bool {
    &&& starts.contains(chunk.entry as usize)
    &&& forall|pc: usize| #[trigger] starts.contains(pc) ==> chunk.entry <= pc < chunk.end
    &&& forall|pc: usize, to: usize|
        starts.contains(pc) && #[trigger] goes_on_to(p, pc, to) ==> starts.contains(to)
}

/// The instructions of a closed chunk stay in it.
pub proof fn runs_stay_in_their_chunk(
    k: Runner,
    p: Program,
    m: Machine,
    scope: Names,
    base: usize,
    floor: usize,
    pc: usize,
    chunk: Chunk,
    starts: Set<usize>,
)
    requires
        closed_chunk(p, chunk, starts),
        starts.contains(pc),
    ensures
        starts.contains(ran(k, p, m, scope, base, floor, pc).reached),
    decreases operations_left(m), code_left(p, pc),
{
    reveal_with_fuel(ran, 1);
    if let Ok((op, width)) = decoded(p.code@, pc as int) {
        let next = (pc + width) as usize;
        let (r, m1, left) = stepped(k, p, m, scope, base, floor, pc, next, op);
        if let Ok(Flow::Next(to)) = r {
            instructions_keep_to_their_targets(k, p, m, scope, base, floor, pc, next, op, to);
            assert(goes_on_to(p, pc, to));
            if moved_on(m, m1, pc, to) && pc < p.code@.len() {
                runs_stay_in_their_chunk(k, p, m1, left, base, floor, to, chunk, starts);
            }
        }
    }
}

/// Whether every failure a frame catches is caught by a block that starts where
/// an instruction of its chunk does.
pub open spec fn catches_inside(
    k: Runner,
    p: Program,
    m: Machine,
    scope: Names,
    base: usize,
    floor: usize,
    handler_base: int,
    start: usize,
    starts: Set<usize>,
) -> bool
    decreases operations_left(m),
{
    let r = ran(k, p, entering(p, m), scope, base, floor, start);
    match r.result {
        Ok(_) => true,
        Err(err) => match caught(p, r.m, err, handler_base, r.scope) {
            (Err(_), _, _) => true,
            (Ok(target), m1, left) => starts.contains(target) && match counted(
                faults_cleared(m1),
                p.pos_of(target as int),
            ) {
                (Err(_), _) => true,
                (Ok(_), m2) => m2.regs.operations > m.regs.operations ==> catches_inside(
                    k,
                    p,
                    m2,
                    left,
                    base,
                    floor,
                    handler_base,
                    target,
                    starts,
                ),
            },
        },
    }
}

/// A frame that catches inside a closed chunk stays in it.
pub proof fn frames_stay_in_their_chunk(
    k: Runner,
    p: Program,
    m: Machine,
    scope: Names,
    base: usize,
    floor: usize,
    handler_base: int,
    start: usize,
    chunk: Chunk,
    starts: Set<usize>,
)
    requires
        closed_chunk(p, chunk, starts),
        starts.contains(start),
        catches_inside(k, p, m, scope, base, floor, handler_base, start, starts),
    ensures
        starts.contains(
            resumed(k, p, m, scope, base, floor, handler_base, start).reached,
        ),
    decreases operations_left(m),
{
    reveal_with_fuel(resumed, 1);
    runs_stay_in_their_chunk(k, p, entering(p, m), scope, base, floor, start, chunk, starts);
    let r = ran(k, p, entering(p, m), scope, base, floor, start);
    if let Err(err) = r.result {
        if let (Ok(target), m1, left) = caught(p, r.m, err, handler_base, r.scope) {
            if let (Ok(_), m2) = counted(faults_cleared(m1), p.pos_of(target as int)) {
                if m2.regs.operations > m.regs.operations {
                    frames_stay_in_their_chunk(
                        k,
                        p,
                        m2,
                        left,
                        base,
                        floor,
                        handler_base,
                        target,
                        chunk,
                        starts,
                    );
                }
            }
        }
    }
}

/// The main frame of a run, as it is entered.
pub open spec fn main_entry(p: Program, m: Machine, scope: Names) -> Entry {
    Entry {
        p,
        m: started(m),
        scope,
        entry: p.main.entry,
        base: scope.len() as usize,
    }
}

/// A run that fails leaves a trace, of its own frames only: those called from the
/// main chunk come first, innermost first, as they left it, and the last is an
/// instruction of the main chunk, where that is closed and catches inside
/// itself. A run that does not fail leaves none.
pub proof fn traces_end_in_the_main_chunk(
    p: Program,
    m: Machine,
    scope: Names,
    wrappers: Option<u64>,
    starts: Set<usize>,
)
    requires
        m.regs.owns_trace,
        closed_chunk(p, p.main, starts),
        ({
            let e = main_entry(p, in_environment(m, p, wrappers), scope);
            catches_inside(
                below(levels_left(e.m)),
                p,
                framed(e.m, e.base),
                scope,
                e.base,
                e.m.stack.len() as usize,
                e.m.handlers.len() as int,
                p.main.entry as usize,
                starts,
            )
        }),
    ensures
        ({
            let inside = in_environment(m, p, wrappers);
            let e = main_entry(p, inside, scope);
            let r = executed(levels_left(e.m), e);
            let trace = evaluated(p, m, scope, wrappers).1.faults;
            &&& e.m.faults.len() == 0
            &&& unwound(main_run(p, inside, scope).0) is Err ==> {
                &&& trace.len() > 0
                &&& trace.drop_last() == r.m.faults
                &&& trace.last().address == r.reached
                &&& p.main.entry <= trace.last().address < p.main.end
            }
            &&& evaluated(p, m, scope, wrappers).0 is Ok ==> trace.len() == 0
        }),
{
    let inside = in_environment(m, p, wrappers);
    let e = main_entry(p, inside, scope);
    let n = levels_left(e.m);
    frames_stay_in_their_chunk(
        below(n),
        p,
        framed(e.m, e.base),
        scope,
        e.base,
        e.m.stack.len() as usize,
        e.m.handlers.len() as int,
        p.main.entry as usize,
        p.main,
        starts,
    );
    frames_clean_up(n, e);
    traces_tell_of_the_failure(p, inside, scope);
    values_leave_no_trace(p, m, scope, wrappers);
    reveal(evaluated);
    let r = executed(n, e);
    assert(starts.contains(r.reached));
    let fault = Fault { address: r.reached, slot: r.m.regs.pending_slot };
    assert(r.m.faults.push(fault).drop_last() =~= r.m.faults);
}

/// A frame that would never leave by itself ends for want of operations: as long
/// as every instruction it comes to leads on to another or is refused for too
/// many operations, the frame is.
pub proof fn endless_frames_run_out(
    k: Runner,
    p: Program,
    m: Machine,
    scope: Names,
    base: usize,
    floor: usize,
    pc: usize,
    on: spec_fn(Machine, Names, usize) -> bool,
)
    requires
        on(m, scope, pc),
        forall|m: Machine, scope: Names, pc: usize| #[trigger]
            on(m, scope, pc) ==> leads_on(k, p, m, scope, base, floor, pc, on),
    ensures
        ran(k, p, m, scope, base, floor, pc).result is Err,
        ran(k, p, m, scope, base, floor, pc).result->Err_0.kind is ErrorTooManyOperations,
    decreases operations_left(m), code_left(p, pc),
{
    reveal_with_fuel(ran, 1);
    assert(leads_on(k, p, m, scope, base, floor, pc, on));
    if let Ok((op, width)) = decoded(p.code@, pc as int) {
        let next = (pc + width) as usize;
        let (r, m1, left) = stepped(k, p, m, scope, base, floor, pc, next, op);
        if let Ok(Flow::Next(to)) = r {
            if moved_on(m, m1, pc, to) && pc < p.code@.len() {
                endless_frames_run_out(k, p, m1, left, base, floor, to, on);
            }
        }
    }
}

/// Whether an instruction leads on to another of those `on` holds of, or is
/// refused for too many operations.
pub open spec fn leads_on(
    k: Runner,
    p: Program,
    m: Machine,
    scope: Names,
    base: usize,
    floor: usize,
    pc: usize,
    on: spec_fn(Machine, Names, usize) -> bool,
) -> bool {
    match decoded(p.code@, pc as int) {
        Err(_) => false,
        Ok((op, width)) => match stepped(
            k,
            p,
            m,
            scope,
            base,
            floor,
            pc,
            (pc + width) as usize,
            op,
        ) {
            (Ok(Flow::Next(to)), m1, left) => on(m1, left, to),
            (Ok(Flow::Leave(_)), _, _) => false,
            (Err(err), _, _) => err.kind is ErrorTooManyOperations,
        },
    }
}

// ---------------------------------------------------------------------------
// Room.

/// Room is made for what is needed and no more than twice that, and never given
/// up for it.
pub proof fn room_is_for_what_is_needed(m: Machine, v: Datum, row: Seq<Datum>, extra: nat)
    requires
        m.stack.len() <= m.room,
    ensures
        m.room <= m.push(v).room,
        m.push(v).room <= m.room || m.push(v).room < 2 * (m.stack.len() + 1),
        m.room <= m.push_all(row).room,
        m.push_all(row).room <= m.room || m.push_all(row).room < 2 * (m.stack.len() + row.len()),
        m.room <= m.reserve(extra).room,
        m.reserve(extra).room <= m.room || m.reserve(extra).room < 2 * (m.stack.len() + extra),
        m.stack.len() + extra <= usize::MAX ==> m.stack.len() + extra <= m.reserve(extra).room,
{
    crate::stack::slots_are_few(m.stack.len() + 1);
    crate::stack::slots_are_few(m.stack.len() + row.len());
    crate::stack::slots_are_few(m.stack.len() + extra);
}

/// Entering a frame on a stack that has nothing on it makes room for what the
/// program says it needs, and a frame that keeps to that needs no more.
pub proof fn frames_keep_to_their_room(p: Program, m: Machine, v: Datum)
    requires
        m.stack.len() == 0,
        p.max_stack > 0,
        p.max_stack <= usize::MAX,
    ensures
        entering(p, m).room == (if p.max_stack > m.room {
            slots_for(p.max_stack as nat)
        } else {
            m.room
        }),
        entering(p, m).room >= p.max_stack,
        forall|inside: Machine|
            inside.room == entering(p, m).room && inside.stack.len() < p.max_stack
                ==> #[trigger] inside.push(v).room == inside.room,
        forall|inside: Machine|
            inside.room == entering(p, m).room && inside.stack.len() == 0 ==> #[trigger] entering(
                p,
                inside,
            ).room == inside.room,
{
    crate::stack::slots_are_few(p.max_stack as nat);
}

} // verus!
