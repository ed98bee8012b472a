//! What compiled code does in the machine's place: its short ways give what the
//! long ones would, and touch nothing more.
use vstd::prelude::*;

use crate::arith::{assigned, Applied};
use crate::bytecode::{decoded, Op, Receiver};
use crate::call::{called, called_by_reference, levels_left};
use crate::error::Fail;
use crate::frame::{below, plain_did, stepped, Runner};
use crate::machine::Machine;
use crate::operate::{delivered, fast_answer, operands_pushed, operated, Flow};
use crate::position::Position;
use crate::program::Program;
use crate::residual::{
    adds_locals, body_ops, by_reference_left, declare_left, fast_kind, magnitude, named_assign_left,
    named_load_left, pair_flattened, plain_add, receiver_at, shortened_by_reference,
    shortened_stacked, slot_of, slot_stored, stacked_left, summed, sums_locals, variable_stored,
    Held, PlainFast,
};
use crate::scope::{newest_at, Names};
use crate::value::{copied, AccessMode, Data, Datum};

verus! {

// ---------------------------------------------------------------------------
// Sums and magnitudes.

/// An instruction taken for a sum of the first two variables leaves their sum on
/// the stack.
pub proof fn recognised_sums_add_the_first_two(
    k: Runner,
    p: Program,
    m: Machine,
    scope: Names,
    base: usize,
    floor: usize,
    pc: usize,
    next: usize,
    op: Op,
    x: i64,
    y: i64,
)
    requires
        adds_locals(op),
        m.engine.fast_operators,
        base + 1 < scope.len(),
        scope[base as int].1.data == Data::Int(x),
        scope[base + 1].1.data == Data::Int(y),
        i64::MIN <= x + y <= i64::MAX,
    ensures
        ({
            let (r, after, left) = stepped(k, p, m, scope, base, floor, pc, next, op);
            &&& r == Ok::<Flow<Datum>, Fail>(Flow::Next(next)) && left == scope
            &&& after.stack.len() == m.stack.len() + 1
            &&& after.stack.drop_last() == m.stack
            &&& after.stack.last().data == Data::Int((x + y) as i64)
        }),
{
    reveal(stepped);
    reveal(operated);
    reveal(operands_pushed);
    reveal(fast_answer);
    reveal(delivered);
    let (_, after, _) = stepped(k, p, m, scope, base, floor, pc, next, op);
    let o = op->Operate_0;
    let (_, pushed) = operands_pushed(p, m, scope, base, o);
    assert(pushed.stack.len() == m.stack.len() + 2);
    assert(crate::stack::truncated(pushed.stack, m.stack.len() as int) =~= m.stack);
    assert(after.stack.drop_last() =~= m.stack);
}

/// Nothing but such a sum, alone or before a return, or the two variables loaded
/// in order and added, is taken for one.
pub proof fn other_bodies_are_not_taken_for_sums(p: Program, ops: Seq<Op>)
    requires
        sums_locals(p, ops),
    ensures
        1 <= ops.len() <= 4,
        ops.len() <= 2 ==> adds_locals(ops[0]),
        ops.len() == 2 ==> ops[1] is Return,
        ops.len() >= 3 ==> ops[0] == Op::LoadLocal(0) && ops[1] == Op::LoadLocal(1) && (
        ops[2] matches Op::Operate(o) && o.branch is None && o.lhs is Stack && o.rhs is Stack),
        ops.len() == 4 ==> ops[3] is Return,
{
}

/// The short sum of two integers is the sum, put in place of everything from the
/// first operand up; an overflow is a failure, and anything but numbers is left
/// to the long way with nothing changed.
pub proof fn short_sums_are_sums(m: Machine, lhs: Datum, rhs: Datum, first: int, x: i64, y: i64)
    requires
        0 <= first <= m.stack.len(),
    ensures
        ({
            let (r, after) = summed(m, lhs, rhs, first);
            &&& lhs.data == Data::Int(x) && rhs.data == Data::Int(y) && i64::MIN <= x + y
                <= i64::MAX ==> r == PlainFast::<Fail>::Did(None) && after.stack.len() == first + 1
                && after.stack.drop_last() == m.stack.subrange(0, first)
                && after.stack.last().data == Data::Int((x + y) as i64)
            &&& lhs.data == Data::Int(x) && rhs.data == Data::Int(y) && !(i64::MIN <= x + y
                <= i64::MAX) ==> (r matches PlainFast::Did(Some(err))
                && err.kind is ErrorArithmetic) && after == m
            &&& !(lhs.data is Int || lhs.data is Float) || !(rhs.data is Int || rhs.data is Float)
                ==> r is Miss && after == m
        }),
{
    let (_, after) = summed(m, lhs, rhs, first);
    if lhs.data == Data::Int(x) && rhs.data == Data::Int(y) && i64::MIN <= x + y <= i64::MAX {
        assert(crate::stack::truncated(m.stack, first) =~= m.stack.subrange(0, first));
        assert(after.stack.drop_last() =~= m.stack.subrange(0, first));
    }
}

/// The short magnitude of an integer is never negative and is the integer or its
/// opposite; the one integer without an opposite is a failure.
pub proof fn short_magnitudes_are_magnitudes(m: Machine, d: Datum, pos: Position, x: i64)
    requires
        !(d.data is Shared),
    ensures
        ({
            let (r, after) = magnitude(m, d, pos);
            &&& d.data == Data::Int(x) && x > i64::MIN ==> r == PlainFast::<Fail>::Did(None)
                && after.stack == m.stack.push(after.stack.last()) && (
            after.stack.last().data matches Data::Int(n) && n >= 0 && (n == x || n == -x))
            &&& d.data == Data::Int(x) && x == i64::MIN ==> (r matches PlainFast::Did(Some(err))
                && err.kind is ErrorArithmetic && err.pos == pos) && after == m
            &&& !(d.data is Int) ==> r is Miss && after == m
        }),
{
}

// ---------------------------------------------------------------------------
// Variables.

/// The receiver of a short call is the variable of its slot, counted from the
/// frame's own, or the newest one of its name if it may be written.
pub proof fn receivers_are_found_as_elsewhere(
    p: Program,
    scope: Names,
    base: usize,
    slot: u16,
    name: u32,
    i: int,
)
    ensures
        base + slot < scope.len() ==> receiver_at(p, scope, base, Receiver::Local(slot)) == Some(
            base + slot,
        ),
        base + slot >= scope.len() ==> receiver_at(p, scope, base, Receiver::Local(slot)) is None,
        receiver_at(p, scope, base, Receiver::This) is None,
        p.name_of(name as int) matches Some(text) ==> (0 <= i < scope.len() && scope[i].0 == text
            && (forall|j: int| i < j < scope.len() ==> (#[trigger] scope[j]).0 != text)
            ==> receiver_at(p, scope, base, Receiver::Named(name)) == (if scope[i].1.mode
            == AccessMode::ReadWrite {
            Some(i)
        } else {
            None
        })),
{
    if let Some(text) = p.name_of(name as int) {
        if 0 <= i < scope.len() && scope[i].0 == text && (forall|j: int|
            i < j < scope.len() ==> (#[trigger] scope[j]).0 != text) {
            assert(newest_at(scope, text, i));
            crate::scope::found_is(scope, text, i);
        }
    }
}

/// Compiled code reads and assigns a named variable, and declares one, as the
/// instructions do.
pub proof fn compiled_names_are_those_of_the_machine(
    p: Program,
    m: Machine,
    scope: Names,
    base: usize,
    pos: Position,
    name: u16,
    flatten: bool,
    constant: bool,
)
    requires
        p.name_of(name as int) is Some,
    ensures
        ({
            let (err, after, left) = named_load_left(p, m, scope, name as u32, flatten, pos);
            let (r, did, kept) = plain_did(p, m, scope, base, pos, Op::LoadNamed { name, flatten });
            &&& after == did && left == kept
            &&& r is Ok ==> err is None
            &&& r matches Err(e) ==> err == Some(e)
        }),
        ({
            let (err, after, left) = named_assign_left(p, m, scope, name as u32, None, pos);
            let (r, did, kept) = plain_did(
                p,
                m,
                scope,
                base,
                pos,
                Op::AssignNamed { name, op: None },
            );
            &&& after == did && left == kept
            &&& r is Ok ==> err is None
            &&& r matches Err(e) ==> err == Some(e)
        }),
        ({
            let (err, after, left) = declare_left(p, m, scope, name as u32, constant, false, pos);
            let (r, did, kept) = plain_did(
                p,
                m,
                scope,
                base,
                pos,
                Op::Declare { name, constant },
            );
            &&& after == did && left == kept
            &&& r is Ok ==> err is None
            &&& r matches Err(e) ==> err == Some(e)
        }),
{
    reveal(plain_did);
}

/// Storing into a variable reaches it alone.
pub proof fn compiled_stores_reach_one_variable(
    p: Program,
    m: Machine,
    scope: Names,
    index: int,
    value: Datum,
    pos: Position,
)
    requires
        0 <= index < scope.len(),
        !(scope[index].1.data is Shared),
    ensures
        ({
            let (err, after, left) = variable_stored(p, m, scope, index, value, pos);
            &&& err is None && after == m
            &&& left.len() == scope.len()
            &&& left[index] == (scope[index].0, value)
            &&& forall|j: int|
                0 <= j < scope.len() && j != index ==> #[trigger] left[j] == scope[j]
        }),
{
    reveal(crate::assign::stored_through);
    reveal(crate::assign::stored_value);
}

// ---------------------------------------------------------------------------
// Operands.

/// An operand is read and stored by its place from the bottom, and a place that
/// was never there stops the run.
pub proof fn operands_are_reached_by_place(m: Machine, held: Held, index: usize, value: Datum)
    ensures
        index < m.stack.len() ==> slot_of(m, index) == m.stack[index as int],
        index >= m.stack.len() ==> slot_of(m, index).data is Unit,
        ({
            let (after, kept) = slot_stored(m, held, index, value);
            &&& index < m.stack.len() ==> kept == held && after.stack.len() == m.stack.len()
                && after.stack[index as int] == value && (forall|j: int|
                0 <= j < m.stack.len() && j != index ==> #[trigger] after.stack[j] == m.stack[j])
            &&& index >= m.stack.len() ==> after == m
            &&& index >= m.stack.len() && index >= m.room ==> kept.abort
            &&& index >= m.stack.len() && index < m.room ==> kept == held
        }),
{
}

/// The two operands of a short call are read out of their cells in place.
pub proof fn pairs_are_read_out_in_place(m: Machine, first: int)
    requires
        0 <= first,
        first + 1 < m.stack.len(),
    ensures
        ({
            let after = pair_flattened(m, first);
            &&& after.stack.len() == m.stack.len() && after.heap == m.heap
            &&& !(m.stack[first].data is Shared) ==> after.stack[first] == m.stack[first]
            &&& !(m.stack[first + 1].data is Shared) ==> after.stack[first + 1] == m.stack[first + 1]
            &&& m.stack[first].data matches Data::Shared(cell) ==> (cell < m.heap.len()
                && !m.heap[cell as int].locked ==> after.stack[first] == copied(
                m.heap[cell as int].value,
            ))
            &&& forall|j: int|
                0 <= j < m.stack.len() && j != first && j != first + 1 ==> #[trigger] after.stack[j]
                    == m.stack[j]
        }),
{
}

/// The kinds compiled code knows are the scalars, each by a number of its own.
pub proof fn scalars_have_their_numbers(a: Data, b: Data)
    ensures
        fast_kind(a) != 0 <==> a is Int || a is Bool || a is Float || a is Unit,
        fast_kind(a) == fast_kind(b) && fast_kind(a) != 0 ==> (a is Int == b is Int) && (a is Bool
            == b is Bool) && (a is Float == b is Float) && (a is Unit == b is Unit),
        a is Int ==> fast_kind(a) == 1,
        a is Bool ==> fast_kind(a) == 2,
        a is Float ==> fast_kind(a) == 3,
        a is Unit ==> fast_kind(a) == 4,
{
}

// ---------------------------------------------------------------------------
// Short calls.

/// A short call by reference adds the operand on top to the variable it is called
/// on, where the function does just that; a call that captures, a receiver that
/// is not found and any other function go the long way, with nothing changed.
pub proof fn short_calls_add_to_their_variable(
    p: Program,
    m: Machine,
    scope: Names,
    base: usize,
    index: u32,
    slot: u16,
    capture: bool,
    pos: Position,
    x: i64,
    y: i64,
)
    requires
        base + slot < scope.len(),
        m.stack.len() > 0,
    ensures
        ({
            let (r, after) = shortened_by_reference(
                p,
                m,
                scope,
                base,
                index,
                2,
                Receiver::Local(slot),
                capture,
                pos,
            );
            &&& capture || !m.engine.fast_operators || !plain_add(p, index) ==> r is Miss && after
                == m
            &&& !capture && m.engine.fast_operators && plain_add(p, index)
                && scope[base + slot].1.data == Data::Int(x) && m.stack.last().data == Data::Int(y)
                && i64::MIN <= x + y <= i64::MAX ==> r == PlainFast::<Fail>::Did(None)
                && after.stack.len() == m.stack.len() && after.stack.drop_last()
                == m.stack.drop_last() && after.stack.last().data == Data::Int((x + y) as i64)
        }),
{
    let first = m.stack.len() - 1;
    short_sums_are_sums(m, scope[base + slot].1, m.stack[first], first, x, y);
    assert(m.stack.subrange(0, first) =~= m.stack.drop_last());
}

/// A short call on operands adds the two from its first on and puts the sum in
/// their place.
pub proof fn short_calls_add_their_operands(
    p: Program,
    m: Machine,
    index: u32,
    first: int,
    capture: bool,
    x: i64,
    y: i64,
)
    requires
        0 <= first,
        first + 2 == m.stack.len(),
        m.stack[first].data == Data::Int(x),
        m.stack[first + 1].data == Data::Int(y),
        i64::MIN <= x + y <= i64::MAX,
    ensures
        ({
            let (r, after) = shortened_stacked(p, m, index, 2, first, capture);
            &&& capture || !m.engine.fast_operators || !plain_add(p, index) ==> r is Miss && after
                == m
            &&& !capture && m.engine.fast_operators && plain_add(p, index) ==> r == PlainFast::<
                Fail,
            >::Did(None) && after.stack.len() == first + 1 && after.stack.drop_last()
                == m.stack.subrange(0, first) && after.stack.last().data == Data::Int(
                (x + y) as i64,
            )
        }),
{
    let m1 = pair_flattened(m, first);
    assert(m1.stack =~= m.stack);
    short_sums_are_sums(m, m.stack[first], m.stack[first + 1], first, x, y);
}

/// What has no short way is called as the machine calls it.
pub proof fn other_calls_go_the_long_way(
    p: Program,
    m: Machine,
    scope: Names,
    base: usize,
    index: u32,
    argc: usize,
    first: int,
    receiver: Receiver,
    pos: Position,
)
    requires
        p.name_of(index as int) is Some,
    ensures
        ({
            let (err, after, left) = by_reference_left(
                p,
                m,
                scope,
                base,
                index,
                argc,
                receiver,
                true,
                pos,
            );
            let (r, m1, names) = called_by_reference(
                below(levels_left(m)),
                p,
                m,
                scope,
                base,
                index,
                p.name_of(index as int)->0,
                argc as int,
                receiver,
                true,
                pos,
            );
            &&& left == names
            &&& r matches Ok(v) ==> err is None && after.stack == m1.stack.push(v)
            &&& r matches Err(e) ==> err == Some(e) && after == m1
        }),
        ({
            let (err, after, left) = stacked_left(p, m, scope, index, argc, first, true, pos);
            let (r, m1, names) = called(
                below(levels_left(m)),
                p,
                m,
                scope,
                index,
                p.name_of(index as int)->0,
                argc as int,
                first,
                true,
                pos,
            );
            &&& left == names
            &&& r matches Ok(v) ==> err is None && after.stack == m1.stack.push(v)
            &&& r matches Err(e) ==> err == Some(e) && after == m1
        }),
{
}

/// A function is taken for a sum only if one of that name takes two arguments,
/// belongs to no type, and its body comes to that once what only counts is left
/// out.
pub proof fn sums_are_recognised_by_their_body(p: Program, index: u32, code: Seq<u8>, at: int)
    requires
        0 <= at,
    ensures
        plain_add(p, index) ==> p.plain_from(index, 2, 0) is Some,
        decoded(code, at) matches Ok((op, n)) ==> (op is Tick || op is Checkpoint ==> body_ops(
            code,
            at,
        ) == body_ops(code, at + n)),
        decoded(code, at) matches Ok((op, n)) ==> (!(op is Tick || op is Checkpoint) ==> body_ops(
            code,
            at,
        ) == seq![op] + body_ops(code, at + n)),
        decoded(code, at) is Err ==> body_ops(code, at).len() == 0,
{
}

/// An operator assignment that was computed changes what the variable holds and
/// nothing else about it; any other outcome changes nothing.
pub proof fn computed_assignments_change_the_number_alone(
    target: Datum,
    out: Result<Applied<i64>, Fail>,
    n: i64,
)
    ensures
        out == Ok::<Applied<i64>, Fail>(Applied::Done(n)) ==> assigned(target, out).data
            == Data::Int(n) && assigned(target, out).tag == target.tag && assigned(
            target,
            out,
        ).mode == target.mode,
        !(out matches Ok(Applied::Done(_))) ==> assigned(target, out) == target,
{
}

} // verus!
