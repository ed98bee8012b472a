//! What variables and operands do: what is pushed, which variable a slot or a
//! name means, what an assignment changes and what it leaves alone.
use vstd::prelude::*;

use crate::arith::{arithmetic, BinOpKind};
use crate::assign::{
    assigned_named, built_assign, loaded_named, resolved_var, stored_through, stored_value,
};
use crate::bytecode::{Op, Source};
use crate::dict::{bound, find_key, find_key_is};
use crate::error::{Fail, FailureKind};
use crate::frame::{plain_did, stepped, Runner};
use crate::heap::CellView;
use crate::host::Reply;
use crate::machine::Machine;
use crate::operate::Flow;
use crate::ops::with_entries;
use crate::position::Position;
use crate::program::Program;
use crate::scope::{found, newest_at, Names};
use crate::text::{identifier, listed};
use crate::value::{copied, with_mode, AccessMode, Data, Datum};

verus! {

/// Whether an instruction only works on the machine and goes on to the next.
pub open spec fn straight(op: Op) -> bool {
    match op {
        Op::Jump(_) => false,
        Op::JumpIf { .. } => false,
        Op::SkipIfNotUnit(_) => false,
        Op::Switch(_) => false,
        Op::IterNext { .. } => false,
        Op::Operate(_) => false,
        Op::CallRef { .. } => false,
        Op::CallFnPtr { .. } => false,
        Op::Chain { .. } => false,
        Op::IndexSet(_) => false,
        Op::IndexGet { .. } => false,
        Op::Return => false,
        _ => true,
    }
}

/// An instruction that only works on the machine is followed by the next one,
/// unless it fails.
pub proof fn straight_instructions_go_on(
    k: Runner,
    p: Program,
    m: Machine,
    scope: Names,
    base: usize,
    floor: usize,
    pc: usize,
    next: usize,
    op: Op,
)
    requires
        straight(op),
    ensures
        ({
            let (r, after, left) = stepped(k, p, m, scope, base, floor, pc, next, op);
            let (done, did, kept) = plain_did(p, m, scope, base, p.pos_of(pc as int), op);
            &&& after == did && left == kept
            &&& done is Ok ==> r == Ok::<Flow<Datum>, Fail>(Flow::Next(next))
            &&& done matches Err(err) ==> r == Err::<Flow<Datum>, Fail>(err)
        }),
{
    reveal(stepped);
}

// ---------------------------------------------------------------------------
// Operands.

/// A literal is put on top of the operands that were there.
pub proof fn literals_are_pushed(
    p: Program,
    m: Machine,
    scope: Names,
    base: usize,
    pos: Position,
    i: u16,
    b: bool,
)
    requires
        i < p.constants@.len(),
    ensures
        ({
            let (r, after, left) = plain_did(p, m, scope, base, pos, Op::Const(i));
            r is Ok && left == scope && after.stack == m.stack.push(
                copied(p.constants@[i as int]@),
            )
        }),
        ({
            let (r, after, left) = plain_did(p, m, scope, base, pos, Op::Unit);
            r is Ok && left == scope && after.stack.len() == m.stack.len() + 1
                && after.stack.drop_last() == m.stack && after.stack.last().data is Unit
        }),
        ({
            let (r, after, left) = plain_did(p, m, scope, base, pos, Op::Bool(b));
            r is Ok && left == scope && after.stack.len() == m.stack.len() + 1
                && after.stack.drop_last() == m.stack && after.stack.last().data == Data::Bool(b)
        }),
{
    reveal(plain_did);
}

/// Popping takes the top operand and nothing else.
pub proof fn pops_take_the_top(
    p: Program,
    m: Machine,
    scope: Names,
    base: usize,
    pos: Position,
    v: Datum,
)
    ensures
        plain_did(p, Machine { stack: m.stack.push(v), ..m }, scope, base, pos, Op::Pop) == (
            Ok::<(), Fail>(()),
            m,
            scope,
        ),
        m.stack.len() == 0 ==> plain_did(p, m, scope, base, pos, Op::Pop).0 is Err,
{
    reveal(plain_did);
    let full = Machine { stack: m.stack.push(v), ..m };
    assert(full.stack.drop_last() =~= m.stack);
}

/// Rotating puts the top operand under so many others, which keep their order.
pub proof fn rotation_moves_the_top_under(
    p: Program,
    m: Machine,
    scope: Names,
    base: usize,
    pos: Position,
    under: Seq<Datum>,
    row: Seq<Datum>,
    v: Datum,
)
    requires
        row.len() <= 255,
        m.stack == (under + row).push(v),
    ensures
        ({
            let (r, after, left) = plain_did(
                p,
                m,
                scope,
                base,
                pos,
                Op::Rotate(row.len() as u8),
            );
            r is Ok && left == scope && after.stack == under.push(v) + row
        }),
{
    reveal(plain_did);
    let (_, after, _) = plain_did(p, m, scope, base, pos, Op::Rotate(row.len() as u8));
    let to = m.stack.len() - 1 - row.len();
    assert(m.stack.subrange(0, to) =~= under);
    assert(m.stack.subrange(to, m.stack.len() - 1) =~= row);
    assert(after.stack =~= under.push(v) + row);
}

/// An array literal holds its elements in the order they were pushed.
pub proof fn array_literals_keep_their_order(
    p: Program,
    m: Machine,
    scope: Names,
    base: usize,
    pos: Position,
    under: Seq<Datum>,
    row: Seq<Datum>,
)
    requires
        row.len() <= 65535,
        m.stack == under + row,
        forall|i: int| 0 <= i < row.len() ==> !((#[trigger] row[i]).data is Shared),
    ensures
        ({
            let (r, after, left) = plain_did(
                p,
                m,
                scope,
                base,
                pos,
                Op::MakeArray(row.len() as u16),
            );
            &&& r is Ok && left == scope
            &&& after.stack.len() == under.len() + 1
            &&& after.stack.drop_last() == under
            &&& after.stack.last().data == Data::Array(row)
            &&& after.stack.last().mode == AccessMode::ReadWrite
            &&& row.len() > 0 && m.sizes.len() > 0 ==> after.sizes == m.sizes.drop_last()
            &&& row.len() == 0 ==> after.sizes == m.sizes
        }),
{
    reveal(plain_did);
    let (_, after, _) = plain_did(p, m, scope, base, pos, Op::MakeArray(row.len() as u16));
    let first: int = under.len() as int;
    assert(crate::stack::above(m.stack, first) =~= row);
    assert(crate::ops::all_flattened(m.heap, row) =~= row);
    assert(crate::stack::truncated(m.stack, first) =~= under);
    assert(after.stack.drop_last() =~= under);
}

/// A map literal adds each value under the key pushed before it, and a key that
/// stands twice keeps the later value.
pub proof fn map_literals_keep_the_later_value(
    heap: Seq<CellView>,
    pairs: Seq<(Seq<char>, Datum)>,
    parts: Seq<Datum>,
    i: int,
    key: Seq<char>,
)
    requires
        1 <= i,
        parts.len() == i + 2,
        parts[i].data == Data::Str(key),
        !(parts[i + 1].data is Shared),
        crate::dict::keys_once(pairs),
    ensures
        ({
            let made = with_entries(heap, pairs, parts, i);
            &&& made matches Ok(after)
            &&& exists|j: int|
                0 <= j < after.len() && #[trigger] after[j] == (key, parts[i + 1])
            &&& crate::dict::keys_once(after)
            &&& forall|j: int|
                0 <= j < pairs.len() && (#[trigger] pairs[j]).0 != key ==> after[j] == pairs[j]
            &&& after.len() <= pairs.len() + 1
        }),
        with_entries(heap, pairs, parts, parts.len() as int) == Ok::<
            Seq<(Seq<char>, Datum)>,
            Fail,
        >(pairs),
{
    reveal_with_fuel(with_entries, 3);
    let after = bound(pairs, key, parts[i + 1]);
    match find_key(pairs, key) {
        Some(j) => {
            assert(crate::dict::key_at(pairs, key, j));
            assert(after[j] == (key, parts[i + 1]));
        },
        None => {
            assert(after[pairs.len() as int] == (key, parts[i + 1]));
            assert forall|j: int| 0 <= j < pairs.len() implies (#[trigger] pairs[j]).0 != key by {
                if pairs[j].0 == key {
                    find_key_is(pairs, key, j);
                }
            }
        },
    }
}

/// A map literal takes its template and its keys and values off the stack, and
/// puts in their place the template's entries with the values added.
pub proof fn map_literals_take_their_operands(
    p: Program,
    m: Machine,
    scope: Names,
    base: usize,
    pos: Position,
    under: Seq<Datum>,
    parts: Seq<Datum>,
    len: u16,
    all: Seq<(Seq<char>, Datum)>,
)
    requires
        m.stack == under + parts,
        parts.len() == 2 * len + 1,
        parts[0].data is Dict,
        with_entries(m.heap, copied(parts[0]).data->Dict_0, parts, 1) == Ok::<
            Seq<(Seq<char>, Datum)>,
            Fail,
        >(all),
    ensures
        ({
            let (r, after, left) = plain_did(p, m, scope, base, pos, Op::MakeMap(len));
            &&& r is Ok && left == scope
            &&& after.stack.len() == under.len() + 1
            &&& after.stack.drop_last() == under
            &&& after.stack.last().data == Data::Dict(all)
        }),
{
    reveal(plain_did);
    let first: int = under.len() as int;
    assert(crate::stack::above(m.stack, first) =~= parts);
    assert(crate::stack::truncated(m.stack, first) =~= under);
    let (_, after, _) = plain_did(p, m, scope, base, pos, Op::MakeMap(len));
    assert(after.stack.drop_last() =~= under);
}

/// A piece of an interpolated text is put behind the pieces before it.
pub proof fn interpolation_appends_in_order(
    p: Program,
    m: Machine,
    scope: Names,
    base: usize,
    pos: Position,
    under: Seq<Datum>,
    so_far: Datum,
    piece: Datum,
    a: Seq<char>,
    b: Seq<char>,
)
    requires
        m.stack == under.push(so_far).push(piece),
        so_far.data == Data::Str(a),
        piece.data == Data::Str(b),
        m.engine.max_string_size == 0,
    ensures
        ({
            let (r, after, left) = plain_did(p, m, scope, base, pos, Op::InterpolateAppend);
            &&& r is Ok && left == scope
            &&& after.stack.len() == under.len() + 1
            &&& after.stack.drop_last() == under
            &&& after.stack.last().data == Data::Str(a + b)
        }),
        ({
            let (r, after, left) = plain_did(p, m, scope, base, pos, Op::InterpolateStart);
            r is Ok && left == scope && after.stack == m.stack.push(after.stack.last())
                && after.stack.last().data == Data::Str(Seq::empty())
        }),
        ({
            let (r, after, left) = plain_did(p, m, scope, base, pos, Op::InterpolateEnd);
            r is Ok && left == scope && after.stack.len() == m.stack.len() && after.stack.drop_last()
                == m.stack.drop_last() && after.stack.last().data == Data::Str(b)
        }),
{
    reveal(plain_did);
    reveal_strlit("");
    assert(""@ =~= Seq::<char>::empty());
    assert(m.stack.drop_last() =~= under.push(so_far));
    assert(under.push(so_far).drop_last() =~= under);
    let (_, after, _) = plain_did(p, m, scope, base, pos, Op::InterpolateAppend);
    assert(after.stack.drop_last() =~= under);
    let (_, ended, _) = plain_did(p, m, scope, base, pos, Op::InterpolateEnd);
    assert(ended.stack.drop_last() =~= m.stack.drop_last());
}

/// A text that grows past the limit is refused.
pub proof fn long_texts_are_refused(
    p: Program,
    m: Machine,
    scope: Names,
    base: usize,
    pos: Position,
    so_far: Datum,
    piece: Datum,
    a: Seq<char>,
    b: Seq<char>,
)
    requires
        m.stack.len() >= 2,
        m.stack[m.stack.len() - 2] == so_far,
        m.stack.last() == piece,
        so_far.data == Data::Str(a),
        piece.data == Data::Str(b),
        vstd::utf8::encode_utf8(a + b).len() <= usize::MAX,
    ensures
        ({
            let (r, _, _) = plain_did(p, m, scope, base, pos, Op::InterpolateAppend);
            let long = m.engine.max_string_size > 0 && vstd::utf8::encode_utf8(a + b).len()
                > m.engine.max_string_size;
            &&& long ==> (r matches Err(err) && err.kind is ErrorDataTooLarge && err.pos == pos)
            &&& !long ==> r is Ok
        }),
{
    reveal(plain_did);
    let rest = m.stack.drop_last();
    assert(rest.last() == so_far);
}

/// A function pointer is made of a name a script could have written and no
/// values, and of no other.
pub proof fn pointers_are_made_of_names(
    p: Program,
    m: Machine,
    scope: Names,
    base: usize,
    pos: Position,
    under: Seq<Datum>,
    v: Datum,
    name: Seq<char>,
)
    requires
        m.stack == under.push(v),
    ensures
        ({
            let (r, after, left) = plain_did(p, m, scope, base, pos, Op::MakeFnPtr);
            &&& left == scope
            &&& v.data == Data::Str(name) && !listed(m.engine.reserved@, name) && identifier(name)
                ==> r is Ok && after.stack.len() == under.len() + 1 && after.stack.drop_last()
                == under && (after.stack.last().data matches Data::FnPtr(n, c, _) && n == name
                && c.len() == 0)
            &&& v.data == Data::Str(name) && listed(m.engine.reserved@, name) ==> (r matches Err(
                err,
            ) && err.kind is ErrorParsing)
            &&& v.data == Data::Str(name) && !listed(m.engine.reserved@, name) && !identifier(name)
                ==> (r matches Err(err) && err.kind == FailureKind::<Datum, Seq<char>>::ErrorFunctionNotFound(
                name,
            ))
            &&& v.data is Int || v.data is Unit || v.data is Bool ==> r is Err
        }),
{
    reveal(plain_did);
    assert(m.stack.drop_last() =~= under);
    let (_, after, _) = plain_did(p, m, scope, base, pos, Op::MakeFnPtr);
    if v.data == Data::Str(name) && !listed(m.engine.reserved@, name) && identifier(name) {
        assert(after.stack.drop_last() =~= under);
    }
}

// ---------------------------------------------------------------------------
// Variables by slot.

/// A slot is counted from the frame's own first variable, and reading it pushes
/// a copy of what the variable holds, out of its cell if it has one; reading it
/// for sharing pushes the very cell.
pub proof fn slots_are_read_from_the_frame_up(
    p: Program,
    m: Machine,
    scope: Names,
    base: usize,
    pos: Position,
    slot: u16,
)
    ensures
        ({
            let (r, after, left) = plain_did(p, m, scope, base, pos, Op::LoadLocal(slot));
            &&& left == scope
            &&& base + slot < scope.len() ==> {
                let v = scope[base + slot].1;
                &&& r is Ok
                &&& after.stack.len() == m.stack.len() + 1
                &&& after.stack.drop_last() == m.stack
                &&& !(v.data is Shared) ==> after.stack.last() == copied(v)
                &&& v.data matches Data::Shared(cell) ==> (cell < m.heap.len()
                    && !m.heap[cell as int].locked ==> after.stack.last() == copied(
                    m.heap[cell as int].value,
                ))
            }
            &&& base + slot >= scope.len() ==> r is Err && after == m
        }),
        ({
            let (r, after, left) = plain_did(p, m, scope, base, pos, Op::LoadShared(slot));
            &&& left == scope
            &&& base + slot < scope.len() ==> {
                let v = scope[base + slot].1;
                &&& r is Ok
                &&& after.stack == m.stack.push(after.stack.last())
                &&& v.data is Shared ==> after.stack.last().data == v.data
            }
            &&& base + slot >= scope.len() ==> r is Err && after == m
        }),
{
    reveal(plain_did);
    let (_, after, _) = plain_did(p, m, scope, base, pos, Op::LoadLocal(slot));
    if base + slot < scope.len() {
        assert(after.stack.drop_last() =~= m.stack);
    }
}

/// Storing into a slot puts the top operand into that variable, under its name
/// and marked as told, and leaves every other variable as it was.
pub proof fn stores_reach_their_slot_alone(
    p: Program,
    m: Machine,
    scope: Names,
    base: usize,
    pos: Position,
    slot: u16,
    constant: bool,
)
    requires
        base + slot < scope.len(),
        m.stack.len() > 0,
        !(scope[base + slot].1.data is Shared),
    ensures
        ({
            let (r, after, left) = plain_did(
                p,
                m,
                scope,
                base,
                pos,
                Op::StoreLocal { slot, constant },
            );
            let mode = if constant {
                AccessMode::ReadOnly
            } else {
                AccessMode::ReadWrite
            };
            &&& r is Ok
            &&& after.stack == m.stack.drop_last() && after.heap == m.heap
            &&& left.len() == scope.len()
            &&& left[base + slot] == (scope[base + slot].0, with_mode(m.stack.last(), mode))
            &&& forall|j: int|
                0 <= j < scope.len() && j != base + slot ==> #[trigger] left[j] == scope[j]
        }),
        ({
            let (r, after, left) = plain_did(p, m, scope, base, pos, Op::StoreShared(slot));
            &&& r is Ok
            &&& after.stack == m.stack.drop_last() && after.heap == m.heap
            &&& left.len() == scope.len()
            &&& left[base + slot] == (scope[base + slot].0, m.stack.last())
            &&& forall|j: int|
                0 <= j < scope.len() && j != base + slot ==> #[trigger] left[j] == scope[j]
        }),
{
    reveal(plain_did);
    reveal(stored_through);
    reveal(stored_value);
}

/// Two variables that share a cell see each other's writes, and no third cell
/// changes.
pub proof fn sharers_see_each_others_writes(
    p: Program,
    m: Machine,
    scope: Names,
    base: usize,
    pos: Position,
    one: u16,
    other: u16,
    cell: usize,
)
    requires
        base + one < scope.len(),
        base + other < scope.len(),
        m.stack.len() > 0,
        scope[base + one].1.data == Data::Shared(cell),
        scope[base + other].1.data == Data::Shared(cell),
        cell < m.heap.len(),
        !m.heap[cell as int].locked,
    ensures
        ({
            let (r, after, left) = plain_did(p, m, scope, base, pos, Op::StoreShared(one));
            let (read, then, _) = plain_did(p, after, left, base, pos, Op::LoadLocal(other));
            &&& r is Ok && read is Ok
            &&& left == scope
            &&& after.heap.len() == m.heap.len()
            &&& forall|j: int|
                0 <= j < m.heap.len() && j != cell ==> #[trigger] after.heap[j] == m.heap[j]
            &&& then.stack == m.stack.drop_last().push(copied(m.stack.last()))
        }),
{
    reveal(plain_did);
    reveal(stored_through);
    reveal(stored_value);
    let (_, _, left) = plain_did(p, m, scope, base, pos, Op::StoreShared(one));
    assert(left =~= scope);
}

/// Sharing a variable moves its value into a cell of its own, which no other
/// variable had, and leaves every cell and every other variable alone.
pub proof fn sharing_makes_a_new_cell(
    p: Program,
    m: Machine,
    scope: Names,
    base: usize,
    pos: Position,
    slot: u16,
)
    requires
        base + slot < scope.len(),
        m.heap.len() < usize::MAX,
    ensures
        ({
            let v = scope[base + slot].1;
            let (r, after, left) = plain_did(p, m, scope, base, pos, Op::Share(slot));
            &&& r is Ok && after.stack == m.stack && left.len() == scope.len()
            &&& v.data is Shared ==> after.heap == m.heap && left == scope
            &&& !(v.data is Shared) ==> {
                &&& left[base + slot].1.data == Data::Shared(m.heap.len() as usize)
                &&& left[base + slot].0 == scope[base + slot].0
                &&& after.heap.len() == m.heap.len() + 1
                &&& after.heap.drop_last() == m.heap
                &&& after.heap.last().value == v && !after.heap.last().locked
            }
            &&& forall|j: int|
                0 <= j < scope.len() && j != base + slot ==> #[trigger] left[j] == scope[j]
        }),
        ({
            let (r, after, left) = plain_did(p, m, scope, base, pos, Op::IsShared);
            m.stack.len() > 0 ==> r is Ok && left == scope && after.stack == m.stack.drop_last().push(
                after.stack.last(),
            ) && after.stack.last().data == Data::Bool(m.stack.last().data is Shared)
        }),
{
    reveal(plain_did);
    let (_, after, _) = plain_did(p, m, scope, base, pos, Op::Share(slot));
    if !(scope[base + slot].1.data is Shared) {
        assert(after.heap.drop_last() =~= m.heap);
    }
}

/// A declaration adds one variable behind those in scope, holding the top
/// operand, and a constant is marked so.
pub proof fn declarations_add_one_variable(
    p: Program,
    m: Machine,
    scope: Names,
    base: usize,
    pos: Position,
    name: u16,
    constant: bool,
)
    requires
        p.name_of(name as int) is Some,
        m.stack.len() > 0,
        !(m.stack.last().data is Shared),
    ensures
        ({
            let v = m.stack.last();
            let (r, after, left) = plain_did(
                p,
                m,
                scope,
                base,
                pos,
                Op::Declare { name, constant },
            );
            &&& r is Ok
            &&& after.stack == m.stack.drop_last() && after.heap == m.heap
            &&& left.len() == scope.len() + 1
            &&& left.drop_last() == scope
            &&& left.last().0 == p.name_of(name as int)->0
            &&& left.last().1 == with_mode(
                v,
                if constant {
                    AccessMode::ReadOnly
                } else {
                    v.mode
                },
            )
        }),
{
    reveal(plain_did);
    let (_, _, left) = plain_did(p, m, scope, base, pos, Op::Declare { name, constant });
    assert(left.drop_last() =~= scope);
}

/// Leaving a block takes away the variables above its depth and no others, and a
/// checkpoint makes those in scope the ones a failure leaves.
pub proof fn blocks_take_their_variables_away(
    p: Program,
    m: Machine,
    scope: Names,
    base: usize,
    pos: Position,
    depth: u16,
)
    requires
        scope.len() <= usize::MAX,
    ensures
        ({
            let (r, after, left) = plain_did(p, m, scope, base, pos, Op::UnwindTo(depth));
            &&& after == m
            &&& base + depth <= scope.len() ==> r is Ok && left.len() == base + depth && (forall|
                j: int,
            |
                0 <= j < base + depth ==> #[trigger] left[j] == scope[j])
            &&& base + depth > scope.len() ==> r is Err && left == scope
        }),
        ({
            let (r, after, left) = plain_did(p, m, scope, base, pos, Op::Checkpoint);
            r is Ok && left == scope && after.regs.unwind_floor == scope.len() && after.stack
                == m.stack
        }),
{
    reveal(plain_did);
}

// ---------------------------------------------------------------------------
// Assignment.

/// An assignment to a slot gives the variable the value it names, whether that is
/// an operand, another variable or a constant of the program, and leaves every
/// other variable alone.
pub proof fn assignments_take_the_value_they_name(
    p: Program,
    m: Machine,
    scope: Names,
    base: usize,
    pos: Position,
    slot: u16,
    name: u16,
    from: Source,
)
    requires
        base + slot < scope.len(),
        !(scope[base + slot].1.data is Shared),
        scope[base + slot].1.mode == AccessMode::ReadWrite,
        match from {
            Source::Stack => m.stack.len() > 0 && !(m.stack.last().data is Shared),
            Source::Local(i) => base + i < scope.len() && !(scope[base + i].1.data is Shared),
            Source::Const(i) => i < p.constants@.len() && !(p.constants@[i as int]@.data is Shared),
        },
    ensures
        ({
            let (r, after, left) = plain_did(
                p,
                m,
                scope,
                base,
                pos,
                Op::AssignLocal { slot, name, from, op: None },
            );
            &&& r is Ok
            &&& after.heap == m.heap
            &&& left.len() == scope.len()
            &&& left[base + slot].0 == scope[base + slot].0
            &&& match from {
                Source::Stack => left[base + slot].1 == m.stack.last() && after.stack
                    == m.stack.drop_last(),
                Source::Local(i) => left[base + slot].1 == copied(scope[base + i].1) && after.stack
                    == m.stack,
                Source::Const(i) => left[base + slot].1 == copied(p.constants@[i as int]@)
                    && after.stack == m.stack,
            }
            &&& forall|j: int|
                0 <= j < scope.len() && j != base + slot ==> #[trigger] left[j] == scope[j]
        }),
{
    reveal(plain_did);
    reveal(stored_through);
    reveal(stored_value);
}

/// Assigning with an operator computes on what the variable held and the value,
/// in that order; where that fails the variable keeps what it held.
pub proof fn operator_assignments_compute_on_the_old_value(
    p: Program,
    m: Machine,
    scope: Names,
    base: usize,
    pos: Position,
    slot: u16,
    name: u16,
    op: u16,
    kind: BinOpKind,
    x: i64,
    y: i64,
)
    requires
        base + slot < scope.len(),
        scope[base + slot].1.data == Data::Int(x),
        scope[base + slot].1.mode == AccessMode::ReadWrite,
        m.stack.len() > 0,
        m.stack.last().data == Data::Int(y),
        op < p.assign_ops@.len(),
        p.assign_ops@[op as int].kind == Some(kind),
        m.engine.fast_operators,
    ensures
        ({
            let (r, after, left) = plain_did(
                p,
                m,
                scope,
                base,
                pos,
                Op::AssignLocal { slot, name, from: Source::Stack, op: Some(op) },
            );
            &&& kind is Add && i64::MIN <= x + y <= i64::MAX ==> r is Ok && left[base + slot].1.data
                == Data::Int((x + y) as i64)
            &&& kind is Subtract && i64::MIN <= x - y <= i64::MAX ==> r is Ok
                && left[base + slot].1.data == Data::Int((x - y) as i64)
            &&& kind is Multiply && i64::MIN <= x * y <= i64::MAX ==> r is Ok
                && left[base + slot].1.data == Data::Int((x * y) as i64)
            &&& arithmetic(kind, x, y) matches Some(Ok(n)) ==> r is Ok && left[base + slot].1.data
                == Data::Int(n)
            &&& arithmetic(kind, x, y) matches Some(Err(err)) ==> r is Err && left == scope
            &&& arithmetic(kind, x, y) is Some ==> {
                &&& after.stack == m.stack.drop_last()
                &&& left.len() == scope.len()
                &&& left[base + slot].1.mode == AccessMode::ReadWrite
                &&& forall|j: int|
                    0 <= j < scope.len() && j != base + slot ==> #[trigger] left[j] == scope[j]
            }
        }),
{
    reveal(plain_did);
    reveal(stored_through);
    reveal(stored_value);
    reveal(built_assign);
    let (_, _, left) = plain_did(
        p,
        m,
        scope,
        base,
        pos,
        Op::AssignLocal { slot, name, from: Source::Stack, op: Some(op) },
    );
    if arithmetic(kind, x, y) matches Some(Err(_)) {
        assert(left =~= scope);
    }
}

/// A constant refuses to be assigned and keeps its value.
pub proof fn constants_refuse_assignment(
    p: Program,
    m: Machine,
    scope: Names,
    base: usize,
    pos: Position,
    slot: u16,
    name: u16,
    op: Option<u16>,
)
    requires
        base + slot < scope.len(),
        scope[base + slot].1.mode == AccessMode::ReadOnly,
        m.stack.len() > 0,
        op is None,
        p.name_of(name as int) is Some,
    ensures
        ({
            let (r, after, left) = plain_did(
                p,
                m,
                scope,
                base,
                pos,
                Op::AssignLocal { slot, name, from: Source::Stack, op },
            );
            &&& r matches Err(err) && err.kind == FailureKind::<Datum, Seq<char>>::ErrorAssignmentToConstant(
                p.name_of(name as int)->0,
            ) && err.pos == pos
            &&& left == scope && after.heap == m.heap
        }),
{
    reveal(plain_did);
}

// ---------------------------------------------------------------------------
// Variables by name.

/// A name means the newest variable of that name, then what the modules publish
/// under it, and is otherwise unknown.
pub proof fn names_mean_the_newest_variable(
    p: Program,
    m: Machine,
    scope: Names,
    base: usize,
    pos: Position,
    name: u16,
    flatten: bool,
    i: int,
)
    requires
        p.name_of(name as int) is Some,
        !m.engine.resolves_vars,
    ensures
        ({
            let text = p.name_of(name as int)->0;
            let absent = forall|j: int| 0 <= j < scope.len() ==> (#[trigger] scope[j]).0 != text;
            let (r, after, left) = plain_did(
                p,
                m,
                scope,
                base,
                pos,
                Op::LoadNamed { name, flatten },
            );
            &&& left == scope
            &&& 0 <= i < scope.len() && scope[i].0 == text && (forall|j: int|
                i < j < scope.len() ==> (#[trigger] scope[j]).0 != text) && !(
            scope[i].1.data is Shared) ==> r is Ok && after.stack == m.stack.push(
                copied(scope[i].1),
            )
            &&& absent ==> match m.engine.published(text) {
                Some(v) => r is Ok && after.stack == m.stack.push(v),
                None => (r matches Err(err) && err.kind == FailureKind::<Datum, Seq<char>>::ErrorVariableNotFound(text) && err.pos == pos) && after == m,
            }
        }),
{
    reveal(plain_did);
    reveal(loaded_named);
    reveal(resolved_var);
    let text = p.name_of(name as int)->0;
    if 0 <= i < scope.len() && scope[i].0 == text && (forall|j: int|
        i < j < scope.len() ==> (#[trigger] scope[j]).0 != text) {
        assert(newest_at(scope, text, i));
        crate::scope::found_is(scope, text, i);
    }
    if forall|j: int| 0 <= j < scope.len() ==> (#[trigger] scope[j]).0 != text {
        assert forall|j: int| !newest_at(scope, text, j) by {}
        assert(found(scope, text) is None);
    }
}

/// A variable in a cell reads as what its cell holds where its value is wanted, and
/// as the cell itself where that is to be shared; so does the receiver.
pub proof fn cells_are_read_through_or_shared(
    p: Program,
    m: Machine,
    scope: Names,
    base: usize,
    pos: Position,
    name: u16,
    i: int,
    cell: usize,
    this: Datum,
)
    requires
        p.name_of(name as int) is Some,
        !m.engine.resolves_vars,
        0 <= i < scope.len(),
        scope[i].0 == p.name_of(name as int)->0,
        forall|j: int| i < j < scope.len() ==> (#[trigger] scope[j]).0 != scope[i].0,
        scope[i].1.data == Data::Shared(cell),
        this.data == Data::Shared(cell),
        m.this == Some(this),
        cell < m.heap.len(),
        !m.heap[cell as int].locked,
    ensures
        ({
            let (r, after, _) = plain_did(
                p,
                m,
                scope,
                base,
                pos,
                Op::LoadNamed { name, flatten: true },
            );
            r is Ok && after.stack == m.stack.push(copied(m.heap[cell as int].value))
        }),
        ({
            let (r, after, _) = plain_did(
                p,
                m,
                scope,
                base,
                pos,
                Op::LoadNamed { name, flatten: false },
            );
            r is Ok && after.stack == m.stack.push(after.stack.last()) && after.stack.last().data
                == Data::Shared(cell)
        }),
        ({
            let (r, after, _) = plain_did(p, m, scope, base, pos, Op::LoadThis { flatten: true });
            r is Ok && after.stack == m.stack.push(copied(m.heap[cell as int].value))
        }),
        ({
            let (r, after, _) = plain_did(p, m, scope, base, pos, Op::LoadThis { flatten: false });
            r is Ok && after.stack == m.stack.push(after.stack.last()) && after.stack.last().data
                == Data::Shared(cell)
        }),
{
    reveal(plain_did);
    reveal(loaded_named);
    reveal(resolved_var);
    assert(newest_at(scope, scope[i].0, i));
    crate::scope::found_is(scope, scope[i].0, i);
}

/// An assignment to a name reaches the newest variable of that name and no other;
/// a constant refuses it, and so does a name nothing has.
pub proof fn named_assignments_reach_the_newest_variable(
    p: Program,
    m: Machine,
    scope: Names,
    base: usize,
    pos: Position,
    name: u16,
    i: int,
)
    requires
        p.name_of(name as int) is Some,
        !m.engine.resolves_vars,
        m.stack.len() > 0,
        !(m.stack.last().data is Shared),
    ensures
        ({
            let text = p.name_of(name as int)->0;
            let newest = 0 <= i < scope.len() && scope[i].0 == text && (forall|j: int|
                i < j < scope.len() ==> (#[trigger] scope[j]).0 != text) && !(
            scope[i].1.data is Shared);
            let absent = forall|j: int| 0 <= j < scope.len() ==> (#[trigger] scope[j]).0 != text;
            let (r, after, left) = plain_did(
                p,
                m,
                scope,
                base,
                pos,
                Op::AssignNamed { name, op: None },
            );
            &&& left.len() == scope.len()
            &&& newest && scope[i].1.mode == AccessMode::ReadWrite ==> r is Ok && left[i] == (
                text,
                m.stack.last(),
            ) && after.stack == m.stack.drop_last()
            &&& newest ==> forall|j: int|
                0 <= j < scope.len() && j != i ==> #[trigger] left[j] == scope[j]
            &&& newest && scope[i].1.mode == AccessMode::ReadOnly ==> (r matches Err(err)
                && err.kind == FailureKind::<Datum, Seq<char>>::ErrorAssignmentToConstant(text)
                && err.pos == pos) && left == scope
            &&& absent ==> (r matches Err(err) && err.pos == pos && if m.engine.published(
                text,
            ) is Some {
                err.kind is ErrorAssignmentToConstant
            } else {
                err.kind is ErrorVariableNotFound
            }) && left == scope
        }),
{
    reveal(plain_did);
    reveal(assigned_named);
    reveal(resolved_var);
    reveal(stored_through);
    reveal(stored_value);
    let text = p.name_of(name as int)->0;
    if 0 <= i < scope.len() && scope[i].0 == text && (forall|j: int|
        i < j < scope.len() ==> (#[trigger] scope[j]).0 != text) {
        assert(newest_at(scope, text, i));
        crate::scope::found_is(scope, text, i);
    }
    if forall|j: int| 0 <= j < scope.len() ==> (#[trigger] scope[j]).0 != text {
        assert forall|j: int| !newest_at(scope, text, j) by {}
        assert(found(scope, text) is None);
    }
}

/// Where the host resolves variables its answer goes before any variable, and
/// what it gives cannot be assigned.
pub proof fn resolvers_go_first(
    p: Program,
    m: Machine,
    scope: Names,
    base: usize,
    pos: Position,
    name: u16,
    flatten: bool,
    v: Datum,
)
    requires
        p.name_of(name as int) is Some,
        m.engine.resolves_vars,
        m.answers.len() > 0,
        m.answers.last().reply == Reply::<Datum, Fail>::Value(v),
        m.stack.len() > 0,
    ensures
        ({
            let (r, after, _) = plain_did(
                p,
                m,
                scope,
                base,
                pos,
                Op::LoadNamed { name, flatten },
            );
            r is Ok && after.stack == m.stack.push(with_mode(v, AccessMode::ReadOnly))
                && after.answers == m.answers.drop_last()
        }),
        ({
            let (r, _, _) = plain_did(p, m, scope, base, pos, Op::AssignNamed { name, op: None });
            r matches Err(err) && err.kind is ErrorAssignmentToConstant
        }),
{
    reveal(plain_did);
    reveal(loaded_named);
    reveal(assigned_named);
    reveal(resolved_var);
}

// ---------------------------------------------------------------------------
// The receiver.

/// `this` reads as the value bound to it and is an error where none is; assigning
/// it changes it and no variable.
pub proof fn receivers_are_read_and_written(
    p: Program,
    m: Machine,
    scope: Names,
    base: usize,
    pos: Position,
    flatten: bool,
)
    requires
        m.stack.len() > 0,
        !(m.stack.last().data is Shared),
    ensures
        ({
            let (r, after, left) = plain_did(p, m, scope, base, pos, Op::LoadThis { flatten });
            &&& left == scope
            &&& m.this matches Some(v) ==> r is Ok && (!(v.data is Shared) ==> after.stack
                == m.stack.push(copied(v)))
            &&& m.this is None ==> (r matches Err(err) && err.kind is ErrorUnboundThis && err.pos
                == pos) && after == m
        }),
        ({
            let (r, after, left) = plain_did(p, m, scope, base, pos, Op::RequireThis);
            left == scope && after == m && (r is Ok <==> m.this is Some)
        }),
        ({
            let (r, after, left) = plain_did(p, m, scope, base, pos, Op::AssignThis { op: None });
            &&& left == scope
            &&& after.stack == m.stack.drop_last()
            &&& m.this matches Some(v) ==> (!(v.data is Shared) && v.mode == AccessMode::ReadWrite
                ==> r is Ok && after.this == Some(m.stack.last()))
            &&& m.this matches Some(v) ==> (v.mode == AccessMode::ReadOnly ==> (r matches Err(err)
                && err.kind is ErrorAssignmentToConstant) && after.this == m.this)
            &&& m.this is None ==> (r matches Err(err) && err.kind is ErrorUnboundThis)
        }),
{
    reveal(plain_did);
    reveal(stored_through);
    reveal(stored_value);
}

} // verus!
