//! What a write into the middle of a value comes to: each value on the way is put
//! back where it was taken from, and the host is told what it has to set.
use vstd::prelude::*;

use crate::arith::{arithmetic, BinOpKind};
use crate::assign::{built_assign, dispatched, stored_through, stored_value};
use crate::chain::{
    array_walked, element_walked, got, handed_walked, hosted_walked, index_walked, indexer_assigned,
    indexer_set, key_walked, map_walked, method_called, method_walked, propagated,
    property_assigned, property_walked, root_returned, root_walked, rooted, set_on,
    shared_key_walked, temporary_walked, to_assign, walked, walked_into, Course, Place, Rest,
};
use crate::dict::{find_key, find_key_is};
use crate::error::{Fail, FailureKind};
use crate::heap::CellView;
use crate::host::Reply;
use crate::machine::Machine;
use crate::position::Position;
use crate::program::{Chain, Program, Root, Tail};
use crate::scope::Names;
use crate::value::{copied, unit, AccessMode, Data, Datum};

verus! {

/// Whether the rest of a walk turns one value into another, gives a result and
/// leaves the machine alone.
pub open spec fn turns(rest: Rest, from: Datum, to: Datum, out: Datum, changed: bool) -> bool {
    forall|m: Machine| #[trigger]
        rest(m, from) == (Ok::<(Datum, bool), Fail>((out, changed)), to, m)
}

// ---------------------------------------------------------------------------
// Elements.

/// Assigning to an element with an operator computes on what the element held and
/// the value, in that order, and leaves every other element alone.
pub proof fn elements_are_computed_on(
    c: Course,
    rest: Rest,
    m: Machine,
    target: Datum,
    row: Seq<Datum>,
    operand: u16,
    n: i64,
    idx_pos: Position,
    bracket: Position,
    op: u16,
    kind: BinOpKind,
    value: Datum,
    x: i64,
    y: i64,
    sum: i64,
)
    requires
        target.data == Data::Array(row),
        operand < c.operands.len(),
        c.operands[operand as int].data == Data::Int(n),
        0 <= n < row.len(),
        row[n as int].data == Data::Int(x),
        c.value == Some(value),
        value.data == Data::Int(y),
        c.chain.tail == (Tail::Assign { op: Some(op) }),
        op < c.p.assign_ops@.len(),
        c.p.assign_ops@[op as int].kind == Some(kind),
        m.engine.fast_operators,
        arithmetic(kind, x, y) == Some(Ok::<i64, Fail>(sum)),
    ensures
        ({
            let (r, after, m1) = index_walked(c, rest, true, m, target, operand, idx_pos, bracket);
            &&& r is Ok && m1 == m
            &&& after.data matches Data::Array(left) && left.len() == row.len()
                && left[n as int].data == Data::Int(sum) && left[n as int].mode
                == row[n as int].mode && (forall|j: int|
                0 <= j < row.len() && j != n ==> #[trigger] left[j] == row[j])
        }),
{
    reveal(index_walked);
    reveal(array_walked);
    reveal(element_walked);
    reveal(stored_through);
    reveal(stored_value);
    reveal(built_assign);
}

/// An element in a cell is walked into in its cell: the cell holds what the walk
/// made of it, and the element is still the cell.
pub proof fn shared_elements_are_changed_in_their_cell(
    rest: Rest,
    m: Machine,
    element: Datum,
    cell: usize,
    pos: Position,
    to: Datum,
    out: Datum,
    changed: bool,
)
    requires
        element.data == Data::Shared(cell),
        cell < m.heap.len(),
        !m.heap[cell as int].locked,
        turns(rest, m.heap[cell as int].value, to, out, changed),
    ensures
        ({
            let (r, after, m1) = walked_into(rest, m, element, pos);
            &&& r == Ok::<(Datum, bool), Fail>((out, changed))
            &&& after == element
            &&& m1.heap.len() == m.heap.len()
            &&& m1.heap[cell as int].value == to && !m1.heap[cell as int].locked
            &&& forall|j: int|
                0 <= j < m.heap.len() && j != cell ==> #[trigger] m1.heap[j] == m.heap[j]
        }),
{
    reveal(walked_into);
    let inner = m.with_heap(crate::heap::lent(m.heap, cell));
    assert(rest(inner, m.heap[cell as int].value) == (
        Ok::<(Datum, bool), Fail>((out, changed)),
        to,
        inner,
    ));
}

/// A cell that a writer already has is not walked into.
pub proof fn cells_have_one_writer(
    rest: Rest,
    m: Machine,
    element: Datum,
    cell: usize,
    pos: Position,
)
    requires
        element.data == Data::Shared(cell),
        cell < m.heap.len(),
        m.heap[cell as int].locked,
    ensures
        ({
            let (r, after, m1) = walked_into(rest, m, element, pos);
            (r matches Err(err) && err.kind is ErrorDataRace && err.pos == pos) && after == element
                && m1 == m
        }),
{
    reveal(walked_into);
}

// ---------------------------------------------------------------------------
// Keys of maps.

/// A walk through a key goes on into the value under it, by index or by property,
/// and what it makes of that value is under the key afterwards; every other entry
/// stays.
pub proof fn walks_go_on_into_the_key(
    c: Course,
    rest: Rest,
    m: Machine,
    target: Datum,
    pairs: Seq<(Seq<char>, Datum)>,
    operand: u16,
    name: u32,
    getter: u32,
    setter: u32,
    j: int,
    pos: Position,
    bracket: Position,
    to: Datum,
    out: Datum,
    changed: bool,
)
    requires
        target.data == Data::Dict(pairs),
        operand < c.operands.len(),
        c.p.name_of(name as int) is Some,
        c.operands[operand as int].data == Data::Str(c.p.name_of(name as int)->0),
        0 <= j < pairs.len(),
        pairs[j].0 == c.p.name_of(name as int)->0,
        forall|i: int| 0 <= i < j ==> (#[trigger] pairs[i]).0 != c.p.name_of(name as int)->0,
        !(pairs[j].1.data is Shared),
        turns(rest, pairs[j].1, to, out, changed),
    ensures
        ({
            let (r, after, m1) = index_walked(c, rest, false, m, target, operand, pos, bracket);
            &&& r == Ok::<(Datum, bool), Fail>((out, changed)) && m1 == m
            &&& after.data == Data::Dict(pairs.update(j, (pairs[j].0, to)))
        }),
        ({
            let (r, after, m1) = property_walked(
                c,
                rest,
                false,
                m,
                target,
                name,
                getter,
                setter,
                pos,
            );
            &&& r == Ok::<(Datum, bool), Fail>((out, changed)) && m1 == m
            &&& after.data == Data::Dict(pairs.update(j, (pairs[j].0, to)))
        }),
{
    reveal(index_walked);
    reveal(map_walked);
    reveal(element_walked);
    reveal(walked_into);
    reveal(property_walked);
    reveal(key_walked);
    find_key_is(pairs, pairs[j].0, j);
    assert(rest(m, pairs[j].1) == (Ok::<(Datum, bool), Fail>((out, changed)), to, m));
}

/// A key that is not there reads as unit by index too, or is refused where the
/// engine says so, and a walk that goes on from it goes on from unit; the map
/// stays as it is.
pub proof fn absent_keys_are_walked_as_unit(
    c: Course,
    rest: Rest,
    m: Machine,
    target: Datum,
    pairs: Seq<(Seq<char>, Datum)>,
    operand: u16,
    name: u32,
    getter: u32,
    setter: u32,
    pos: Position,
    bracket: Position,
    out: Datum,
    to: Datum,
)
    requires
        target.data == Data::Dict(pairs),
        operand < c.operands.len(),
        c.p.name_of(name as int) is Some,
        c.operands[operand as int].data == Data::Str(c.p.name_of(name as int)->0),
        forall|i: int| 0 <= i < pairs.len() ==> (#[trigger] pairs[i]).0 != c.p.name_of(
            name as int,
        )->0,
        c.value is None,
        turns(rest, unit(), to, out, false),
    ensures
        ({
            let (r, after, m1) = index_walked(c, rest, true, m, target, operand, pos, bracket);
            &&& after == target && m1 == m
            &&& m.engine.fail_on_invalid_map_property ==> (r matches Err(err)
                && err.kind is ErrorPropertyNotFound && err.pos == pos)
            &&& !m.engine.fail_on_invalid_map_property ==> (r matches Ok((v, changed))
                && v.data is Unit && !changed)
        }),
        !m.engine.fail_on_invalid_map_property ==> index_walked(
            c,
            rest,
            false,
            m,
            target,
            operand,
            pos,
            bracket,
        ) == (Ok::<(Datum, bool), Fail>((out, false)), target, m),
        !m.engine.fail_on_invalid_map_property ==> property_walked(
            c,
            rest,
            false,
            m,
            target,
            name,
            getter,
            setter,
            pos,
        ) == (Ok::<(Datum, bool), Fail>((out, false)), target, m),
{
    reveal(index_walked);
    reveal(map_walked);
    reveal(temporary_walked);
    reveal(property_walked);
    reveal(key_walked);
    let key = c.p.name_of(name as int)->0;
    if let Some(i) = find_key(pairs, key) {
        assert(crate::dict::key_at(pairs, key, i));
    }
    assert(rest(m, unit()) == (Ok::<(Datum, bool), Fail>((out, false)), to, m));
}

/// A key of a map in a cell is read there, and written there: the cell holds the
/// map with the value under the key, and the value that was walked is still the
/// cell.
pub proof fn keys_in_cells_are_read_and_written_there(
    c: Course,
    rest: Rest,
    m: Machine,
    target: Datum,
    cell: usize,
    pairs: Seq<(Seq<char>, Datum)>,
    name: u32,
    getter: u32,
    setter: u32,
    j: int,
    pos: Position,
    value: Datum,
)
    requires
        target.data == Data::Shared(cell),
        cell < m.heap.len(),
        !m.heap[cell as int].locked,
        m.heap[cell as int].value.data == Data::Dict(pairs),
        c.p.name_of(name as int) is Some,
        0 <= j < pairs.len(),
        pairs[j].0 == c.p.name_of(name as int)->0,
        forall|i: int| 0 <= i < j ==> (#[trigger] pairs[i]).0 != c.p.name_of(name as int)->0,
    ensures
        ({
            let (r, after, m1) = property_walked(
                c,
                rest,
                true,
                m,
                target,
                name,
                getter,
                setter,
                pos,
            );
            &&& after == target
            &&& c.value is None ==> r == Ok::<(Datum, bool), Fail>((copied(pairs[j].1), false))
                && m1.heap == m.heap
            &&& c.value == Some(value) && c.chain.tail == (Tail::Assign { op: None }) ==> r is Ok
                && m1.heap.len() == m.heap.len() && !m1.heap[cell as int].locked
                && m1.heap[cell as int].value.data == Data::Dict(
                pairs.update(j, (pairs[j].0, value)),
            ) && (forall|i: int|
                0 <= i < m.heap.len() && i != cell ==> #[trigger] m1.heap[i] == m.heap[i])
        }),
{
    reveal(property_walked);
    reveal(shared_key_walked);
    reveal(key_walked);
    reveal(stored_value);
    find_key_is(pairs, pairs[j].0, j);
    let (_, _, m1) = property_walked(c, rest, true, m, target, name, getter, setter, pos);
    if c.value is None {
        assert(m1.heap =~= m.heap);
    }
}

// ---------------------------------------------------------------------------
// Properties of host values.

/// What the rest of a walk changed of a property is set on the value it was got
/// from; what it left alone is not.
pub proof fn changed_properties_are_set_back(
    c: Course,
    rest: Rest,
    m: Machine,
    target: Datum,
    name: u32,
    getter: u32,
    setter: u32,
    pos: Position,
    v: Datum,
    to: Datum,
    out: Datum,
    changed: bool,
)
    requires
        c.p.name_of(name as int) is Some,
        c.p.name_of(getter as int) is Some,
        c.p.name_of(setter as int) is Some,
        !(target.data is Dict) && !(target.data is Shared),
        m.request is None,
        m.answers.len() == 1,
        m.answers[0].reply == Reply::<Datum, Fail>::Value(v),
        m.answers[0].operands.len() == 1,
        turns(rest, v, to, out, changed),
    ensures
        ({
            let (r, after, m1) = property_walked(
                c,
                rest,
                false,
                m,
                target,
                name,
                getter,
                setter,
                pos,
            );
            &&& !changed ==> r == Ok::<(Datum, bool), Fail>((out, false)) && after
                == m.answers[0].operands[0] && m1.request is None
            &&& changed ==> (m1.request matches Some(q) && Some(q.name) == c.p.name_of(
                setter as int,
            ) && q.operands == seq![m.answers[0].operands[0], to])
        }),
{
    reveal(property_walked);
    reveal(got);
    reveal(set_on);
    reveal(dispatched);
    let (_, _, m1) = got(c.p, m, target, c.p.name_of(name as int)->0, getter, pos);
    assert(rest(m1, v) == (Ok::<(Datum, bool), Fail>((out, changed)), to, m1));
    assert(m1.answers.len() == 0);
}

/// Assigning to a property sets the value, and with an operator what it computes
/// of what the getter gave and the value.
pub proof fn properties_are_set_to_the_value(
    c: Course,
    rest: Rest,
    m: Machine,
    target: Datum,
    name: u32,
    getter: u32,
    setter: u32,
    pos: Position,
    value: Datum,
    v: Datum,
    op: u16,
    kind: BinOpKind,
    x: i64,
    y: i64,
    sum: i64,
)
    requires
        c.p.name_of(name as int) is Some,
        c.p.name_of(getter as int) is Some,
        c.p.name_of(setter as int) is Some,
        !(target.data is Dict) && !(target.data is Shared),
        m.request is None,
        c.value == Some(value),
    ensures
        ({
            let (_, _, m1) = property_walked(
                c,
                rest,
                true,
                m,
                target,
                name,
                getter,
                setter,
                pos,
            );
            &&& c.chain.tail == (Tail::Assign { op: None }) && m.answers.len() == 0 ==> (
            m1.request matches Some(q) && Some(q.name) == c.p.name_of(setter as int) && q.operands
                == seq![target, value])
            &&& c.chain.tail == (Tail::Assign { op: Some(op) }) && m.answers.len() == 0 ==> (
            m1.request matches Some(q) && Some(q.name) == c.p.name_of(getter as int) && q.operands
                == seq![target])
            &&& c.chain.tail == (Tail::Assign { op: Some(op) }) && op < c.p.assign_ops@.len()
                && c.p.assign_ops@[op as int].kind == Some(kind)
                && m.engine.fast_operators && m.answers.len() == 1 && m.answers[0].reply == Reply::<
                Datum,
                Fail,
            >::Value(v) && m.answers[0].operands.len() == 1 && v.data == Data::Int(x) && value.data
                == Data::Int(y) && arithmetic(kind, x, y) == Some(Ok::<i64, Fail>(sum)) ==> (m1.request matches Some(q)
                && Some(q.name) == c.p.name_of(setter as int) && q.operands.len() == 2
                && q.operands[0] == m.answers[0].operands[0] && q.operands[1].data == Data::Int(sum))
        }),
{
    reveal(property_walked);
    reveal(property_assigned);
    reveal(got);
    reveal(set_on);
    reveal(dispatched);
    reveal(stored_value);
    reveal(built_assign);
}

/// A value without the property is asked for it by index, by the property's name;
/// where it has no indexer either, the property is what is missing.
pub proof fn properties_fall_back_to_indices(
    p: Program,
    m: Machine,
    target: Datum,
    key: Seq<char>,
    getter: u32,
    pos: Position,
    missing: Fail,
)
    requires
        p.name_of(getter as int) is Some,
        m.answers.len() > 0,
        m.answers.last().reply == Reply::<Datum, Fail>::Raised(missing),
        m.answers.last().operands.len() == 1,
    ensures
        ({
            let (r, after, m1) = got(p, m, target, key, getter, pos);
            &&& !(missing.kind is ErrorDotExpr) ==> r == Err::<Datum, Fail>(missing)
            &&& missing.kind is ErrorDotExpr && m.answers.len() == 1 && m.request is None ==> (
            m1.request matches Some(q) && q.ask is IndexerGet && q.operands.len() == 2
                && q.operands[0] == m.answers.last().operands[0] && q.operands[1].data == Data::Str(
                key,
            ))
            &&& missing.kind is ErrorDotExpr && m.answers.len() > 1 ==> {
                let second = m.answers[m.answers.len() - 2];
                match second.reply {
                    Reply::Value(v) => r == Ok::<Datum, Fail>(v),
                    Reply::Raised(err) => if err.kind is ErrorIndexingType {
                        r == Err::<Datum, Fail>(missing)
                    } else {
                        r == Err::<Datum, Fail>(err.placed(pos))
                    },
                    _ => r is Ok,
                }
            }
        }),
{
    reveal(got);
    reveal(dispatched);
    assert(m.answers.len() > 1 ==> m.answers.drop_last().last() == m.answers[m.answers.len() - 2]);
}

/// So is a property that cannot be set, with the value behind its name; a value
/// that has neither keeps silent where it is only set back.
pub proof fn setters_fall_back_to_indices(
    p: Program,
    m: Machine,
    target: Datum,
    key: Seq<char>,
    setter: u32,
    value: Datum,
    silent: bool,
    pos: Position,
    missing: Fail,
)
    requires
        p.name_of(setter as int) is Some,
        m.answers.len() > 0,
        m.answers.last().reply == Reply::<Datum, Fail>::Raised(missing),
        m.answers.last().operands.len() == 2,
    ensures
        ({
            let (r, after, m1) = set_on(p, m, target, key, setter, value, silent, pos);
            &&& !(missing.kind is ErrorDotExpr) ==> r == Err::<(), Fail>(missing)
            &&& missing.kind is ErrorDotExpr && m.answers.len() == 1 && m.request is None ==> (
            m1.request matches Some(q) && q.ask is IndexerSet && q.operands.len() == 3
                && q.operands[0] == m.answers.last().operands[0] && q.operands[1].data == Data::Str(
                key,
            ) && q.operands[2] == m.answers.last().operands[1])
            &&& missing.kind is ErrorDotExpr && m.answers.len() > 1 ==> {
                let second = m.answers[m.answers.len() - 2];
                match second.reply {
                    Reply::Raised(err) => if !(err.kind is ErrorIndexingType) {
                        r == Err::<(), Fail>(err.placed(pos))
                    } else if silent {
                        r is Ok
                    } else {
                        r == Err::<(), Fail>(missing)
                    },
                    _ => r is Ok,
                }
            }
        }),
{
    reveal(set_on);
    reveal(dispatched);
    assert(m.answers.len() > 1 ==> m.answers.drop_last().last() == m.answers[m.answers.len() - 2]);
}

// ---------------------------------------------------------------------------
// Elements of host values.

/// An element of a host value is asked for by the value and the index, and what
/// the host answers is the element.
pub proof fn elements_are_the_hosts(
    c: Course,
    rest: Rest,
    m: Machine,
    target: Datum,
    operand: u16,
    idx_pos: Position,
    bracket: Position,
    v: Datum,
)
    requires
        operand < c.operands.len(),
        !(target.data is Array || target.data is Dict),
        c.value is None,
        m.request is None,
    ensures
        ({
            let (r, after, m1) = index_walked(c, rest, true, m, target, operand, idx_pos, bracket);
            &&& m.answers.len() == 0 ==> (m1.request matches Some(q) && q.ask is Element
                && q.operands == seq![target, copied(c.operands[operand as int])] && q.pos
                == idx_pos)
            &&& m.answers.len() > 0 && m.answers.last().reply == Reply::<Datum, Fail>::Value(v)
                && m.answers.last().operands.len() == 2 ==> r == Ok::<(Datum, bool), Fail>(
                (v, false),
            ) && after == m.answers.last().operands[0]
        }),
{
    reveal(index_walked);
    reveal(hosted_walked);
    reveal(handed_walked);
}

/// What the rest of a walk changed of an element the host handed out is set on
/// the value it came from; of a value that hands out copies the host is always
/// told.
pub proof fn changed_elements_are_set_back(
    c: Course,
    rest: Rest,
    m: Machine,
    target: Datum,
    index: Datum,
    v: Datum,
    bracket: Position,
    to: Datum,
    out: Datum,
    changed: bool,
)
    requires
        !(v.data is Shared),
        m.request is None,
        m.answers.len() == 0,
        turns(rest, v, to, out, changed),
    ensures
        ({
            let (r, after, m1) = handed_walked(c, rest, false, m, target, index, v, bracket);
            let copies = target.data is Str || target.data is Blob || target.data is Int;
            &&& !copies && !changed ==> r == Ok::<(Datum, bool), Fail>((out, false)) && after
                == target && m1.request is None
            &&& !copies && changed ==> (m1.request matches Some(q) && q.ask is IndexerSet
                && q.operands == seq![target, index, copied(to)])
            &&& copies ==> (m1.request matches Some(q) && q.ask is Propagate && q.operands == seq![
                target,
                index,
                to,
            ])
        }),
{
    reveal(handed_walked);
    reveal(element_walked);
    reveal(walked_into);
    reveal(propagated);
    reveal(indexer_set);
    assert(rest(m, v) == (Ok::<(Datum, bool), Fail>((out, changed)), to, m));
}

/// Once the host has set what was changed, the value is what the host left of it.
pub proof fn set_values_are_what_the_host_left(
    c: Course,
    rest: Rest,
    m: Machine,
    target: Datum,
    index: Datum,
    v: Datum,
    bracket: Position,
    to: Datum,
    out: Datum,
)
    requires
        !(v.data is Shared),
        !(target.data is Str || target.data is Blob || target.data is Int),
        m.answers.len() > 0,
        m.answers.last().reply == Reply::<Datum, Fail>::Nothing,
        m.answers.last().operands.len() == 3,
        turns(rest, v, to, out, true),
    ensures
        ({
            let (r, after, m1) = handed_walked(c, rest, false, m, target, index, v, bracket);
            r == Ok::<(Datum, bool), Fail>((out, true)) && after == m.answers.last().operands[0]
                && m1.answers == m.answers.drop_last()
        }),
        ({
            let (r, after, m1) = temporary_walked(rest, m, target, index, v, bracket);
            r == Ok::<(Datum, bool), Fail>((out, true)) && after == m.answers.last().operands[0]
                && m1.answers == m.answers.drop_last()
        }),
        ({
            let (r, after, m1) = propagated(m, target, index, v, (out, true), bracket);
            r == Ok::<(Datum, bool), Fail>((out, true)) && after == m.answers.last().operands[0]
                && m1.answers == m.answers.drop_last()
        }),
        ({
            let (r, after, m1) = indexer_set(m, target, index, v, bracket);
            r is Ok && after == m.answers.last().operands[0] && m1.answers == m.answers.drop_last()
        }),
{
    reveal(handed_walked);
    reveal(element_walked);
    reveal(walked_into);
    reveal(propagated);
    reveal(indexer_set);
    reveal(temporary_walked);
    assert(rest(m, v) == (Ok::<(Datum, bool), Fail>((out, true)), to, m));
}

/// Once a property has been set back, the value is what the host left of it.
pub proof fn values_are_as_their_setter_left_them(
    c: Course,
    rest: Rest,
    m: Machine,
    target: Datum,
    name: u32,
    getter: u32,
    setter: u32,
    pos: Position,
    v: Datum,
    to: Datum,
    out: Datum,
)
    requires
        c.p.name_of(name as int) is Some,
        c.p.name_of(getter as int) is Some,
        c.p.name_of(setter as int) is Some,
        !(target.data is Dict) && !(target.data is Shared),
        m.answers.len() == 2,
        m.answers[1].reply == Reply::<Datum, Fail>::Value(v),
        m.answers[1].operands.len() == 1,
        m.answers[0].reply == Reply::<Datum, Fail>::Nothing,
        m.answers[0].operands.len() == 2,
        turns(rest, v, to, out, true),
    ensures
        ({
            let (r, after, m1) = property_walked(
                c,
                rest,
                false,
                m,
                target,
                name,
                getter,
                setter,
                pos,
            );
            r == Ok::<(Datum, bool), Fail>((out, true)) && after == m.answers[0].operands[0]
                && m1.answers.len() == 0
        }),
{
    reveal(property_walked);
    reveal(got);
    reveal(set_on);
    reveal(dispatched);
    let (_, _, m1) = got(c.p, m, target, c.p.name_of(name as int)->0, getter, pos);
    assert(rest(m1, v) == (Ok::<(Datum, bool), Fail>((out, true)), to, m1));
    assert(m1.answers.last() == m.answers[0]);
}

/// Assigning through a host's indexer sets the value, and with an operator first
/// asks for what is there.
pub proof fn indexers_are_set_to_the_value(
    m: Machine,
    p: Program,
    chain: Chain,
    target: Datum,
    index: Datum,
    value: Datum,
    pos: Position,
    op: u16,
)
    requires
        m.request is None,
        m.answers.len() == 0,
    ensures
        ({
            let (_, _, m1) = indexer_assigned(m, p, chain, target, index, value, pos);
            &&& chain.tail == (Tail::Assign { op: None }) ==> (m1.request matches Some(q)
                && q.ask is IndexerSet && q.operands == seq![target, index, value])
            &&& chain.tail == (Tail::Assign { op: Some(op) }) ==> (m1.request matches Some(q)
                && q.ask is IndexerGet && q.operands == seq![target, copied(index)])
        }),
{
    reveal(indexer_assigned);
    reveal(indexer_set);
}

// ---------------------------------------------------------------------------
// Methods.

/// A method the program does not have is the host's: it gets the value and then
/// the arguments in order, and what it leaves of the value is the value.
pub proof fn host_methods_get_the_value_first(
    c: Course,
    m: Machine,
    target: Datum,
    index: u32,
    name: Seq<char>,
    args: Seq<Datum>,
    pos: Position,
    v: Datum,
)
    requires
        !(target.data is Shared),
        c.p.method_of(
            index,
            args.len() as int,
            m.engine.mapped(crate::value::name_of_type(copied(target).data)),
        ) is None,
        m.request is None,
    ensures
        ({
            let (r, after, m1) = method_called(c, m, target, index, name, args, pos);
            &&& m.answers.len() == 0 ==> (m1.request matches Some(q) && q.name == name && q.operands
                == seq![target] + args && q.pos == pos)
            &&& m.answers.len() > 0 && m.answers.last().reply == Reply::<Datum, Fail>::Value(v)
                && m.answers.last().operands.len() == args.len() + 1 ==> r == Ok::<Datum, Fail>(v)
                && after == m.answers.last().operands[0]
        }),
{
    reveal(method_called);
    reveal(dispatched);
}

/// The arguments of a method are the operands from its first on, in order, and
/// the walk goes on from what it gave.
pub proof fn method_steps_take_their_own_operands(
    c: Course,
    rest: Rest,
    m: Machine,
    target: Datum,
    name: u32,
    argc: u8,
    operand: u16,
    pos: Position,
)
    requires
        c.p.name_of(name as int) is Some,
        operand + argc <= c.operands.len(),
    ensures
        ({
            let args = Seq::new(argc as nat, |i: int| copied(c.operands[operand + i]));
            let called = method_called(
                c,
                m,
                target,
                name,
                c.p.name_of(name as int)->0,
                args,
                pos,
            );
            let (r, after, _) = method_walked(c, rest, true, m, target, name, argc, operand, pos);
            let (onward, kept, _) = method_walked(
                c,
                rest,
                false,
                m,
                target,
                name,
                argc,
                operand,
                pos,
            );
            &&& called.0 matches Ok(v) ==> {
                &&& c.value is None ==> r == Ok::<(Datum, bool), Fail>((v, true)) && after
                    == called.1
                &&& rest(called.2, v).0 matches Ok(out) ==> onward == Ok::<(Datum, bool), Fail>(
                    (out.0, true),
                ) && kept == called.1
            }
            &&& called.0 matches Err(err) ==> r == Err::<(Datum, bool), Fail>(err)
        }),
{
    reveal(method_walked);
    let args = Seq::new(argc as nat, |i: int| copied(c.operands[operand + i]));
    assert(crate::value::all_copied(c.operands.subrange(operand as int, operand + argc)) =~= args);
}

// ---------------------------------------------------------------------------
// Roots.

/// A chain that writes refuses a root that is marked, under the root's name, and
/// one that is no variable; otherwise it writes the top operand.
pub proof fn marked_roots_are_not_written(
    p: Program,
    m: Machine,
    chain: Chain,
    place: Place,
    root: Datum,
    pos: Position,
)
    requires
        m.stack.len() > 0,
        !(root.data is Shared),
        !(m.stack.last().data is Shared),
    ensures
        chain.tail is Read ==> to_assign(p, m, chain, place, root, pos) == Ok::<
            Option<Datum>,
            Fail,
        >(None),
        chain.tail is Assign && place is Temporary ==> to_assign(
            p,
            m,
            chain,
            place,
            root,
            pos,
        ) is Err,
        chain.tail is Assign && !(place is Temporary) && root.mode == AccessMode::ReadOnly
            ==> to_assign(p, m, chain, place, root, pos) is Err,
        chain.tail is Assign && !(place is Temporary) && root.mode == AccessMode::ReadWrite
            ==> to_assign(p, m, chain, place, root, pos) == Ok::<Option<Datum>, Fail>(
            Some(copied(m.stack.last())),
        ),
        chain.root matches Root::Local { name, .. } ==> (chain.tail is Assign && !(
        place is Temporary) && root.mode == AccessMode::ReadOnly && p.name_of(name as int) is Some
            ==> (to_assign(p, m, chain, place, root, pos) matches Err(err) && err.kind
            == FailureKind::<Datum, Seq<char>>::ErrorAssignmentToConstant(
            p.name_of(name as int)->0,
        ) && err.pos == pos)),
{
    reveal(to_assign);
}

/// What a walk makes of its root goes back where the root was: into the variable,
/// or to be the receiver.
pub proof fn roots_go_back_where_they_were(
    m: Machine,
    scope: Names,
    i: usize,
    root: Datum,
    place: Place,
)
    requires
        i < scope.len(),
    ensures
        ({
            let (after, left) = root_returned(m, scope, Place::Entry(i), root);
            &&& after == m && left.len() == scope.len()
            &&& left[i as int] == (scope[i as int].0, root)
            &&& forall|j: int| 0 <= j < scope.len() && j != i ==> #[trigger] left[j] == scope[j]
        }),
        ({
            let (after, left) = root_returned(m, scope, Place::This, root);
            left == scope && after.this == Some(root) && after.stack == m.stack && after.heap
                == m.heap
        }),
        place is Temporary || place is Detached ==> root_returned(m, scope, place, root) == (
            m,
            scope,
        ),
{
}

/// The root of a chain is the variable of its slot, the receiver, or the operand
/// under its value.
pub proof fn roots_are_found(
    p: Program,
    m: Machine,
    chain: Chain,
    scope: Names,
    base: usize,
    operands_at: int,
    pos: Position,
)
    requires
        0 <= operands_at,
        operands_at + chain.operands < m.stack.len(),
        scope.len() <= usize::MAX,
    ensures
        chain.root matches Root::Local { slot, .. } ==> (base + slot < scope.len() ==> rooted(
            p,
            m,
            chain,
            scope,
            base,
            operands_at,
            pos,
        ) == (
            Ok::<(Place, Datum, Position), Fail>(
                (Place::Entry((base + slot) as usize), scope[base + slot].1, pos),
            ),
            m,
            scope,
        )),
        chain.root matches Root::This { pos: this_pos } ==> (rooted(
            p,
            m,
            chain,
            scope,
            base,
            operands_at,
            pos,
        ).0 == match m.this {
            Some(this) => Ok::<(Place, Datum, Position), Fail>((Place::This, this, this_pos)),
            None => Err(Fail { kind: FailureKind::ErrorUnboundThis, pos: this_pos }),
        }),
        chain.root is Temporary && !(m.stack[operands_at + chain.operands].data is Shared)
            ==> rooted(p, m, chain, scope, base, operands_at, pos).0 == Ok::<
            (Place, Datum, Position),
            Fail,
        >((Place::Temporary, m.stack[operands_at + chain.operands], pos)),
{
    reveal(rooted);
}

/// A root in a cell is walked in its cell, and the variable still is the cell.
pub proof fn shared_roots_are_changed_in_their_cell(c: Course, m: Machine, root: Datum, cell: usize)
    requires
        root.data == Data::Shared(cell),
        cell < m.heap.len(),
        !m.heap[cell as int].locked,
    ensures
        ({
            let inner = Machine {
                heap: m.heap.update(
                    cell as int,
                    CellView { value: crate::value::unit(), locked: true },
                ),
                ..m
            };
            let (r, v, m1) = walked(c, 0, inner, m.heap[cell as int].value);
            let (out, after, m2) = root_walked(c, m, root);
            &&& out == r && after == root
            &&& cell < m1.heap.len() ==> m2.heap.len() == m1.heap.len() && m2.heap[cell as int].value
                == v && !m2.heap[cell as int].locked && (forall|j: int|
                0 <= j < m1.heap.len() && j != cell ==> #[trigger] m2.heap[j] == m1.heap[j])
        }),
{
    reveal(root_walked);
}

} // verus!
