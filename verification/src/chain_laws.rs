//! What walking a chain comes to: which element an index names, which value a
//! key has, and what a walk changes on its way.
use vstd::prelude::*;

use crate::assign::{dispatched, stored_through, stored_value};
use crate::chain::{
    array_walked, chain_operands, chain_ran, chain_run, element_walked, got, index_walked,
    key_walked, map_walked, onward_walks, property_walked, root_walked, rooted, set_on, to_assign,
    walked, walked_into, Course, Rest,
};
use crate::dict::{find_key, find_key_is, key_at};
use crate::error::{Fail, FailureKind};
use crate::frame::Runner;
use crate::heap::flat_copy;
use crate::machine::{Machine, Registers};
use crate::position::Position;
use crate::program::{Chain, Program, Root, Step, Tail};
use crate::scope::Names;
use crate::value::{copied, AccessMode, Data, Datum};

verus! {

// ---------------------------------------------------------------------------
// Elements of arrays.

/// An index below nought names the element that the index counted from the front
/// names: `-1` is the last element and `-n` the first of `n`.
pub proof fn elements_are_counted_from_either_end(
    c: Course,
    rest: Rest,
    last: bool,
    m: Machine,
    target: Datum,
    row: Seq<Datum>,
    back: Datum,
    front: Datum,
    i: i64,
    idx_pos: Position,
)
    requires
        back.data == Data::Int(i),
        front.data == Data::Int((row.len() + i) as i64),
        -row.len() <= i < 0,
        row.len() <= i64::MAX,
    ensures
        array_walked(c, rest, last, m, target, row, back, idx_pos) == array_walked(
            c,
            rest,
            last,
            m,
            target,
            row,
            front,
            idx_pos,
        ),
{
    reveal(array_walked);
}

/// Reading an element gives a copy of the one at the index, counted from the end
/// where that is negative, and changes nothing.
pub proof fn elements_are_read_where_they_are(
    c: Course,
    rest: Rest,
    m: Machine,
    target: Datum,
    row: Seq<Datum>,
    operand: u16,
    n: i64,
    idx_pos: Position,
    bracket: Position,
)
    requires
        target.data == Data::Array(row),
        operand < c.operands.len(),
        c.operands[operand as int].data == Data::Int(n),
        c.value is None,
        -row.len() <= n < row.len(),
    ensures
        index_walked(c, rest, true, m, target, operand, idx_pos, bracket) == (
            Ok::<(Datum, bool), Fail>(
                (
                    copied(
                        row[if n >= 0 {
                            n as int
                        } else {
                            row.len() + n
                        }],
                    ),
                    false,
                ),
            ),
            target,
            m,
        ),
{
    reveal(index_walked);
    reveal(array_walked);
    reveal(element_walked);
    let j = if n >= 0 {
        n as int
    } else {
        row.len() + n
    };
    assert(row.update(j, row[j]) =~= row);
}

/// Assigning to an element puts the value there, counted from the end where the
/// index is negative, and leaves every other element alone.
pub proof fn elements_are_written_where_they_are(
    c: Course,
    rest: Rest,
    m: Machine,
    target: Datum,
    row: Seq<Datum>,
    operand: u16,
    n: i64,
    value: Datum,
    idx_pos: Position,
    bracket: Position,
)
    requires
        target.data == Data::Array(row),
        operand < c.operands.len(),
        c.operands[operand as int].data == Data::Int(n),
        c.value == Some(value),
        c.chain.tail == (Tail::Assign { op: None }),
        -row.len() <= n < row.len(),
        forall|j: int| 0 <= j < row.len() ==> !((#[trigger] row[j]).data is Shared),
    ensures
        ({
            let (r, after, m1) = index_walked(c, rest, true, m, target, operand, idx_pos, bracket);
            let at = if n >= 0 {
                n as int
            } else {
                row.len() + n
            };
            &&& r is Ok && r->Ok_0.1
            &&& m1 == m
            &&& after.tag == target.tag && after.mode == target.mode
            &&& after.data matches Data::Array(left) && left.len() == row.len() && left[at]
                == value && (forall|j: int|
                0 <= j < row.len() && j != at ==> #[trigger] left[j] == row[j])
        }),
{
    reveal(index_walked);
    reveal(array_walked);
    reveal(element_walked);
    reveal(stored_through);
    reveal(stored_value);
}

/// An index past either end of an array is refused, with the array's length and
/// the index, and so is one that is no integer; the array is left alone.
pub proof fn elements_outside_are_refused(
    c: Course,
    rest: Rest,
    last: bool,
    m: Machine,
    target: Datum,
    row: Seq<Datum>,
    operand: u16,
    idx_pos: Position,
    bracket: Position,
)
    requires
        target.data == Data::Array(row),
        operand < c.operands.len(),
        !(c.operands[operand as int].data is Shared),
        c.operands[operand as int].data matches Data::Int(n) ==> n >= row.len() || n < -row.len(),
    ensures
        ({
            let (r, after, m1) = index_walked(c, rest, last, m, target, operand, idx_pos, bracket);
            &&& r is Err
            &&& r->Err_0.pos == idx_pos
            &&& c.operands[operand as int].data matches Data::Int(n) ==> r->Err_0.kind
                == FailureKind::<Datum, Seq<char>>::ErrorArrayBounds(row.len() as usize, n)
            &&& !(c.operands[operand as int].data is Int)
                ==> r->Err_0.kind is ErrorMismatchDataType
            &&& after == target
            &&& m1 == m
        }),
{
    broadcast use crate::value::copied_of_composite;

    reveal(index_walked);
    reveal(array_walked);
}

/// A walk that goes on goes on into the element at the index, and what becomes of
/// it takes its place.
pub proof fn walks_go_on_into_the_element(
    c: Course,
    rest: Rest,
    m: Machine,
    target: Datum,
    row: Seq<Datum>,
    operand: u16,
    n: i64,
    idx_pos: Position,
    bracket: Position,
)
    requires
        target.data == Data::Array(row),
        operand < c.operands.len(),
        c.operands[operand as int].data == Data::Int(n),
        0 <= n < row.len(),
        !(row[n as int].data is Shared),
    ensures
        index_walked(c, rest, false, m, target, operand, idx_pos, bracket) == ({
            let (r, element, m1) = rest(m, row[n as int]);
            (r, Datum { data: Data::Array(row.update(n as int, element)), ..target }, m1)
        }),
{
    reveal(index_walked);
    reveal(array_walked);
    reveal(element_walked);
    reveal(walked_into);
}

// ---------------------------------------------------------------------------
// Keys of maps.

/// A key names its entry by a property as by an index: reading gives a copy of
/// the value bound to it, and changes nothing.
pub proof fn keys_are_read_either_way(
    c: Course,
    rest: Rest,
    m: Machine,
    target: Datum,
    pairs: Seq<(Seq<char>, Datum)>,
    operand: u16,
    name: u32,
    getter: u32,
    setter: u32,
    j: int,
    pos: Position,
    bracket: Position,
)
    requires
        target.data == Data::Dict(pairs),
        operand < c.operands.len(),
        name < c.p.names@.len(),
        c.operands[operand as int].data == Data::Str(c.p.names@[name as int]@),
        c.value is None,
        0 <= j < pairs.len(),
        pairs[j].0 == c.p.names@[name as int]@,
        forall|i: int| 0 <= i < j ==> (#[trigger] pairs[i]).0 != c.p.names@[name as int]@,
    ensures
        index_walked(c, rest, true, m, target, operand, pos, bracket) == (
            Ok::<(Datum, bool), Fail>((copied(pairs[j].1), false)),
            target,
            m,
        ),
        property_walked(c, rest, true, m, target, name, getter, setter, pos) == (
            Ok::<(Datum, bool), Fail>((copied(pairs[j].1), false)),
            target,
            m,
        ),
{
    reveal(index_walked);
    reveal(map_walked);
    reveal(element_walked);
    reveal(property_walked);
    reveal(key_walked);
    let key = c.p.names@[name as int]@;
    assert(key_at(pairs, key, j));
    find_key_is(pairs, key, j);
    assert(pairs.update(j, (key, pairs[j].1)) =~= pairs);
}

/// Assigning to a key binds it, by a property as by an index: an entry it has is
/// replaced where it stands, a new one comes last, and no other entry changes.
pub proof fn keys_are_written_either_way(
    c: Course,
    rest: Rest,
    m: Machine,
    target: Datum,
    pairs: Seq<(Seq<char>, Datum)>,
    operand: u16,
    name: u32,
    getter: u32,
    setter: u32,
    value: Datum,
    pos: Position,
    bracket: Position,
)
    requires
        target.data == Data::Dict(pairs),
        operand < c.operands.len(),
        name < c.p.names@.len(),
        c.operands[operand as int].data == Data::Str(c.p.names@[name as int]@),
        c.value == Some(value),
        c.chain.tail == (Tail::Assign { op: None }),
        forall|i: int| 0 <= i < pairs.len() ==> !((#[trigger] pairs[i]).1.data is Shared),
    ensures
        ({
            let key = c.p.names@[name as int]@;
            let (r, after, m1) = property_walked(
                c,
                rest,
                true,
                m,
                target,
                name,
                getter,
                setter,
                pos,
            );
            &&& index_walked(c, rest, true, m, target, operand, pos, bracket) == (r, after, m1)
            &&& r is Ok && r->Ok_0.1
            &&& m1 == m
            &&& after.data is Dict
            &&& forall|i: int|
                0 <= i < pairs.len() && pairs[i].0 != key ==> #[trigger] after.data->Dict_0[i]
                    == pairs[i]
            &&& (forall|i: int| 0 <= i < pairs.len() ==> (#[trigger] pairs[i]).0 != key)
                ==> after.data->Dict_0 == pairs.push((key, value))
            &&& forall|j: int|
                0 <= j < pairs.len() && (#[trigger] pairs[j]).0 == key && (forall|i: int|
                    0 <= i < j ==> (#[trigger] pairs[i]).0 != key) ==> after.data->Dict_0
                    == pairs.update(j, (key, value))
        }),
{
    reveal(index_walked);
    reveal(map_walked);
    reveal(element_walked);
    reveal(property_walked);
    reveal(key_walked);
    reveal(stored_through);
    reveal(stored_value);
    let key = c.p.names@[name as int]@;
    let left = crate::dict::bound(pairs, key, value);
    let walk: crate::chain::Walked = (
        Ok((crate::value::unit(), true)),
        Datum { data: Data::Dict(left), ..target },
        m,
    );
    if let Some(j) = find_key(pairs, key) {
        assert(key_at(pairs, key, j));
    }
    assert(property_walked(c, rest, true, m, target, name, getter, setter, pos) == walk);
    assert(index_walked(c, rest, true, m, target, operand, pos, bracket) == walk);
    assert forall|j: int|
        0 <= j < pairs.len() && (#[trigger] pairs[j]).0 == key && (forall|i: int|
            0 <= i < j ==> (#[trigger] pairs[i]).0 != key) implies left == pairs.update(
        j,
        (key, value),
    ) by {
        assert(key_at(pairs, key, j));
        find_key_is(pairs, key, j);
    }
}

/// A key a map lacks reads as unit, or as a failure that names it where the
/// engine says so, and the map is left without it.
pub proof fn absent_keys_read_as_unit(
    c: Course,
    rest: Rest,
    m: Machine,
    target: Datum,
    pairs: Seq<(Seq<char>, Datum)>,
    name: u32,
    getter: u32,
    setter: u32,
    pos: Position,
)
    requires
        target.data == Data::Dict(pairs),
        name < c.p.names@.len(),
        c.value is None,
        forall|i: int| 0 <= i < pairs.len() ==> (#[trigger] pairs[i]).0 != c.p.names@[name as int]@,
    ensures
        ({
            let (r, after, m1) = property_walked(
                c,
                rest,
                true,
                m,
                target,
                name,
                getter,
                setter,
                pos,
            );
            &&& after == target
            &&& m1 == m
            &&& m.engine.fail_on_invalid_map_property ==> r is Err && r->Err_0.kind
                == FailureKind::<Datum, Seq<char>>::ErrorPropertyNotFound(
                c.p.names@[name as int]@,
            ) && r->Err_0.pos == pos
            &&& !m.engine.fail_on_invalid_map_property ==> r is Ok && r->Ok_0.0.data is Unit
                && !r->Ok_0.1
        }),
{
    reveal(property_walked);
    reveal(key_walked);
    let key = c.p.names@[name as int]@;
    if let Some(i) = find_key(pairs, key) {
        assert(key_at(pairs, key, i));
    }
}

// ---------------------------------------------------------------------------
// Host values.

/// A property of a host value is asked for by its getter and set by its setter,
/// with the value itself first.
pub proof fn properties_are_the_hosts(
    p: Program,
    m: Machine,
    target: Datum,
    key: Seq<char>,
    getter: u32,
    setter: u32,
    value: Datum,
    silent: bool,
    pos: Position,
)
    requires
        getter < p.names@.len(),
        setter < p.names@.len(),
        m.answers.len() == 0,
        m.request is None,
    ensures
        got(p, m, target, key, getter, pos).2.request matches Some(q) && q.name
            == p.names@[getter as int]@ && q.operands.len() == 1 && q.operands[0] == target,
        set_on(p, m, target, key, setter, value, silent, pos).2.request matches Some(q) && q.name
            == p.names@[setter as int]@ && q.operands.len() == 2 && q.operands[0] == target
            && q.operands[1] == value,
{
    reveal(got);
    reveal(set_on);
    reveal(dispatched);
}

/// What a getter answers is the property, and the value is as the host left it.
pub proof fn getters_answer_the_property(
    p: Program,
    m: Machine,
    target: Datum,
    key: Seq<char>,
    getter: u32,
    pos: Position,
    v: Datum,
)
    requires
        getter < p.names@.len(),
        m.answers.len() > 0,
        m.answers.last().reply == crate::host::Reply::<Datum, Fail>::Value(v),
        m.answers.last().operands.len() == 1,
    ensures
        got(p, m, target, key, getter, pos).0 == Ok::<Datum, Fail>(v),
        got(p, m, target, key, getter, pos).1 == m.answers.last().operands[0],
{
    reveal(got);
    reveal(dispatched);
}

// ---------------------------------------------------------------------------
// Whole chains.

/// A step that coalesces stops the walk at unit, and gives unit.
pub proof fn coalescing_steps_stop_at_unit(c: Course, i: int, m: Machine, target: Datum)
    requires
        0 <= i < c.chain.steps@.len(),
        match c.chain.steps@[i] {
            Step::Index { skip, .. } => skip,
            Step::Property { skip, .. } => skip,
            Step::Method { skip, .. } => skip,
        },
        target.data is Unit,
    ensures
        walked(c, i, m, target).0 is Ok,
        walked(c, i, m, target).0->Ok_0.0.data is Unit,
        !walked(c, i, m, target).0->Ok_0.1,
        walked(c, i, m, target).1 == target,
        walked(c, i, m, target).2 == m,
{
    reveal(walked);
}

/// A chain of two indices into a local reads the inner element of the outer one:
/// the operand pushed first is the outer index and the second the inner one, each
/// counted from the end where it is negative.
pub proof fn nested_elements_are_read_in_order(
    k: Runner,
    p: Program,
    m: Machine,
    index: u16,
    chain: Chain,
    scope: Names,
    base: usize,
    slot: u16,
    rows: Seq<Datum>,
    row: Seq<Datum>,
    n: i64,
    o: i64,
    pos: Position,
)
    requires
        chain.root matches Root::Local { slot: s, .. } && s == slot,
        chain.steps@.len() == 2,
        chain.steps@[0] matches Step::Index { operand, skip, .. } && operand == 0 && !skip,
        chain.steps@[1] matches Step::Index { operand, skip, .. } && operand == 1 && !skip,
        chain.operands == 2,
        chain.tail is Read,
        base + slot < scope.len() <= usize::MAX,
        scope[base + slot].1.data == Data::Array(rows),
        m.stack.len() >= 2,
        m.stack[m.stack.len() - 2].data == Data::Int(n),
        m.stack[m.stack.len() - 1].data == Data::Int(o),
        -rows.len() <= n < rows.len(),
        rows[if n >= 0 {
            n as int
        } else {
            rows.len() + n
        }].data == Data::Array(row),
        -row.len() <= o < row.len(),
    ensures
        ({
            let (r, after, left) = chain_ran(k, p, m, index, chain, scope, base, pos);
            &&& r == Ok::<Datum, Fail>(
                copied(
                    row[if o >= 0 {
                        o as int
                    } else {
                        row.len() + o
                    }],
                ),
            )
            &&& after.stack == m.stack.subrange(0, m.stack.len() - 2)
            &&& after.heap == m.heap && after.this == m.this
            &&& left == scope
        }),
{
    reveal(chain_ran);
    reveal(chain_run);
    reveal(rooted);
    reveal(to_assign);
    reveal(root_walked);
    reveal(index_walked);
    reveal(array_walked);
    reveal(element_walked);
    reveal(walked_into);
    let at = base + slot;
    let m1 = m.with_regs(Registers { chain_step: 0, ..m.regs });
    let operands_at = m.stack.len() - 2;
    let operands = chain_operands(m1, chain, operands_at);
    assert(operands.len() == 2);
    assert(operands[0] == copied(m.stack[operands_at]));
    assert(operands[1] == copied(m.stack[operands_at + 1]));
    let c = Course { k, p, chain, operands, value: None, pos };
    let target = scope[at].1;
    assert(flat_copy(m1.heap, copied(operands[0])).data == Data::Int(n));
    assert(flat_copy(m1.heap, copied(operands[1])).data == Data::Int(o));
    let i = if n >= 0 {
        n as int
    } else {
        rows.len() + n
    };
    let j = if o >= 0 {
        o as int
    } else {
        row.len() + o
    };
    onward_walks(c, 1);
    let m2 = m1.with_regs(Registers { chain_step: 1, ..m1.regs });
    assert(row.update(j, row[j]) =~= row);
    assert(walked(c, 1, m1, rows[i]) == (
        Ok::<(Datum, bool), Fail>((copied(row[j]), false)),
        rows[i],
        m2,
    )) by {
        reveal(walked);
    }
    assert(rows.update(i, rows[i]) =~= rows);
    assert(walked(c, 0, m1, target) == (
        Ok::<(Datum, bool), Fail>((copied(row[j]), false)),
        target,
        m2,
    )) by {
        reveal(walked);
    }
    let (_, after, left) = chain_ran(k, p, m, index, chain, scope, base, pos);
    assert(left =~= scope);
    assert(after.stack =~= m.stack.subrange(0, operands_at));
}

/// A chain of one index into a local array, written: the value on top goes to the
/// element the index under it names, both go off the stack, and nothing else in
/// the scope changes.
pub proof fn elements_of_locals_are_written(
    k: Runner,
    p: Program,
    m: Machine,
    index: u16,
    chain: Chain,
    scope: Names,
    base: usize,
    slot: u16,
    row: Seq<Datum>,
    n: i64,
    pos: Position,
)
    requires
        chain.root matches Root::Local { slot: s, .. } && s == slot,
        chain.steps@.len() == 1,
        chain.steps@[0] matches Step::Index { operand, skip, .. } && operand == 0 && !skip,
        chain.operands == 1,
        chain.tail == (Tail::Assign { op: None }),
        base + slot < scope.len() <= usize::MAX,
        scope[base + slot].1.data == Data::Array(row),
        scope[base + slot].1.mode == AccessMode::ReadWrite,
        m.stack.len() >= 2,
        m.stack[m.stack.len() - 2].data == Data::Int(n),
        !(m.stack.last().data is Shared),
        -row.len() <= n < row.len(),
        forall|j: int| 0 <= j < row.len() ==> !((#[trigger] row[j]).data is Shared),
    ensures
        ({
            let (r, after, left) = chain_ran(k, p, m, index, chain, scope, base, pos);
            let at = if n >= 0 {
                n as int
            } else {
                row.len() + n
            };
            &&& r is Ok
            &&& after.stack == m.stack.subrange(0, m.stack.len() - 2)
            &&& after.heap == m.heap && after.this == m.this
            &&& left.len() == scope.len()
            &&& forall|i: int|
                0 <= i < scope.len() && i != base + slot ==> #[trigger] left[i] == scope[i]
            &&& left[base + slot].0 == scope[base + slot].0
            &&& left[base + slot].1.data matches Data::Array(now) && now.len() == row.len()
                && now[at] == copied(m.stack.last()) && (forall|j: int|
                0 <= j < row.len() && j != at ==> #[trigger] now[j] == row[j])
        }),
{
    reveal(chain_ran);
    reveal(chain_run);
    reveal(rooted);
    reveal(to_assign);
    reveal(root_walked);
    reveal(walked);
    let at = base + slot;
    let m1 = m.with_regs(Registers { chain_step: 0, ..m.regs });
    let operands_at = m.stack.len() - 2;
    let operands = chain_operands(m1, chain, operands_at);
    assert(operands.len() == 1);
    assert(operands[0] == copied(m.stack[operands_at]));
    let value = copied(m.stack.last());
    let c = Course { k, p, chain, operands, value: Some(value), pos };
    let step = chain.steps@[0];
    elements_are_written_where_they_are(
        c,
        crate::chain::onward(c, 1),
        m1,
        scope[at].1,
        row,
        0,
        n,
        value,
        step->Index_pos,
        step->bracket,
    );
    let (_, after, left) = chain_ran(k, p, m, index, chain, scope, base, pos);
    assert(after.stack =~= m.stack.subrange(0, operands_at));
}

// ---------------------------------------------------------------------------
// Where a chain failed.

/// The places of a chain's steps follow one another: an index takes two, and any
/// other step one, after one for a root that is looked up.
pub proof fn step_places_follow_one_another(chain: Chain, s: int)
    requires
        0 <= s,
        s + 1 < chain.steps@.len(),
        chain.places() <= u32::MAX,
        chain.slot_of(s) is Some,
    ensures
        chain.slot_of(0) == Some(
            if chain.root is Named || chain.root is This {
                1u32
            } else {
                0
            },
        ),
        chain.slot_of(s + 1) == Some(
            (chain.slot_of(s)->0 + (if chain.steps@[s] is Index {
                2int
            } else {
                1
            })) as u32,
        ),
{
    let steps = chain.steps@;
    assert(steps.subrange(0, 0) =~= Seq::empty());
    assert(steps.subrange(0, s + 1).drop_last() =~= steps.subrange(0, s));
    places_only_grow(steps, s + 1);
    places_only_grow(steps, s);
    assert(steps.subrange(0, steps.len() as int) =~= steps);
}

proof fn places_only_grow(steps: Seq<Step>, n: int)
    requires
        0 <= n <= steps.len(),
    ensures
        crate::program::places_of(steps.subrange(0, n)) <= crate::program::places_of(steps),
    decreases steps.len() - n,
{
    if n < steps.len() {
        places_only_grow(steps, n + 1);
        assert(steps.subrange(0, n + 1).drop_last() =~= steps.subrange(0, n));
    } else {
        assert(steps.subrange(0, n) =~= steps);
    }
}

/// The places of a program's chains follow one another.
pub proof fn chain_places_follow_one_another(p: Program, i: int)
    requires
        0 <= i < p.chains@.len(),
        crate::program::chain_places(p.chains@) <= u32::MAX,
    ensures
        crate::program::slot_base(p, 0) == 0,
        crate::program::slot_base(p, i + 1) == crate::program::slot_base(p, i)
            + p.chains@[i].places(),
{
    let chains = p.chains@;
    assert(chains.subrange(0, 0) =~= Seq::empty());
    assert(chains.subrange(0, i + 1).drop_last() =~= chains.subrange(0, i));
    chains_only_grow(chains, i + 1);
}

proof fn chains_only_grow(chains: Seq<Chain>, n: int)
    requires
        0 <= n <= chains.len(),
    ensures
        crate::program::chain_places(chains.subrange(0, n)) <= crate::program::chain_places(chains),
    decreases chains.len() - n,
{
    if n < chains.len() {
        chains_only_grow(chains, n + 1);
        assert(chains.subrange(0, n + 1).drop_last() =~= chains.subrange(0, n));
    } else {
        assert(chains.subrange(0, n) =~= chains);
    }
}

} // verus!
