//! Walking `a.b[i].c`, reading it or assigning to it.
//!
//! Every level of the walk works on the value one level up holds, so a write at
//! the bottom lands in the container it belongs to. Where there is no place to
//! write into (a getter's value, a custom indexer's) the level above puts the
//! changed value back.
use vstd::prelude::*;

use crate::assign::{dispatched, first_of, pair, single, stored_through, stored_value, take_first};
use crate::call::{
    bind_this, bound_this, called_with_this, gave, levels_left, unbind_this, unbound_this,
};
use crate::dict::{bound, find_key};
use crate::error::{
    dispatch_failure, fail, malformed, malformed_fail, malformed_number, missing, outcome, raised,
    result_view, unnumbered, Error, Fail, FailureKind, VmResult,
};
use crate::frame::{below, Runner};
use crate::heap::{flat_copy, flattened, lent, lockable, read_only, settled};
use crate::host::{reply_value, value_of, Ask, Reply};
use crate::machine::{asked, opt_view, question, Machine, Registers, Vm};
use crate::ops::{
    as_text, assign_op, mismatch, mismatched, named, pool_assign_op, pool_name, text_of,
};
use crate::position::Position;
use crate::program::{
    chain_slot_base, clamped, slot_base, slot_sum, AssignOp, Chain, Program, Root, Step, Tail,
};
use crate::scope::{found, stored, taken_and_put_back, Names, Scope};
use crate::site::Gave;
use crate::value::{
    all_copied, all_views, clone_value, copied, datum, name_of_type, type_text, unit, Data, Datum,
    Dynamic, Union,
};

verus! {

/// What a walk gives: the value and whether anything below may have written,
/// the value walked into, and the run.
pub type Walked = (Result<(Datum, bool), Fail>, Datum, Machine);

/// What the rest of a walk gives, from the run and the value it starts at.
pub type Rest = spec_fn(Machine, Datum) -> Walked;

/// What stays the same along a walk.
#[verifier::ext_equal]
pub struct Course {
    pub k: Runner,
    pub p: Program,
    pub chain: Chain,
    pub operands: Seq<Datum>,
    pub value: Option<Datum>,
    pub pos: Position,
}

/// The operator assignment a chain ends with.
pub open spec fn tail_op(p: Program, chain: Chain) -> Result<Option<AssignOp>, Fail> {
    match chain.tail {
        Tail::Assign { op } => assign_op(p, op),
        Tail::Read => Ok(None),
    }
}

/// Whether a chain ends with an operator assignment.
pub open spec fn tail_operates(chain: Chain) -> bool {
    chain.tail matches Tail::Assign { op } && op is Some
}

/// What a chain's root is called, for the failures that name it.
pub open spec fn root_name(p: Program, chain: Chain) -> Option<Seq<char>> {
    match chain.root {
        Root::Local { name, .. } => p.name_of(name as int),
        Root::Named { name, .. } => p.name_of(name as int),
        Root::This { .. } => Some(""@),
        Root::Temporary => None,
    }
}

// ---------------------------------------------------------------------------
// Indexers of the host.

/// A value written through an indexer; a type that has none is passed over.
#[verifier::opaque]
pub open spec fn indexer_set(
    m: Machine,
    target: Datum,
    index: Datum,
    value: Datum,
    pos: Position,
) -> (Result<(), Fail>, Datum, Machine) {
    match asked(m, question(Ask::IndexerSet, ""@, seq![target, index, value], pos)) {
        (Err(err), m1) => (Err(err), unit(), m1),
        (Ok(a), m1) => (
            match a.reply {
                Reply::Raised(err) => if err.kind is ErrorIndexingType {
                    Ok(())
                } else {
                    Err(err.placed(pos))
                },
                _ => Ok(()),
            },
            a.operands[0],
            m1,
        ),
    }
}

/// A value assigned through an indexer: an operator reads the present value
/// first, and a getter that fails is passed over.
#[verifier::opaque]
pub open spec fn indexer_assigned(
    m: Machine,
    p: Program,
    chain: Chain,
    target: Datum,
    index: Datum,
    value: Datum,
    pos: Position,
) -> (Result<(), Fail>, Datum, Machine) {
    if !tail_operates(chain) {
        indexer_set(m, target, index, value, pos)
    } else {
        match asked(m, question(Ask::IndexerGet, ""@, seq![target, copied(index)], pos)) {
            (Err(err), m1) => (Err(err), unit(), m1),
            (Ok(a), m1) => match reply_value(a.reply) {
                Err(_) => indexer_set(m1, a.operands[0], index, value, pos),
                Ok(current) => match tail_op(p, chain) {
                    Err(err) => (Err(err), a.operands[0], m1),
                    Ok(op) => match stored_value(m1, p, op, current, value, pos) {
                        (Err(err), _, m2) => (Err(err), a.operands[0], m2),
                        (Ok(_), changed, m2) => indexer_set(
                            m2,
                            a.operands[0],
                            index,
                            changed,
                            pos,
                        ),
                    },
                },
            },
        }
    }
}

// ---------------------------------------------------------------------------
// Elements.

/// What the rest of a walk gives on an element: walked in its cell where it is
/// shared.
#[verifier::opaque]
pub open spec fn walked_into(rest: Rest, m: Machine, element: Datum, pos: Position) -> Walked {
    match element.data {
        Data::Shared(cell) => if !lockable(m.heap, cell) {
            (Err(fail(FailureKind::ErrorDataRace(""@), pos)), element, m)
        } else {
            let (r, v, m1) = rest(m.with_heap(lent(m.heap, cell)), m.heap[cell as int].value);
            (r, element, m1.with_heap(settled(m1.heap, cell, v)))
        },
        _ => rest(m, element),
    }
}

/// What a step does to an element it has a place for: reads it, writes it, or
/// walks on into it.
#[verifier::opaque]
pub open spec fn element_walked(
    c: Course,
    rest: Rest,
    last: bool,
    m: Machine,
    element: Datum,
) -> Walked {
    if last {
        match c.value {
            None => (Ok((copied(element), false)), element, m),
            Some(value) => match tail_op(c.p, c.chain) {
                Err(err) => (Err(err), element, m),
                Ok(op) => match stored_through(m, c.p, op, element, value, ""@, c.pos) {
                    (Ok(_), after, m1) => (Ok((unit(), true)), after, m1),
                    (Err(err), after, m1) => (Err(err), after, m1),
                },
            },
        }
    } else {
        walked_into(rest, m, element, c.pos)
    }
}

/// Which element an index names: counted from the end where it is negative.
pub open spec fn element_at(len: nat, index: i64) -> Option<int> {
    if 0 <= index < len {
        Some(index as int)
    } else if index < 0 && -index <= len {
        Some(len + index)
    } else {
        None
    }
}

/// An element of an array.
#[verifier::opaque]
pub open spec fn array_walked(
    c: Course,
    rest: Rest,
    last: bool,
    m: Machine,
    target: Datum,
    row: Seq<Datum>,
    index: Datum,
    idx_pos: Position,
) -> Walked {
    match flat_copy(m.heap, index).data {
        Data::Int(n) => match element_at(row.len(), n) {
            None => (
                Err(fail(FailureKind::ErrorArrayBounds(row.len() as usize, n), idx_pos)),
                target,
                m,
            ),
            Some(i) => {
                let (r, after, m1) = element_walked(c, rest, last, m, row[i]);
                (r, Datum { data: Data::Array(row.update(i, after)), ..target }, m1)
            },
        },
        other => (
            Err(mismatched(m.engine, "i64"@, name_of_type(other), idx_pos)),
            target,
            m,
        ),
    }
}

/// What a key a map lacks reads as.
pub open spec fn absent_key(m: Machine, key: Seq<char>, pos: Position) -> Result<Datum, Fail> {
    if m.engine.fail_on_invalid_map_property {
        Err(fail(FailureKind::ErrorPropertyNotFound(key), pos))
    } else {
        Ok(unit())
    }
}

/// The rest of a walk on a value nothing owns: where something below may have
/// written, the changed value goes back through the indexer.
#[verifier::opaque]
pub open spec fn temporary_walked(
    rest: Rest,
    m: Machine,
    target: Datum,
    index: Datum,
    value: Datum,
    bracket: Position,
) -> Walked {
    match rest(m, value) {
        (Err(err), _, m1) => (Err(err), target, m1),
        (Ok((out, changed)), after, m1) => if changed {
            match indexer_set(m1, target, index, copied(after), bracket) {
                (Ok(_), left, m2) => (Ok((out, true)), left, m2),
                (Err(err), left, m2) => (Err(err), left, m2),
            }
        } else {
            (Ok((out, false)), target, m1)
        },
    }
}

/// An element of a map. Only an assignment makes a key.
#[verifier::opaque]
pub open spec fn map_walked(
    c: Course,
    rest: Rest,
    last: bool,
    m: Machine,
    target: Datum,
    pairs: Seq<(Seq<char>, Datum)>,
    index: Datum,
    idx_pos: Position,
    bracket: Position,
) -> Walked {
    match as_text(m.heap, index) {
        Err(actual) => (Err(mismatched(m.engine, "string"@, actual, idx_pos)), target, m),
        Ok(key) => {
            let adding = last && c.value is Some;
            match find_key(pairs, key) {
                Some(i) => {
                    let (r, after, m1) = element_walked(c, rest, last, m, pairs[i].1);
                    (
                        r,
                        Datum { data: Data::Dict(pairs.update(i, (key, after))), ..target },
                        m1,
                    )
                },
                None => if adding {
                    let (r, after, m1) = element_walked(c, rest, last, m, unit());
                    (r, Datum { data: Data::Dict(pairs.push((key, after))), ..target }, m1)
                } else {
                    match absent_key(m, key, idx_pos) {
                        Err(err) => (Err(err), target, m),
                        Ok(v) => if last {
                            (Ok((v, false)), target, m)
                        } else {
                            temporary_walked(rest, m, target, copied(index), v, bracket)
                        },
                    }
                },
            }
        },
    }
}

/// Values whose elements are copies that go back into them: the characters of
/// a string, the bytes of a blob, the bits of an integer.
pub open spec fn copies_out(target: Data) -> bool {
    target is Str || target is Blob || target is Int
}

/// An element's copy put back into the value it came out of.
#[verifier::opaque]
pub open spec fn propagated(
    m: Machine,
    target: Datum,
    index: Datum,
    element: Datum,
    out: (Datum, bool),
    pos: Position,
) -> Walked {
    match asked(m, question(Ask::Propagate, ""@, seq![target, index, element], pos)) {
        (Err(err), m1) => (Err(err), unit(), m1),
        (Ok(a), m1) => match a.reply {
            Reply::Raised(err) => (Err(err), a.operands[0], m1),
            _ => (Ok(out), a.operands[0], m1),
        },
    }
}

/// An element the host has handed over: read, written or walked into, and put
/// back the way its holder takes it back.
#[verifier::opaque]
pub open spec fn handed_walked(
    c: Course,
    rest: Rest,
    last: bool,
    m: Machine,
    target: Datum,
    index: Datum,
    value: Datum,
    bracket: Position,
) -> Walked {
    if last && c.value is None {
        (Ok((value, false)), target, m)
    } else {
        match element_walked(c, rest, last, m, value) {
            (Err(err), _, m1) => (Err(err), target, m1),
            (Ok(out), after, m1) => if copies_out(target.data) {
                propagated(m1, target, index, after, out, c.pos)
            } else if out.1 {
                match indexer_set(m1, target, index, copied(after), bracket) {
                    (Ok(_), left, m2) => (Ok(out), left, m2),
                    (Err(err), left, m2) => (Err(err), left, m2),
                }
            } else {
                (Ok(out), target, m1)
            },
        }
    }
}

/// An element of a value that is neither an array nor a map.
#[verifier::opaque]
pub open spec fn hosted_walked(
    c: Course,
    rest: Rest,
    last: bool,
    m: Machine,
    target: Datum,
    index: Datum,
    idx_pos: Position,
    bracket: Position,
) -> Walked {
    let assigning = last && c.value is Some;
    match asked(
        m,
        question(
            Ask::Element { add: assigning, indexers: !assigning, bracket },
            ""@,
            seq![target, index],
            idx_pos,
        ),
    ) {
        (Err(err), m1) => (Err(err), unit(), m1),
        (Ok(a), m1) => match reply_value(a.reply) {
            Err(err) => if assigning && err.kind is ErrorIndexingType {
                match indexer_assigned(
                    m1,
                    c.p,
                    c.chain,
                    a.operands[0],
                    copied(index),
                    c.value->0,
                    bracket,
                ) {
                    (Ok(_), left, m2) => (Ok((unit(), true)), left, m2),
                    (Err(err), left, m2) => (Err(err), left, m2),
                }
            } else {
                (Err(err), a.operands[0], m1)
            },
            Ok(v) => handed_walked(
                c,
                rest,
                last,
                m1,
                a.operands[0],
                copied(index),
                v,
                bracket,
            ),
        },
    }
}

/// One `[i]` step.
#[verifier::opaque]
pub open spec fn index_walked(
    c: Course,
    rest: Rest,
    last: bool,
    m: Machine,
    target: Datum,
    operand: u16,
    idx_pos: Position,
    bracket: Position,
) -> Walked {
    if operand >= c.operands.len() {
        (Err(malformed_fail("chain index operand missing"@)), target, m)
    } else {
        let index = copied(c.operands[operand as int]);
        match target.data {
            Data::Array(row) => array_walked(c, rest, last, m, target, row, index, idx_pos),
            Data::Dict(pairs) => map_walked(
                c,
                rest,
                last,
                m,
                target,
                pairs,
                index,
                idx_pos,
                bracket,
            ),
            _ => hosted_walked(c, rest, last, m, target, index, idx_pos, bracket),
        }
    }
}

// ---------------------------------------------------------------------------
// Properties.

/// A getter called on a host value, or its string indexer where it has none.
#[verifier::opaque]
pub open spec fn got(
    p: Program,
    m: Machine,
    target: Datum,
    key: Seq<char>,
    getter: u32,
    pos: Position,
) -> (Result<Datum, Fail>, Datum, Machine) {
    match named(p, getter as int) {
        Err(err) => (Err(err), target, m),
        Ok(name) => {
            let (r, left, m1) = dispatched(m, name, seq![target], true, true, None, pos);
            match r {
                Ok(v) => (Ok(v), first_of(left), m1),
                Err(err) => if err.kind is ErrorDotExpr {
                    match asked(
                        m1,
                        question(
                            Ask::IndexerGet,
                            ""@,
                            seq![first_of(left), datum(Data::Str(key))],
                            pos,
                        ),
                    ) {
                        (Err(err2), m2) => (Err(err2), unit(), m2),
                        (Ok(a), m2) => (
                            match reply_value(a.reply) {
                                Ok(v) => Ok(v),
                                Err(err2) => if err2.kind is ErrorIndexingType {
                                    Err(err)
                                } else {
                                    Err(err2.placed(pos))
                                },
                            },
                            a.operands[0],
                            m2,
                        ),
                    }
                } else {
                    (Err(err), first_of(left), m1)
                },
            }
        },
    }
}

/// A setter called on a host value, or its string indexer where it has none.
#[verifier::opaque]
pub open spec fn set_on(
    p: Program,
    m: Machine,
    target: Datum,
    key: Seq<char>,
    setter: u32,
    value: Datum,
    silent: bool,
    pos: Position,
) -> (Result<(), Fail>, Datum, Machine) {
    match named(p, setter as int) {
        Err(err) => (Err(err), target, m),
        Ok(name) => {
            let (r, left, m1) = dispatched(m, name, seq![target, value], true, true, None, pos);
            match r {
                Ok(_) => (Ok(()), first_of(left), m1),
                Err(err) => if err.kind is ErrorDotExpr && left.len() == 2 {
                    match asked(
                        m1,
                        question(
                            Ask::IndexerSet,
                            ""@,
                            seq![left[0], datum(Data::Str(key)), left[1]],
                            pos,
                        ),
                    ) {
                        (Err(err2), m2) => (Err(err2), unit(), m2),
                        (Ok(a), m2) => (
                            match a.reply {
                                Reply::Raised(err2) => if err2.kind is ErrorIndexingType {
                                    if silent {
                                        Ok(())
                                    } else {
                                        Err(err)
                                    }
                                } else {
                                    Err(err2.placed(pos))
                                },
                                _ => Ok(()),
                            },
                            a.operands[0],
                            m2,
                        ),
                    }
                } else {
                    (Err(err), first_of(left), m1)
                },
            }
        },
    }
}

/// A property of a map: a key.
#[verifier::opaque]
pub open spec fn key_walked(
    c: Course,
    rest: Rest,
    last: bool,
    m: Machine,
    target: Datum,
    pairs: Seq<(Seq<char>, Datum)>,
    key: Seq<char>,
    step_pos: Position,
) -> Walked {
    match (last, c.value) {
        (true, Some(value)) => {
            let (at, held) = match find_key(pairs, key) {
                Some(i) => (i, pairs[i].1),
                None => (pairs.len() as int, unit()),
            };
            let (r, after, m1): (Result<(), Fail>, Datum, Machine) = match tail_op(c.p, c.chain) {
                Err(err) => (Err(err), held, m),
                Ok(op) => stored_value(m, c.p, op, held, value, c.pos),
            };
            (
                match r {
                    Ok(_) => Ok((unit(), true)),
                    Err(err) => Err(err),
                },
                Datum { data: Data::Dict(bound(pairs, key, after)), ..target },
                m1,
            )
        },
        (true, None) => match find_key(pairs, key) {
            Some(i) => (Ok((copied(pairs[i].1), false)), target, m),
            None => match absent_key(m, key, step_pos) {
                Ok(v) => (Ok((v, false)), target, m),
                Err(err) => (Err(err), target, m),
            },
        },
        (false, _) => match find_key(pairs, key) {
            Some(i) => {
                let (r, after, m1) = rest(m, pairs[i].1);
                (r, Datum { data: Data::Dict(pairs.update(i, (key, after))), ..target }, m1)
            },
            None => match absent_key(m, key, step_pos) {
                Ok(v) => {
                    let (r, _, m1) = rest(m, v);
                    (r, target, m1)
                },
                Err(err) => (Err(err), target, m),
            },
        },
    }
}

/// A property of a host value assigned to.
#[verifier::opaque]
pub open spec fn property_assigned(
    c: Course,
    m: Machine,
    target: Datum,
    key: Seq<char>,
    getter: u32,
    setter: u32,
    value: Datum,
    step_pos: Position,
) -> Walked {
    let (computed, held, m1): (Result<Datum, Fail>, Datum, Machine) = if tail_operates(c.chain) {
        match got(c.p, m, target, key, getter, step_pos) {
            (Err(err), left, m1) => (Err(err), left, m1),
            (Ok(current), left, m1) => match tail_op(c.p, c.chain) {
                Err(err) => (Err(err), left, m1),
                Ok(op) => match stored_value(m1, c.p, op, current, value, c.pos) {
                    (Ok(_), changed, m2) => (Ok(changed), left, m2),
                    (Err(err), _, m2) => (Err(err), left, m2),
                },
            },
        }
    } else {
        (Ok(value), target, m)
    };
    match computed {
        Err(err) => (Err(err), held, m1),
        Ok(v) => match set_on(c.p, m1, held, key, setter, v, false, step_pos) {
            (Ok(_), left, m2) => (Ok((unit(), true)), left, m2),
            (Err(err), left, m2) => (Err(err), left, m2),
        },
    }
}

/// The map a cell holds, unless a writer has it.
pub open spec fn shared_map(m: Machine, cell: usize) -> Option<Seq<(Seq<char>, Datum)>> {
    if lockable(m.heap, cell) {
        match m.heap[cell as int].value.data {
            Data::Dict(pairs) => Some(pairs),
            _ => None,
        }
    } else {
        None
    }
}

/// A key of a map in a cell, which is lent out meanwhile. A walk that goes on
/// into a key the map does not have goes on without it.
#[verifier::opaque]
pub open spec fn shared_key_walked(
    c: Course,
    rest: Rest,
    last: bool,
    m: Machine,
    target: Datum,
    cell: usize,
    pairs: Seq<(Seq<char>, Datum)>,
    key: Seq<char>,
    step_pos: Position,
) -> Walked {
    if !last && find_key(pairs, key) is None {
        match absent_key(m, key, step_pos) {
            Ok(v) => {
                let (r, _, m1) = rest(m, v);
                (r, target, m1)
            },
            Err(err) => (Err(err), target, m),
        }
    } else {
        let (r, v, m1) = key_walked(
            c,
            rest,
            last,
            m.with_heap(lent(m.heap, cell)),
            m.heap[cell as int].value,
            pairs,
            key,
            step_pos,
        );
        (r, target, m1.with_heap(settled(m1.heap, cell, v)))
    }
}

/// One `.name` step: a key on a map, in its cell where it is shared, and a
/// getter call on anything else.
#[verifier::opaque]
pub open spec fn property_walked(
    c: Course,
    rest: Rest,
    last: bool,
    m: Machine,
    target: Datum,
    name: u32,
    getter: u32,
    setter: u32,
    step_pos: Position,
) -> Walked {
    match named(c.p, name as int) {
        Err(err) => (Err(err), target, m),
        Ok(key) => match target.data {
            Data::Dict(pairs) => key_walked(c, rest, last, m, target, pairs, key, step_pos),
            Data::Shared(cell) if shared_map(m, cell) is Some => shared_key_walked(
                c,
                rest,
                last,
                m,
                target,
                cell,
                shared_map(m, cell)->0,
                key,
                step_pos,
            ),
            _ => match (last, c.value) {
                (true, Some(value)) => property_assigned(
                    c,
                    m,
                    target,
                    key,
                    getter,
                    setter,
                    value,
                    step_pos,
                ),
                (true, None) => match got(c.p, m, target, key, getter, step_pos) {
                    (Ok(v), left, m1) => (Ok((v, false)), left, m1),
                    (Err(err), left, m1) => (Err(err), left, m1),
                },
                (false, _) => match got(c.p, m, target, key, getter, step_pos) {
                    (Err(err), left, m1) => (Err(err), left, m1),
                    (Ok(v), left, m1) => match rest(m1, v) {
                        (Err(err), _, m2) => (Err(err), left, m2),
                        (Ok((out, changed)), after, m2) => if changed {
                            match set_on(c.p, m2, left, key, setter, after, true, step_pos) {
                                (Ok(_), left2, m3) => (Ok((out, true)), left2, m3),
                                (Err(err), left2, m3) => (Err(err), left2, m3),
                            }
                        } else {
                            (Ok((out, false)), left, m2)
                        },
                    },
                },
            },
        },
    }
}

// ---------------------------------------------------------------------------
// Methods.

/// A method called on a value: a compiled function with the value as its
/// receiver, found by the type of the value in its cell, or the host's.
#[verifier::opaque]
pub open spec fn method_called(
    c: Course,
    m: Machine,
    target: Datum,
    index: u32,
    name: Seq<char>,
    args: Seq<Datum>,
    step_pos: Position,
) -> (Result<Datum, Fail>, Datum, Machine) {
    let typed = m.engine.mapped(name_of_type(flat_copy(m.heap, target).data));
    match c.p.method_of(index, args.len() as int, typed) {
        Some(f) => {
            let at = m.stack.len() as int;
            let ran = called_with_this(
                c.k,
                c.p,
                m.push_all(args),
                Names::empty(),
                c.p.functions@[f],
                name,
                at,
                true,
                step_pos,
                Some(bound_this(m.heap, target)),
            );
            (ran.result, unbound_this(m.heap, target, ran.this), ran.m.truncate(at))
        },
        None => {
            let (r, left, m1) = dispatched(
                m,
                name,
                seq![target] + args,
                true,
                true,
                None,
                step_pos,
            );
            (r, first_of(left), m1)
        },
    }
}

/// One `.name(..)` step. What comes after it works on the method's value,
/// which nothing owns.
#[verifier::opaque]
pub open spec fn method_walked(
    c: Course,
    rest: Rest,
    last: bool,
    m: Machine,
    target: Datum,
    name: u32,
    argc: u8,
    operand: u16,
    step_pos: Position,
) -> Walked {
    match named(c.p, name as int) {
        Err(err) => (Err(err), target, m),
        Ok(text) => if operand + argc > c.operands.len() {
            (Err(malformed_fail("chain method arguments missing"@)), target, m)
        } else {
            let args = all_copied(c.operands.subrange(operand as int, operand + argc));
            match method_called(c, m, target, name, text, args, step_pos) {
                (Err(err), left, m1) => (Err(err), left, m1),
                (Ok(out), left, m1) => if last {
                    if c.value is Some {
                        (Err(malformed_fail("assignment to a method call"@)), left, m1)
                    } else {
                        (Ok((out, true)), left, m1)
                    }
                } else {
                    match rest(m1, out) {
                        (Ok((v, _)), _, m2) => (Ok((v, true)), left, m2),
                        (Err(err), _, m2) => (Err(err), left, m2),
                    }
                },
            }
        },
    }
}

// ---------------------------------------------------------------------------
// The walk.

/// One step of a walk, with what the rest of it gives.
pub open spec fn step_walked(
    c: Course,
    rest: Rest,
    step: Step,
    last: bool,
    m: Machine,
    target: Datum,
) -> Walked {
    match step {
        Step::Index { operand, pos, bracket, .. } => index_walked(
            c,
            rest,
            last,
            m,
            target,
            operand,
            pos,
            bracket,
        ),
        Step::Property { name, getter, setter, pos, .. } => property_walked(
            c,
            rest,
            last,
            m,
            target,
            name,
            getter,
            setter,
            pos,
        ),
        Step::Method { name, argc, operand, pos, .. } => method_walked(
            c,
            rest,
            last,
            m,
            target,
            name,
            argc,
            operand,
            pos,
        ),
    }
}

/// The rest of a walk from step `i`.
#[verifier::opaque]
pub open spec fn onward(c: Course, i: int) -> Rest
    decreases c.chain.steps@.len() - i, 1nat,
{
    |m: Machine, target: Datum| walked(c, i, m, target)
}

/// A walk from step `i`: a step that skips unit stops the chain there.
#[verifier::opaque]
pub open spec fn walked(c: Course, i: int, m: Machine, target: Datum) -> Walked
    decreases c.chain.steps@.len() - i, 0nat,
{
    if i < 0 || i >= c.chain.steps@.len() {
        (Ok((copied(target), false)), target, m)
    } else {
        let step = c.chain.steps@[i];
        if step.skips() && target.data is Unit {
            (Ok((unit(), false)), target, m)
        } else {
            step_walked(
                c,
                onward(c, i + 1),
                step,
                i + 1 == c.chain.steps@.len(),
                m.with_regs(Registers { chain_step: i as usize, ..m.regs }),
                target,
            )
        }
    }
}

/// The rest of a walk is the walk from there.
pub proof fn onward_walks(c: Course, i: int)
    ensures
        forall|m: Machine, target: Datum| #[trigger]
            onward(c, i)(m, target) == walked(c, i, m, target),
{
    reveal(onward);
    reveal(walked);
}

// ---------------------------------------------------------------------------
// Roots.

/// Where a chain's root lives.
#[derive(Clone, Copy, Debug, PartialEq, Eq, Structural)]
pub enum Place {
    /// A variable of the scope.
    Entry(usize),
    /// A value with a name but nowhere to be written back to.
    Detached,
    /// The receiver.
    This,
    /// An operand.
    Temporary,
}

/// What a chain is rooted at: where it lives, its value, and where a refusal
/// is blamed on.
#[verifier::opaque]
pub open spec fn rooted(
    p: Program,
    m: Machine,
    chain: Chain,
    scope: Names,
    base: usize,
    operands_at: int,
    pos: Position,
) -> (Result<(Place, Datum, Position), Fail>, Machine, Names) {
    match chain.root {
        Root::Local { slot, .. } => if base + slot < scope.len() {
            let i = base + slot;
            (Ok((Place::Entry(i as usize), scope[i].1, pos)), m, scope)
        } else {
            (
                Err(
                    unnumbered(
                        "chain root slot "@,
                        crate::ops::capped(base + slot) as nat,
                        " is out of scope"@,
                    ),
                ),
                m,
                scope,
            )
        },
        Root::This { pos: this_pos } => match m.this {
            None => (Err(fail(FailureKind::ErrorUnboundThis, this_pos)), m, scope),
            Some(this) => (Ok((Place::This, this, this_pos)), m.with_this(None), scope),
        },
        Root::Named { name, pos: var_pos } => match named(p, name as int) {
            Err(err) => (Err(err), m, scope),
            Ok(name) => match crate::assign::resolved_var(m, scope, name, var_pos) {
                (Err(err), m1, left) => (Err(err), m1, left),
                (Ok(Some(v)), m1, left) => (Ok((Place::Detached, v, var_pos)), m1, left),
                (Ok(None), m1, left) => match found(left, name) {
                    Some(i) => (Ok((Place::Entry(i as usize), left[i].1, var_pos)), m1, left),
                    None => match m1.engine.published(name) {
                        Some(v) => (Ok((Place::Detached, v, var_pos)), m1, left),
                        None => (
                            Err(fail(FailureKind::ErrorVariableNotFound(name), var_pos)),
                            m1,
                            left,
                        ),
                    },
                },
            },
        },
        Root::Temporary => {
            let at = operands_at + chain.operands;
            (
                Ok((Place::Temporary, flattened(m.heap, m.stack[at]), pos)),
                m.with_stack(m.stack.update(at, unit())),
                scope,
            )
        },
    }
}

/// The value a chain assigns, if it assigns: a temporary and a read-only root
/// refuse it.
#[verifier::opaque]
pub open spec fn to_assign(
    p: Program,
    m: Machine,
    chain: Chain,
    place: Place,
    root: Datum,
    root_pos: Position,
) -> Result<Option<Datum>, Fail> {
    if !chain.writes() {
        Ok(None)
    } else if place is Temporary {
        Err(malformed_fail("chain assigns through a temporary root"@))
    } else if read_only(m.heap, root) {
        match root_name(p, chain) {
            Some(name) => Err(fail(FailureKind::ErrorAssignmentToConstant(name), root_pos)),
            None => Err(malformed_fail("no chain root name"@)),
        }
    } else {
        Ok(Some(flat_copy(m.heap, m.stack.last())))
    }
}

/// A root walked: in its cell where it is shared.
#[verifier::opaque]
pub open spec fn root_walked(c: Course, m: Machine, root: Datum) -> Walked {
    match root.data {
        Data::Shared(cell) => if !lockable(m.heap, cell) {
            (
                Err(
                    fail(
                        FailureKind::ErrorDataRace(
                            match root_name(c.p, c.chain) {
                                Some(name) => name,
                                None => ""@,
                            },
                        ),
                        c.pos,
                    ),
                ),
                root,
                m,
            )
        } else {
            let (r, v, m1) = walked(
                c,
                0,
                m.with_heap(lent(m.heap, cell)),
                m.heap[cell as int].value,
            );
            (r, root, m1.with_heap(settled(m1.heap, cell, v)))
        },
        _ => walked(c, 0, m, root),
    }
}

/// The root back where it lives, after the walk.
pub open spec fn root_returned(m: Machine, scope: Names, place: Place, root: Datum) -> (
    Machine,
    Names,
) {
    match place {
        Place::Entry(i) => (m, stored(scope, i as int, root)),
        Place::This => (m.with_this(Some(root)), scope),
        _ => (m, scope),
    }
}

/// A chain's operands on the stack, copied.
pub open spec fn chain_operands(m: Machine, chain: Chain, operands_at: int) -> Seq<Datum> {
    all_copied(m.stack.subrange(operands_at, operands_at + chain.operands))
}

/// A chain run. The root goes back however the walk ended, so what was written
/// before a failure stays written.
#[verifier::opaque]
pub open spec fn chain_run(
    k: Runner,
    p: Program,
    m: Machine,
    chain: Chain,
    scope: Names,
    base: usize,
    pos: Position,
) -> Gave {
    if m.stack.len() < chain.taken() {
        (Err(malformed_fail("chain with too few operands"@)), m, scope)
    } else {
        let operands_at = m.stack.len() - chain.taken();
        match rooted(p, m, chain, scope, base, operands_at, pos) {
            (Err(err), m1, left) => (Err(err), m1, left),
            (Ok((place, root, root_pos)), m1, left) => match to_assign(
                p,
                m1,
                chain,
                place,
                root,
                root_pos,
            ) {
                Err(err) => {
                    let (m2, left2) = root_returned(m1, left, place, root);
                    (Err(err), m2, left2)
                },
                Ok(value) => {
                    let c = Course {
                        k,
                        p,
                        chain,
                        operands: chain_operands(m1, chain, operands_at),
                        value,
                        pos,
                    };
                    let (r, after, m2) = root_walked(c, m1, root);
                    let (m3, left2) = root_returned(m2, left, place, after);
                    match r {
                        Ok((out, _)) => (Ok(out), m3.truncate(operands_at), left2),
                        Err(err) => (Err(err), m3, left2),
                    }
                },
            },
        }
    }
}

/// A chain run, with the step a failure happened at noted for its frame.
#[verifier::opaque]
pub open spec fn chain_ran(
    k: Runner,
    p: Program,
    m: Machine,
    index: u16,
    chain: Chain,
    scope: Names,
    base: usize,
    pos: Position,
) -> Gave {
    let (r, m1, left) = chain_run(
        k,
        p,
        m.with_regs(Registers { chain_step: 0, ..m.regs }),
        chain,
        scope,
        base,
        pos,
    );
    let slot = if r is Err && m1.regs.pending_slot is None {
        match chain.slot_of(m1.regs.chain_step as int) {
            Some(slot) => Some(clamped((slot_base(p, index as int) + slot) as nat)),
            None => None,
        }
    } else {
        m1.regs.pending_slot
    };
    (
        r,
        m1.with_regs(
            Registers { chain_step: m.regs.chain_step, pending_slot: slot, ..m1.regs },
        ),
        left,
    )
}


// ---------------------------------------------------------------------------
// The walk itself.

/// The model of what a walk gives.
pub open spec fn walk_view(out: Result<(Dynamic, bool), Error>) -> Result<(Datum, bool), Fail> {
    match out {
        Ok((v, changed)) => Ok((v@, changed)),
        Err(err) => Err(err@),
    }
}

/// A walk went as expected.
pub open(crate) spec fn went(
    vm: Vm,
    before: Machine,
    out: Result<(Dynamic, bool), Error>,
    target: Datum,
    expected: Walked,
) -> bool {
    &&& walk_view(out) == expected.0
    &&& target == expected.1
    &&& vm.reached(before, expected.2)
}

/// A write went as expected.
pub open(crate) spec fn wrote(
    vm: Vm,
    before: Machine,
    out: Result<(), Error>,
    target: Datum,
    expected: (Result<(), Fail>, Datum, Machine),
) -> bool {
    &&& outcome(out) == expected.0
    &&& target == expected.1
    &&& vm.reached(before, expected.2)
}

/// The course of a walk made in a frame.
pub open(crate) spec fn course(
    m: Machine,
    p: Program,
    chain: Chain,
    operands: Seq<Dynamic>,
    value: Option<Dynamic>,
    pos: Position,
) -> Course {
    Course {
        k: below(levels_left(m)),
        p,
        chain,
        operands: all_views(operands),
        value: opt_view(value),
        pos,
    }
}

/// Three operands as a row.
fn triple(a: Dynamic, b: Dynamic, c: Dynamic) -> (row: Vec<Dynamic>)
    ensures
        all_views(row@) == seq![a@, b@, c@],
        row@.len() == 3,
{
    let mut row = pair(a, b);
    row.push(c);
    assert(all_views(row@) =~= seq![a@, b@, c@]);
    row
}

/// Which element an index names.
fn array_index(len: usize, n: i64) -> (at: Option<usize>)
    ensures
        match at {
            Some(i) => element_at(len as nat, n) == Some(i as int) && i < len,
            None => element_at(len as nat, n) is None,
        },
{
    if n >= 0 {
        if n as u64 >= len as u64 {
            None
        } else {
            Some(n as usize)
        }
    } else {
        let back: u64 = if n == i64::MIN {
            0x8000_0000_0000_0000
        } else {
            (-n) as u64
        };
        if back > len as u64 {
            None
        } else {
            Some(len - back as usize)
        }
    }
}

/// The operator assignment a chain ends with.
fn chain_op(p: &Program, chain: &Chain) -> (out: Result<Option<AssignOp>, Error>)
    ensures
        match out {
            Ok(op) => tail_op(*p, *chain) == Ok::<Option<AssignOp>, Fail>(op),
            Err(err) => tail_op(*p, *chain) == Err::<Option<AssignOp>, Fail>(err@),
        },
{
    match chain.tail {
        Tail::Assign { op } => pool_assign_op(p, op),
        Tail::Read => Ok(None),
    }
}

fn chain_operates(chain: &Chain) -> (r: bool)
    ensures
        r == tail_operates(*chain),
{
    match chain.tail {
        Tail::Assign { op } => op.is_some(),
        Tail::Read => false,
    }
}

impl<'e> Vm<'e> {
    /// Put an element back into a container that had no reference to give.
    fn call_indexer_set(
        &mut self,
        target: &mut Dynamic,
        index: Dynamic,
        value: Dynamic,
        pos: Position,
    ) -> (out: Result<(), Error>)
        requires
            old(self).wf(),
        ensures
            wrote(
                *final(self),
                old(self)@,
                out,
                final(target)@,
                indexer_set(old(self)@, old(target)@, index@, value@, pos),
            ),
    {
        proof {
            reveal(indexer_set);
        }
        let held = target.take();
        let answer = self.ask(Ask::IndexerSet, "", triple(held, index, value), pos)?;
        *target = take_first(answer.operands);
        match answer.reply {
            Reply::Raised(err) => {
                if matches!(err.kind, FailureKind::ErrorIndexingType(_)) {
                    Ok(())
                } else {
                    Err(dispatch_failure(err, pos))
                }
            },
            _ => Ok(()),
        }
    }

    /// Assign through a custom indexer, which cannot hand out a reference.
    fn assign_through_indexer(
        &mut self,
        program: &Program,
        chain: &Chain,
        target: &mut Dynamic,
        index: Dynamic,
        value: Dynamic,
        pos: Position,
    ) -> (out: Result<(), Error>)
        requires
            old(self).wf(),
        ensures
            wrote(
                *final(self),
                old(self)@,
                out,
                final(target)@,
                indexer_assigned(
                    old(self)@,
                    *program,
                    *chain,
                    old(target)@,
                    index@,
                    value@,
                    pos,
                ),
            ),
    {
        proof {
            reveal(indexer_assigned);
        }
        if !chain_operates(chain) {
            return self.call_indexer_set(target, index, value, pos);
        }
        let held = target.take();
        let probe = clone_value(&index);
        let answer = self.ask(Ask::IndexerGet, "", pair(held, probe), pos)?;
        *target = take_first(answer.operands);
        match value_of(answer.reply) {
            Err(_) => self.call_indexer_set(target, index, value, pos),
            Ok(current) => {
                let mut current = current;
                let op = chain_op(program, chain)?;
                self.store(program, op, &mut current, value, pos)?;
                self.call_indexer_set(target, index, current, pos)
            },
        }
    }

    /// Walk on into an element, in its cell where it is shared.
    fn walk_into(
        &mut self,
        program: &Program,
        chain: &Chain,
        i: usize,
        element: &mut Dynamic,
        operands: &Vec<Dynamic>,
        value: Option<Dynamic>,
        pos: Position,
    ) -> (out: Result<(Dynamic, bool), Error>)
        requires
            old(self).wf(),
            i < chain.steps@.len(),
        ensures
            went(
                *final(self),
                old(self)@,
                out,
                final(element)@,
                walked_into(
                    onward(
                        course(old(self)@, *program, *chain, operands@, value, pos),
                        i + 1,
                    ),
                    old(self)@,
                    old(element)@,
                    pos,
                ),
            ),
        decreases levels_left(old(self)@), 4nat, chain.steps@.len() - i, 1nat,
    {
        proof {
            reveal(walked_into);
            onward_walks(course(self@, *program, *chain, operands@, value, pos), i + 1);
        }
        let len: usize = chain.steps.len();
        assert(i < len);
        if let Union::Shared(cell) = &element.value {
            let cell: usize = *cell;
            match self.heap.lock(cell) {
                None => Err(raised(FailureKind::ErrorDataRace("".to_owned()), pos)),
                Some(held) => {
                    let mut held = held;
                    let out = self.walk_chain(
                        program,
                        chain,
                        i + 1,
                        &mut held,
                        operands,
                        value,
                        pos,
                    );
                    self.heap.unlock(cell, held);
                    out
                },
            }
        } else {
            self.walk_chain(program, chain, i + 1, element, operands, value, pos)
        }
    }

    /// Read an element, write it, or walk on into it.
    fn walk_element(
        &mut self,
        program: &Program,
        chain: &Chain,
        i: usize,
        element: &mut Dynamic,
        operands: &Vec<Dynamic>,
        value: Option<Dynamic>,
        pos: Position,
    ) -> (out: Result<(Dynamic, bool), Error>)
        requires
            old(self).wf(),
            i < chain.steps@.len(),
        ensures
            ({
                let c = course(old(self)@, *program, *chain, operands@, value, pos);
                went(
                    *final(self),
                    old(self)@,
                    out,
                    final(element)@,
                    element_walked(
                        c,
                        onward(c, i + 1),
                        i + 1 == chain.steps@.len(),
                        old(self)@,
                        old(element)@,
                    ),
                )
            }),
        decreases levels_left(old(self)@), 4nat, chain.steps@.len() - i, 2nat,
    {
        proof {
            reveal(element_walked);
        }
        if chain.steps.len() - i > 1 {
            return self.walk_into(program, chain, i, element, operands, value, pos);
        }
        match value {
            None => Ok((clone_value(element), false)),
            Some(value) => {
                let op = chain_op(program, chain)?;
                self.store_through(program, op, element, value, "", pos)?;
                Ok((Dynamic::unit(), true))
            },
        }
    }

    fn walk_array(
        &mut self,
        program: &Program,
        chain: &Chain,
        i: usize,
        target: &mut Dynamic,
        index: Dynamic,
        idx_pos: Position,
        operands: &Vec<Dynamic>,
        value: Option<Dynamic>,
        pos: Position,
    ) -> (out: Result<(Dynamic, bool), Error>)
        requires
            old(self).wf(),
            i < chain.steps@.len(),
            old(target)@.data is Array,
        ensures
            ({
                let c = course(old(self)@, *program, *chain, operands@, value, pos);
                went(
                    *final(self),
                    old(self)@,
                    out,
                    final(target)@,
                    array_walked(
                        c,
                        onward(c, i + 1),
                        i + 1 == chain.steps@.len(),
                        old(self)@,
                        old(target)@,
                        old(target)@.data->Array_0,
                        index@,
                        idx_pos,
                    ),
                )
            }),
        decreases levels_left(old(self)@), 4nat, chain.steps@.len() - i, 3nat,
    {
        broadcast use crate::value::view_of_composite;

        proof {
            reveal(array_walked);
        }
        let ghost before = target@;
        let flat = self.heap.flatten_clone_value(&index);
        let n: i64 = match &flat.value {
            Union::Int(n) => *n,
            _ => {
                return Err(mismatch(self.engine, "i64", type_text(&flat), idx_pos));
            },
        };
        match &mut target.value {
            Union::Array(row) => {
                let ghost items = all_views(row@);
                let at: usize = match array_index(row.len(), n) {
                    None => {
                        return Err(raised(FailureKind::ErrorArrayBounds(row.len(), n), idx_pos));
                    },
                    Some(at) => at,
                };
                let mut element = row[at].take();
                let out = self.walk_element(program, chain, i, &mut element, operands, value, pos);
                row.set(at, element);
                assert(all_views(row@) =~= items.update(at as int, element@));
                out
            },
            _ => Ok((Dynamic::unit(), false)),
        }
    }

    /// What reading a key a map does not have gives.
    fn absent_key(&self, key: &str, pos: Position) -> (out: VmResult)
        ensures
            result_view(out) == absent_key(self@, key@, pos),
    {
        if self.engine.fail_on_invalid_map_property {
            Err(raised(FailureKind::ErrorPropertyNotFound(key.to_owned()), pos))
        } else {
            Ok(Dynamic::unit())
        }
    }

    fn walk_temporary(
        &mut self,
        program: &Program,
        chain: &Chain,
        i: usize,
        target: &mut Dynamic,
        index: Dynamic,
        temp: Dynamic,
        bracket: Position,
        operands: &Vec<Dynamic>,
        value: Option<Dynamic>,
        pos: Position,
    ) -> (out: Result<(Dynamic, bool), Error>)
        requires
            old(self).wf(),
            i < chain.steps@.len(),
        ensures
            ({
                let c = course(old(self)@, *program, *chain, operands@, value, pos);
                went(
                    *final(self),
                    old(self)@,
                    out,
                    final(target)@,
                    temporary_walked(
                        onward(c, i + 1),
                        old(self)@,
                        old(target)@,
                        index@,
                        temp@,
                        bracket,
                    ),
                )
            }),
        decreases levels_left(old(self)@), 4nat, chain.steps@.len() - i, 1nat,
    {
        proof {
            reveal(temporary_walked);
            onward_walks(course(self@, *program, *chain, operands@, value, pos), i + 1);
        }
        let len: usize = chain.steps.len();
        assert(i < len);
        let mut temp = temp;
        let (out, changed) = self.walk_chain(
            program,
            chain,
            i + 1,
            &mut temp,
            operands,
            value,
            pos,
        )?;
        if changed {
            let updated = clone_value(&temp);
            self.call_indexer_set(target, index, updated, bracket)?;
        }
        Ok((out, changed))
    }

    fn walk_map(
        &mut self,
        program: &Program,
        chain: &Chain,
        i: usize,
        target: &mut Dynamic,
        index: Dynamic,
        idx_pos: Position,
        bracket: Position,
        operands: &Vec<Dynamic>,
        value: Option<Dynamic>,
        pos: Position,
    ) -> (out: Result<(Dynamic, bool), Error>)
        requires
            old(self).wf(),
            i < chain.steps@.len(),
            old(target)@.data is Dict,
        ensures
            ({
                let c = course(old(self)@, *program, *chain, operands@, value, pos);
                went(
                    *final(self),
                    old(self)@,
                    out,
                    final(target)@,
                    map_walked(
                        c,
                        onward(c, i + 1),
                        i + 1 == chain.steps@.len(),
                        old(self)@,
                        old(target)@,
                        old(target)@.data->Dict_0,
                        index@,
                        idx_pos,
                        bracket,
                    ),
                )
            }),
        decreases levels_left(old(self)@), 4nat, chain.steps@.len() - i, 3nat,
    {
        broadcast use crate::value::view_of_composite;

        proof {
            reveal(map_walked);
        }
        let key = match text_of(&self.heap, &index) {
            Err(actual) => {
                return Err(mismatch(self.engine, "string", actual, idx_pos));
            },
            Ok(key) => key,
        };
        let last = chain.steps.len() - i == 1;
        let adding = last && value.is_some();
        match &mut target.value {
            Union::Dict(pairs) => {
                let ghost items = pairs@;
                match pairs.find(key.as_str()) {
                    Some(at) => {
                        let mut element = pairs.take(at);
                        let out = self.walk_element(
                            program,
                            chain,
                            i,
                            &mut element,
                            operands,
                            value,
                            pos,
                        );
                        pairs.put(at, element);
                        assert(pairs@ =~= items.update(at as int, (key@, element@)));
                        return out;
                    },
                    None => {
                        if adding {
                            let mut element = Dynamic::unit();
                            let out = self.walk_element(
                                program,
                                chain,
                                i,
                                &mut element,
                                operands,
                                value,
                                pos,
                            );
                            pairs.insert(key.as_str(), element);
                            assert(pairs@ =~= items.push((key@, element@)));
                            return out;
                        }
                    },
                }
            },
            _ => {},
        }
        let temp = self.absent_key(key.as_str(), idx_pos)?;
        if last {
            return Ok((temp, false));
        }
        let setter_index = clone_value(&index);
        self.walk_temporary(
            program,
            chain,
            i,
            target,
            setter_index,
            temp,
            bracket,
            operands,
            value,
            pos,
        )
    }

    /// Put an element's copy back into the value it came out of.
    fn propagate(
        &mut self,
        target: &mut Dynamic,
        index: Dynamic,
        element: Dynamic,
        out: (Dynamic, bool),
        pos: Position,
    ) -> (result: Result<(Dynamic, bool), Error>)
        requires
            old(self).wf(),
        ensures
            went(
                *final(self),
                old(self)@,
                result,
                final(target)@,
                propagated(
                    old(self)@,
                    old(target)@,
                    index@,
                    element@,
                    (out.0@, out.1),
                    pos,
                ),
            ),
    {
        proof {
            reveal(propagated);
        }
        let held = target.take();
        let answer = self.ask(Ask::Propagate, "", triple(held, index, element), pos)?;
        *target = take_first(answer.operands);
        match answer.reply {
            Reply::Raised(err) => Err(err),
            _ => Ok(out),
        }
    }

    fn walk_handed(
        &mut self,
        program: &Program,
        chain: &Chain,
        i: usize,
        target: &mut Dynamic,
        index: Dynamic,
        element: Dynamic,
        bracket: Position,
        operands: &Vec<Dynamic>,
        value: Option<Dynamic>,
        pos: Position,
    ) -> (out: Result<(Dynamic, bool), Error>)
        requires
            old(self).wf(),
            i < chain.steps@.len(),
        ensures
            ({
                let c = course(old(self)@, *program, *chain, operands@, value, pos);
                went(
                    *final(self),
                    old(self)@,
                    out,
                    final(target)@,
                    handed_walked(
                        c,
                        onward(c, i + 1),
                        i + 1 == chain.steps@.len(),
                        old(self)@,
                        old(target)@,
                        index@,
                        element@,
                        bracket,
                    ),
                )
            }),
        decreases levels_left(old(self)@), 4nat, chain.steps@.len() - i, 3nat,
    {
        proof {
            reveal(handed_walked);
        }
        let last = chain.steps.len() - i == 1;
        if last && value.is_none() {
            return Ok((element, false));
        }
        let mut element = element;
        let out = self.walk_element(program, chain, i, &mut element, operands, value, pos)?;
        if matches!(target.value, Union::Str(_) | Union::Blob(_) | Union::Int(_)) {
            return self.propagate(target, index, element, out, pos);
        }
        if out.1 {
            let updated = clone_value(&element);
            self.call_indexer_set(target, index, updated, bracket)?;
        }
        Ok(out)
    }

    fn walk_hosted(
        &mut self,
        program: &Program,
        chain: &Chain,
        i: usize,
        target: &mut Dynamic,
        index: Dynamic,
        idx_pos: Position,
        bracket: Position,
        operands: &Vec<Dynamic>,
        value: Option<Dynamic>,
        pos: Position,
    ) -> (out: Result<(Dynamic, bool), Error>)
        requires
            old(self).wf(),
            i < chain.steps@.len(),
        ensures
            ({
                let c = course(old(self)@, *program, *chain, operands@, value, pos);
                went(
                    *final(self),
                    old(self)@,
                    out,
                    final(target)@,
                    hosted_walked(
                        c,
                        onward(c, i + 1),
                        i + 1 == chain.steps@.len(),
                        old(self)@,
                        old(target)@,
                        index@,
                        idx_pos,
                        bracket,
                    ),
                )
            }),
        decreases levels_left(old(self)@), 4nat, chain.steps@.len() - i, 4nat,
    {
        proof {
            reveal(hosted_walked);
        }
        let last = chain.steps.len() - i == 1;
        let assigning = last && value.is_some();
        let setter_index = clone_value(&index);
        let held = target.take();
        let ask = Ask::Element { add: assigning, indexers: !assigning, bracket };
        let answer = self.ask(ask, "", pair(held, index), idx_pos)?;
        *target = take_first(answer.operands);
        match value_of(answer.reply) {
            Err(err) => {
                if assigning && matches!(err.kind, FailureKind::ErrorIndexingType(_)) {
                    if let Some(value) = value {
                        self.assign_through_indexer(
                            program,
                            chain,
                            target,
                            setter_index,
                            value,
                            bracket,
                        )?;
                    }
                    Ok((Dynamic::unit(), true))
                } else {
                    Err(err)
                }
            },
            Ok(element) => self.walk_handed(
                program,
                chain,
                i,
                target,
                setter_index,
                element,
                bracket,
                operands,
                value,
                pos,
            ),
        }
    }

    /// Take one `[i]` step.
    fn index_by_reference(
        &mut self,
        program: &Program,
        chain: &Chain,
        i: usize,
        target: &mut Dynamic,
        operand: u16,
        idx_pos: Position,
        bracket: Position,
        operands: &Vec<Dynamic>,
        value: Option<Dynamic>,
        pos: Position,
    ) -> (out: Result<(Dynamic, bool), Error>)
        requires
            old(self).wf(),
            i < chain.steps@.len(),
        ensures
            ({
                let c = course(old(self)@, *program, *chain, operands@, value, pos);
                went(
                    *final(self),
                    old(self)@,
                    out,
                    final(target)@,
                    index_walked(
                        c,
                        onward(c, i + 1),
                        i + 1 == chain.steps@.len(),
                        old(self)@,
                        old(target)@,
                        operand,
                        idx_pos,
                        bracket,
                    ),
                )
            }),
        decreases levels_left(old(self)@), 4nat, chain.steps@.len() - i, 5nat,
    {
        proof {
            reveal(index_walked);
        }
        if operand as usize >= operands.len() {
            return Err(malformed("chain index operand missing".to_owned()));
        }
        let index = clone_value(&operands[operand as usize]);
        if matches!(target.value, Union::Array(_)) {
            self.walk_array(program, chain, i, target, index, idx_pos, operands, value, pos)
        } else if matches!(target.value, Union::Dict(_)) {
            self.walk_map(program, chain, i, target, index, idx_pos, bracket, operands, value, pos)
        } else {
            self.walk_hosted(
                program,
                chain,
                i,
                target,
                index,
                idx_pos,
                bracket,
                operands,
                value,
                pos,
            )
        }
    }

    /// Call a getter, or the string indexer where there is none.
    fn get_property(
        &mut self,
        program: &Program,
        target: &mut Dynamic,
        key: &str,
        getter: u32,
        pos: Position,
    ) -> (out: VmResult)
        requires
            old(self).wf(),
        ensures
            ({
                let (r, t, m) = got(*program, old(self)@, old(target)@, key@, getter, pos);
                result_view(out) == r && final(target)@ == t && final(self).reached(old(self)@, m)
            }),
    {
        proof {
            reveal(got);
        }
        let name = pool_name(program, getter)?;
        let held = target.take();
        let (result, left) = self.call_engine(name, single(held), true, true, None, pos);
        *target = take_first(left);
        match result {
            Ok(v) => Ok(v),
            Err(err) => {
                if !matches!(err.kind, FailureKind::ErrorDotExpr(_)) {
                    return Err(err);
                }
                let held = target.take();
                let index = Dynamic::from_text(key.to_owned());
                let answer = self.ask(Ask::IndexerGet, "", pair(held, index), pos)?;
                *target = take_first(answer.operands);
                match value_of(answer.reply) {
                    Ok(v) => Ok(v),
                    Err(err2) => {
                        if matches!(err2.kind, FailureKind::ErrorIndexingType(_)) {
                            Err(err)
                        } else {
                            Err(dispatch_failure(err2, pos))
                        }
                    },
                }
            },
        }
    }

    /// Call a setter, or the string indexer where there is none.
    fn set_property(
        &mut self,
        program: &Program,
        target: &mut Dynamic,
        key: &str,
        setter: u32,
        value: Dynamic,
        silent: bool,
        pos: Position,
    ) -> (out: Result<(), Error>)
        requires
            old(self).wf(),
        ensures
            wrote(
                *final(self),
                old(self)@,
                out,
                final(target)@,
                set_on(*program, old(self)@, old(target)@, key@, setter, value@, silent, pos),
            ),
    {
        proof {
            reveal(set_on);
        }
        let name = pool_name(program, setter)?;
        let held = target.take();
        let (result, left) = self.call_engine(name, pair(held, value), true, true, None, pos);
        assert(left@.len() == all_views(left@).len());
        match result {
            Ok(_) => {
                *target = take_first(left);
                Ok(())
            },
            Err(err) => {
                if !matches!(err.kind, FailureKind::ErrorDotExpr(_)) || left.len() != 2 {
                    *target = take_first(left);
                    return Err(err);
                }
                let (held, value) = crate::assign::take_pair(left);
                let index = Dynamic::from_text(key.to_owned());
                let answer = self.ask(Ask::IndexerSet, "", triple(held, index, value), pos)?;
                *target = take_first(answer.operands);
                match answer.reply {
                    Reply::Raised(err2) => {
                        if matches!(err2.kind, FailureKind::ErrorIndexingType(_)) {
                            if silent {
                                Ok(())
                            } else {
                                Err(err)
                            }
                        } else {
                            Err(dispatch_failure(err2, pos))
                        }
                    },
                    _ => Ok(()),
                }
            },
        }
    }

    fn walk_key(
        &mut self,
        program: &Program,
        chain: &Chain,
        i: usize,
        target: &mut Dynamic,
        key: &str,
        step_pos: Position,
        operands: &Vec<Dynamic>,
        value: Option<Dynamic>,
        pos: Position,
    ) -> (out: Result<(Dynamic, bool), Error>)
        requires
            old(self).wf(),
            i < chain.steps@.len(),
            old(target)@.data is Dict,
        ensures
            ({
                let c = course(old(self)@, *program, *chain, operands@, value, pos);
                went(
                    *final(self),
                    old(self)@,
                    out,
                    final(target)@,
                    key_walked(
                        c,
                        onward(c, i + 1),
                        i + 1 == chain.steps@.len(),
                        old(self)@,
                        old(target)@,
                        old(target)@.data->Dict_0,
                        key@,
                        step_pos,
                    ),
                )
            }),
        decreases levels_left(old(self)@), 4nat, chain.steps@.len() - i, 0nat,
    {
        broadcast use crate::value::view_of_composite;

        proof {
            reveal(key_walked);
            onward_walks(course(self@, *program, *chain, operands@, value, pos), i + 1);
        }
        let len: usize = chain.steps.len();
        assert(i < len);
        let last = len - i == 1;
        match &mut target.value {
            Union::Dict(pairs) => {
                let ghost items = pairs@;
                if last {
                    match value {
                        Some(value) => {
                            let mut element = match pairs.find(key) {
                                Some(at) => {
                                    let element = pairs.take(at);
                                    assert(pairs@ =~= items.update(
                                        at as int,
                                        (items[at as int].0, unit()),
                                    ));
                                    element
                                },
                                None => Dynamic::unit(),
                            };
                            let out = match chain_op(program, chain) {
                                Err(err) => Err(err),
                                Ok(op) => self.store(program, op, &mut element, value, pos),
                            };
                            proof {
                                rebinding(items, pairs@, key@, element@);
                            }
                            pairs.insert(key, element);
                            match out {
                                Ok(_) => Ok((Dynamic::unit(), true)),
                                Err(err) => Err(err),
                            }
                        },
                        None => match pairs.find(key) {
                            Some(at) => Ok((clone_value(pairs.get(at)), false)),
                            None => {
                                let absent = self.absent_key(key, step_pos)?;
                                Ok((absent, false))
                            },
                        },
                    }
                } else {
                    match pairs.find(key) {
                        Some(at) => {
                            let mut element = pairs.take(at);
                            let out = self.walk_chain(
                                program,
                                chain,
                                i + 1,
                                &mut element,
                                operands,
                                value,
                                pos,
                            );
                            pairs.put(at, element);
                            assert(pairs@ =~= items.update(
                                at as int,
                                (key@, element@),
                            ));
                            out
                        },
                        None => {
                            let mut absent = self.absent_key(key, step_pos)?;
                            self.walk_chain(
                                program,
                                chain,
                                i + 1,
                                &mut absent,
                                operands,
                                value,
                                pos,
                            )
                        },
                    }
                }
            },
            _ => Ok((Dynamic::unit(), false)),
        }
    }

    fn assign_property(
        &mut self,
        program: &Program,
        chain: &Chain,
        target: &mut Dynamic,
        key: &str,
        getter: u32,
        setter: u32,
        value: Dynamic,
        step_pos: Position,
        pos: Position,
    ) -> (out: Result<(Dynamic, bool), Error>)
        requires
            old(self).wf(),
        ensures
            forall|c: Course|
                c.p == *program && c.chain == *chain && c.pos == pos ==> went(
                    *final(self),
                    old(self)@,
                    out,
                    final(target)@,
                    #[trigger] property_assigned(
                        c,
                        old(self)@,
                        old(target)@,
                        key@,
                        getter,
                        setter,
                        value@,
                        step_pos,
                    ),
                ),
    {
        proof {
            reveal(property_assigned);
        }
        let new_value = if chain_operates(chain) {
            let mut current = self.get_property(program, target, key, getter, step_pos)?;
            let op = chain_op(program, chain)?;
            self.store(program, op, &mut current, value, pos)?;
            current
        } else {
            value
        };
        self.set_property(program, target, key, setter, new_value, false, step_pos)?;
        Ok((Dynamic::unit(), true))
    }

    /// Whether a value is a cell with a map in it.
    fn shares_map(&self, target: &Dynamic) -> (r: bool)
        ensures
            r == (target@.data matches Data::Shared(cell) && shared_map(self@, cell) is Some),
    {
        broadcast use crate::value::view_of_composite;

        match &target.value {
            Union::Shared(cell) => self.heap.holds_map(*cell),
            _ => false,
        }
    }

    fn walk_shared_key(
        &mut self,
        program: &Program,
        chain: &Chain,
        i: usize,
        target: &mut Dynamic,
        key: &str,
        step_pos: Position,
        operands: &Vec<Dynamic>,
        value: Option<Dynamic>,
        pos: Position,
    ) -> (out: Result<(Dynamic, bool), Error>)
        requires
            old(self).wf(),
            i < chain.steps@.len(),
            old(target)@.data matches Data::Shared(cell) && shared_map(old(self)@, cell) is Some,
        ensures
            ({
                let c = course(old(self)@, *program, *chain, operands@, value, pos);
                let cell = old(target)@.data->Shared_0;
                went(
                    *final(self),
                    old(self)@,
                    out,
                    final(target)@,
                    shared_key_walked(
                        c,
                        onward(c, i + 1),
                        i + 1 == chain.steps@.len(),
                        old(self)@,
                        old(target)@,
                        cell,
                        shared_map(old(self)@, cell)->0,
                        key@,
                        step_pos,
                    ),
                )
            }),
        decreases levels_left(old(self)@), 4nat, chain.steps@.len() - i, 1nat,
    {
        broadcast use crate::value::view_of_composite;

        proof {
            reveal(shared_key_walked);
            onward_walks(course(self@, *program, *chain, operands@, value, pos), i + 1);
        }
        let len: usize = chain.steps.len();
        assert(i < len);
        let last = len - i == 1;
        let ghost heap = self@.heap;
        if let Union::Shared(cell) = &target.value {
            let cell: usize = *cell;
            if let Some(held) = self.heap.lock(cell) {
                let mut held = held;
                let has = match &held.value {
                    Union::Dict(pairs) => pairs.find(key).is_some(),
                    _ => false,
                };
                if last || has {
                    let out = self.walk_key(
                        program,
                        chain,
                        i,
                        &mut held,
                        key,
                        step_pos,
                        operands,
                        value,
                        pos,
                    );
                    self.heap.unlock(cell, held);
                    return out;
                }
                self.heap.unlock(cell, held);
                assert(self@.heap =~= heap);
            }
        }
        let mut absent = self.absent_key(key, step_pos)?;
        self.walk_chain(program, chain, i + 1, &mut absent, operands, value, pos)
    }

    /// Take one `.name` step.
    fn walk_property(
        &mut self,
        program: &Program,
        chain: &Chain,
        i: usize,
        target: &mut Dynamic,
        name: u32,
        getter: u32,
        setter: u32,
        step_pos: Position,
        operands: &Vec<Dynamic>,
        value: Option<Dynamic>,
        pos: Position,
    ) -> (out: Result<(Dynamic, bool), Error>)
        requires
            old(self).wf(),
            i < chain.steps@.len(),
        ensures
            ({
                let c = course(old(self)@, *program, *chain, operands@, value, pos);
                went(
                    *final(self),
                    old(self)@,
                    out,
                    final(target)@,
                    property_walked(
                        c,
                        onward(c, i + 1),
                        i + 1 == chain.steps@.len(),
                        old(self)@,
                        old(target)@,
                        name,
                        getter,
                        setter,
                        step_pos,
                    ),
                )
            }),
        decreases levels_left(old(self)@), 4nat, chain.steps@.len() - i, 2nat,
    {
        proof {
            reveal(property_walked);
            onward_walks(course(self@, *program, *chain, operands@, value, pos), i + 1);
        }
        let len: usize = chain.steps.len();
        assert(i < len);
        let last = len - i == 1;
        let key = pool_name(program, name)?;
        if matches!(target.value, Union::Dict(_)) {
            return self.walk_key(program, chain, i, target, key, step_pos, operands, value, pos);
        }
        if self.shares_map(target) {
            return self.walk_shared_key(
                program,
                chain,
                i,
                target,
                key,
                step_pos,
                operands,
                value,
                pos,
            );
        }
        if last {
            return match value {
                Some(value) => self.assign_property(
                    program,
                    chain,
                    target,
                    key,
                    getter,
                    setter,
                    value,
                    step_pos,
                    pos,
                ),
                None => {
                    let out = self.get_property(program, target, key, getter, step_pos)?;
                    Ok((out, false))
                },
            };
        }
        let mut temp = self.get_property(program, target, key, getter, step_pos)?;
        let (out, changed) = self.walk_chain(
            program,
            chain,
            i + 1,
            &mut temp,
            operands,
            value,
            pos,
        )?;
        if changed {
            self.set_property(program, target, key, setter, temp, true, step_pos)?;
        }
        Ok((out, changed))
    }

    fn call_method(
        &mut self,
        program: &Program,
        target: &mut Dynamic,
        index: u32,
        name: &str,
        args: Vec<Dynamic>,
        step_pos: Position,
    ) -> (out: VmResult)
        requires
            old(self).wf(),
        ensures
            forall|c: Course|
                c.k == below(levels_left(old(self)@)) && c.p == *program ==> {
                    let (r, t, m) = #[trigger] method_called(
                        c,
                        old(self)@,
                        old(target)@,
                        index,
                        name@,
                        all_views(args@),
                        step_pos,
                    );
                    result_view(out) == r && final(target)@ == t && final(self).reached(
                        old(self)@,
                        m,
                    )
                },
        decreases levels_left(old(self)@), 4nat, 0nat, 0nat,
    {
        proof {
            reveal(method_called);
        }
        assert(args@.len() == all_views(args@).len());
        let text = type_text(&self.heap.flatten_clone_value(target));
        let typed = self.engine.map_type_name(text.as_str());
        match program.method(index, args.len(), typed.as_str()) {
            Some(f) => {
                let (bound, write_back) = bind_this(&self.heap, target);
                let at: usize = self.stack.depth();
                self.stack.push_all(args);
                let mut fresh = self.take_scope();
                let (result, returned) = self.call_compiled_with_this(
                    program,
                    &program.functions[f],
                    name,
                    at,
                    &mut fresh,
                    true,
                    step_pos,
                    Some(bound),
                );
                self.give_scope(fresh);
                self.truncate_stack(at);
                unbind_this(target, returned, write_back);
                result
            },
            None => {
                let held = target.take();
                let ghost tail = all_views(args@);
                let mut operands = args;
                operands.insert(0, held);
                assert(all_views(operands@) =~= seq![held@] + tail);
                let (result, left) = self.call_engine(name, operands, true, true, None, step_pos);
                *target = take_first(left);
                result
            },
        }
    }

    /// Take one `.name(..)` step.
    fn walk_method(
        &mut self,
        program: &Program,
        chain: &Chain,
        i: usize,
        target: &mut Dynamic,
        name: u32,
        argc: u8,
        operand: u16,
        step_pos: Position,
        operands: &Vec<Dynamic>,
        value: Option<Dynamic>,
        pos: Position,
    ) -> (out: Result<(Dynamic, bool), Error>)
        requires
            old(self).wf(),
            i < chain.steps@.len(),
        ensures
            ({
                let c = course(old(self)@, *program, *chain, operands@, value, pos);
                went(
                    *final(self),
                    old(self)@,
                    out,
                    final(target)@,
                    method_walked(
                        c,
                        onward(c, i + 1),
                        i + 1 == chain.steps@.len(),
                        old(self)@,
                        old(target)@,
                        name,
                        argc,
                        operand,
                        step_pos,
                    ),
                )
            }),
        decreases levels_left(old(self)@), 4nat, chain.steps@.len() - i, 2nat,
    {
        let ghost c = course(self@, *program, *chain, operands@, value, pos);
        proof {
            reveal(method_walked);
            onward_walks(c, i + 1);
        }
        let len: usize = chain.steps.len();
        assert(i < len);
        let last = len - i == 1;
        let text = pool_name(program, name)?;
        let first: usize = operand as usize;
        if first + argc as usize > operands.len() {
            return Err(malformed("chain method arguments missing".to_owned()));
        }
        let args = copy_range(operands, first, first + argc as usize);
        let out = self.call_method(program, target, name, text, args, step_pos)?;
        if last {
            if value.is_some() {
                return Err(malformed("assignment to a method call".to_owned()));
            }
            return Ok((out, true));
        }
        let mut inner = out;
        let (out, _) = self.walk_chain(program, chain, i + 1, &mut inner, operands, value, pos)?;
        Ok((out, true))
    }

    /// Walk a chain from a step on.
    fn walk_chain(
        &mut self,
        program: &Program,
        chain: &Chain,
        i: usize,
        target: &mut Dynamic,
        operands: &Vec<Dynamic>,
        value: Option<Dynamic>,
        pos: Position,
    ) -> (out: Result<(Dynamic, bool), Error>)
        requires
            old(self).wf(),
            i <= chain.steps@.len(),
        ensures
            went(
                *final(self),
                old(self)@,
                out,
                final(target)@,
                walked(
                    course(old(self)@, *program, *chain, operands@, value, pos),
                    i as int,
                    old(self)@,
                    old(target)@,
                ),
            ),
        decreases levels_left(old(self)@), 4nat, chain.steps@.len() - i, 6nat,
    {
        proof {
            reveal(walked);
            reveal(onward);
        }
        if i >= chain.steps.len() {
            return Ok((clone_value(target), false));
        }
        let step = chain.steps[i];
        if step.coalesces() && target.is_unit() {
            return Ok((Dynamic::unit(), false));
        }
        self.regs.chain_step = i;
        match step {
            Step::Index { operand, pos: idx_pos, bracket, .. } => self.index_by_reference(
                program,
                chain,
                i,
                target,
                operand,
                idx_pos,
                bracket,
                operands,
                value,
                pos,
            ),
            Step::Property { name, getter, setter, pos: step_pos, .. } => self.walk_property(
                program,
                chain,
                i,
                target,
                name,
                getter,
                setter,
                step_pos,
                operands,
                value,
                pos,
            ),
            Step::Method { name, argc, operand, pos: step_pos, .. } => self.walk_method(
                program,
                chain,
                i,
                target,
                name,
                argc,
                operand,
                step_pos,
                operands,
                value,
                pos,
            ),
        }
    }
}

/// Binding a key over the unit left in its place is binding it.
proof fn rebinding(
    before: Seq<(Seq<char>, Datum)>,
    after: Seq<(Seq<char>, Datum)>,
    key: Seq<char>,
    value: Datum,
)
    requires
        after == before || (find_key(before, key) matches Some(i) && after == before.update(
            i,
            (before[i].0, unit()),
        )),
    ensures
        bound(after, key, value) == bound(before, key, value),
{
    if after != before {
        let i = find_key(before, key)->0;
        assert(crate::dict::key_at(before, key, i));
        assert(crate::dict::key_at(after, key, i));
        crate::dict::find_key_is(after, key, i);
        assert(bound(after, key, value) =~= bound(before, key, value));
    }
}

fn copy_range(row: &Vec<Dynamic>, from: usize, to: usize) -> (out: Vec<Dynamic>)
    requires
        from <= to <= row@.len(),
    ensures
        all_views(out@) == all_copied(all_views(row@).subrange(from as int, to as int)),
{
    let mut out: Vec<Dynamic> = Vec::new();
    let mut i: usize = from;
    while i < to
        invariant
            from <= i <= to <= row@.len(),
            out@.len() == i - from,
            forall|j: int|
                0 <= j < out@.len() ==> (#[trigger] out@[j])@ == copied(row@[from + j]@),
        decreases to - i,
    {
        out.push(clone_value(&row[i]));
        i = i + 1;
    }
    assert(all_views(out@) =~= all_copied(all_views(row@).subrange(from as int, to as int)));
    out
}


/// What a chain's root is called.
fn name_of_root(p: &Program, chain: &Chain) -> (name: Option<String>)
    ensures
        crate::machine::text_view(name) == root_name(*p, *chain),
{
    match chain.root {
        Root::Local { name, .. } => match p.name(name) {
            Some(text) => Some(text.to_owned()),
            None => None,
        },
        Root::Named { name, .. } => match p.name(name) {
            Some(text) => Some(text.to_owned()),
            None => None,
        },
        Root::This { .. } => Some("".to_owned()),
        Root::Temporary => None,
    }
}

/// A chain's root, looked up: where it lives, its value moved out, and where
/// a refusal is blamed on.
#[derive(Debug)]
pub(crate) struct ChainRoot {
    pub place: Place,
    pub value: Dynamic,
    pub pos: Position,
}

impl<'e> Vm<'e> {
    /// Find what a chain is rooted at, and move its value out of there.
    fn chain_root(
        &mut self,
        program: &Program,
        chain: &Chain,
        scope: &mut Scope,
        base: usize,
        operands_at: usize,
        pos: Position,
    ) -> (out: Result<ChainRoot, Error>)
        requires
            old(self).wf(),
            operands_at + chain.taken() == old(self)@.stack.len(),
        ensures
            ({
                let (r, m, sc) = rooted(
                    *program,
                    old(self)@,
                    *chain,
                    old(scope)@,
                    base,
                    operands_at as int,
                    pos,
                );
                &&& final(self).passed(old(self)@, m)
                &&& (out matches Ok(root) && root.place is This) ==> old(self)@.this is Some
                    && m.this is None
                &&& !(out matches Ok(root) && root.place is This) ==> (m.this is Some) == (
                old(self)@.this is Some)
                &&& m.stack.len() == old(self)@.stack.len()
                &&& match out {
                    Ok(root) => r == Ok::<(Place, Datum, Position), Fail>(
                        (root.place, root.value@, root.pos),
                    ) && (match root.place {
                        Place::Entry(i) => i < sc.len() && final(scope)@ == stored(
                            sc,
                            i as int,
                            unit(),
                        ),
                        _ => final(scope)@ == sc,
                    }),
                    Err(err) => r == Err::<(Place, Datum, Position), Fail>(err@) && final(scope)@
                        == sc,
                }
            }),
    {
        proof {
            reveal(rooted);
        }
        match chain.root {
            Root::Local { slot, .. } => {
                let len: usize = scope.len();
                if base < len && (slot as usize) < len - base {
                    let i: usize = base + slot as usize;
                    let value = scope.take(i);
                    Ok(ChainRoot { place: Place::Entry(i), value, pos })
                } else {
                    let i: usize = if base > usize::MAX - slot as usize {
                        usize::MAX
                    } else {
                        base + slot as usize
                    };
                    Err(malformed_number("chain root slot ", i as u64, " is out of scope"))
                }
            },
            Root::This { pos: this_pos } => match self.this.take() {
                None => Err(raised(FailureKind::ErrorUnboundThis, this_pos)),
                Some(value) => Ok(ChainRoot { place: Place::This, value, pos: this_pos }),
            },
            Root::Named { name, pos: var_pos } => {
                let name = pool_name(program, name)?;
                proof {
                    crate::ops::resolving_keeps_stack(self@, scope@, name@, var_pos);
                }
                if let Some(value) = self.resolve_var(name, scope, var_pos)? {
                    return Ok(ChainRoot { place: Place::Detached, value, pos: var_pos });
                }
                if let Some(i) = scope.search(name) {
                    let value = scope.take(i);
                    return Ok(ChainRoot { place: Place::Entry(i), value, pos: var_pos });
                }
                match self.engine.module_var(name) {
                    Some(value) => Ok(ChainRoot { place: Place::Detached, value, pos: var_pos }),
                    None => Err(missing(name, var_pos)),
                }
            },
            Root::Temporary => {
                let depth: usize = self.stack.depth();
                assert(operands_at + chain.operands < depth);
                let value = self.stack.take(operands_at + chain.operands as usize);
                let value = self.heap.flatten(value);
                Ok(ChainRoot { place: Place::Temporary, value, pos })
            },
        }
    }

    fn value_to_assign(&self, program: &Program, chain: &Chain, root: &ChainRoot) -> (out: Result<
        Option<Dynamic>,
        Error,
    >)
        requires
            self.wf(),
            self@.stack.len() >= chain.taken(),
        ensures
            crate::assign::option_view(out) == to_assign(
                *program,
                self@,
                *chain,
                root.place,
                root.value@,
                root.pos,
            ),
    {
        proof {
            reveal(to_assign);
        }
        if !chain.assigns() {
            return Ok(None);
        }
        if matches!(root.place, Place::Temporary) {
            return Err(malformed("chain assigns through a temporary root".to_owned()));
        }
        if self.heap.is_read_only(&root.value) {
            return match name_of_root(program, chain) {
                Some(name) => Err(raised(FailureKind::ErrorAssignmentToConstant(name), root.pos)),
                None => Err(malformed("no chain root name".to_owned())),
            };
        }
        let depth: usize = self.stack.depth();
        Ok(Some(self.heap.flatten_clone_value(self.stack.get(depth - 1))))
    }

    fn walk_root(
        &mut self,
        program: &Program,
        chain: &Chain,
        root: &mut Dynamic,
        operands: &Vec<Dynamic>,
        value: Option<Dynamic>,
        pos: Position,
    ) -> (out: Result<(Dynamic, bool), Error>)
        requires
            old(self).wf(),
        ensures
            went(
                *final(self),
                old(self)@,
                out,
                final(root)@,
                root_walked(
                    course(old(self)@, *program, *chain, operands@, value, pos),
                    old(self)@,
                    old(root)@,
                ),
            ),
        decreases levels_left(old(self)@), 4nat, chain.steps@.len() + 1, 0nat,
    {
        proof {
            reveal(root_walked);
        }
        if let Union::Shared(cell) = &root.value {
            let cell: usize = *cell;
            match self.heap.lock(cell) {
                None => {
                    let name = match name_of_root(program, chain) {
                        Some(name) => name,
                        None => "".to_owned(),
                    };
                    Err(raised(FailureKind::ErrorDataRace(name), pos))
                },
                Some(held) => {
                    let mut held = held;
                    let out = self.walk_chain(
                        program,
                        chain,
                        0,
                        &mut held,
                        operands,
                        value,
                        pos,
                    );
                    self.heap.unlock(cell, held);
                    out
                },
            }
        } else {
            self.walk_chain(program, chain, 0, root, operands, value, pos)
        }
    }

    fn return_root(&mut self, scope: &mut Scope, place: Place, root: Dynamic)
        requires
            old(self).wf(),
            place matches Place::Entry(i) ==> i < old(scope)@.len(),
        ensures
            ({
                let (m, sc) = root_returned(old(self)@, old(scope)@, place, root@);
                final(self).passed(old(self)@, m) && final(scope)@ == sc
            }),
    {
        match place {
            Place::Entry(i) => {
                scope.put(i, root);
            },
            Place::This => {
                self.this = Some(root);
            },
            _ => {},
        }
    }

    /// Run a chain.
    fn run_chain_steps(
        &mut self,
        program: &Program,
        chain: &Chain,
        scope: &mut Scope,
        base: usize,
        pos: Position,
    ) -> (out: VmResult)
        requires
            old(self).wf(),
        ensures
            gave(
                *final(self),
                old(self)@,
                out,
                final(scope)@,
                chain_run(
                    below(levels_left(old(self)@)),
                    *program,
                    old(self)@,
                    *chain,
                    old(scope)@,
                    base,
                    pos,
                ),
            ),
        decreases levels_left(old(self)@), 4nat, chain.steps@.len() + 2, 0nat,
    {
        proof {
            reveal(chain_run);
        }
        let depth: usize = self.stack.depth();
        let taken: usize = chain.consumes();
        if depth < taken {
            return Err(malformed("chain with too few operands".to_owned()));
        }
        let operands_at: usize = depth - taken;
        let ghost left = rooted(
            *program,
            self@,
            *chain,
            scope@,
            base,
            operands_at as int,
            pos,
        ).2;
        let root = self.chain_root(program, chain, scope, base, operands_at, pos)?;
        let place = root.place;
        let ghost held = root.value@;
        proof {
            if let Place::Entry(i) = place {
                taken_and_put_back(left, i as int, held);
            }
        }
        match self.value_to_assign(program, chain, &root) {
            Err(err) => {
                self.return_root(scope, place, root.value);
                Err(err)
            },
            Ok(value) => {
                let operands = self.chain_operands(chain, operands_at);
                let mut value_at = root.value;
                let out = self.walk_root(program, chain, &mut value_at, &operands, value, pos);
                proof {
                    if let Place::Entry(i) = place {
                        taken_and_put_back(left, i as int, value_at@);
                    }
                }
                self.return_root(scope, place, value_at);
                let (value, _) = out?;
                self.truncate_stack(operands_at);
                Ok(value)
            },
        }
    }

    fn chain_operands(&self, chain: &Chain, operands_at: usize) -> (out: Vec<Dynamic>)
        requires
            self.wf(),
            operands_at + chain.operands <= self@.stack.len(),
        ensures
            all_views(out@) == chain_operands(self@, *chain, operands_at as int),
    {
        let mut out: Vec<Dynamic> = Vec::new();
        let depth: usize = self.stack.depth();
        let to: usize = operands_at + chain.operands as usize;
        let mut i: usize = operands_at;
        while i < to
            invariant
                operands_at <= i <= to,
                to == operands_at + chain.operands,
                to <= self@.stack.len(),
                self.wf(),
                out@.len() == i - operands_at,
                forall|j: int|
                    0 <= j < out@.len() ==> (#[trigger] out@[j])@ == copied(
                        self@.stack[operands_at + j],
                    ),
            decreases to - i,
        {
            out.push(clone_value(self.stack.get(i)));
            i = i + 1;
        }
        assert(all_views(out@) =~= chain_operands(self@, *chain, operands_at as int));
        out
    }

    /// Run a chain, noting the step a failure happened at.
    pub(crate) fn run_chain(
        &mut self,
        program: &Program,
        index: u16,
        chain: &Chain,
        scope: &mut Scope,
        base: usize,
        pos: Position,
    ) -> (out: VmResult)
        requires
            old(self).wf(),
        ensures
            gave(
                *final(self),
                old(self)@,
                out,
                final(scope)@,
                chain_ran(
                    below(levels_left(old(self)@)),
                    *program,
                    old(self)@,
                    index,
                    *chain,
                    old(scope)@,
                    base,
                    pos,
                ),
            ),
        decreases levels_left(old(self)@), 4nat, chain.steps@.len() + 3, 0nat,
    {
        proof {
            reveal(chain_ran);
        }
        let outer: usize = self.regs.chain_step;
        self.regs.chain_step = 0;
        let out = self.run_chain_steps(program, chain, scope, base, pos);
        let reached: usize = self.regs.chain_step;
        self.regs.chain_step = outer;
        if out.is_err() && self.regs.pending_slot.is_none() {
            self.regs.pending_slot = match chain.step_slot(reached) {
                Some(slot) => Some(slot_sum(chain_slot_base(program, index as usize), slot)),
                None => None,
            };
        }
        out
    }
}

} // verus!
