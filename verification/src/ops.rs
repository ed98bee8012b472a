//! The instructions that neither transfer control nor call a body.
//!
//! Each says what it does to the run and the scope; an instruction that fails
//! says where.
use vstd::prelude::*;

use crate::assign::{
    assigned_named, loaded_named, no_operands, resolved_var, single, stored_through, take_first,
};
use crate::bytecode::Source;
use crate::engine::{first_said, said_from, Engine};
use crate::error::{
    dispatch_failure, fail, malformed, malformed_fail, malformed_number, missing, outcome, raised,
    unnumbered, Error, Fail, FailureKind,
};
use crate::heap::{flat_copy, flattened, lockable, read_only, settled, CellView, Heap};
use crate::host::{reply_value, value_of, Ask, Reply};
use crate::machine::{
    asked, asked_in, handler_views, popped, question, Handler, Items, Iteration, Machine, Registers,
    Vm,
};
use crate::position::Position;
use crate::program::{AssignOp, Program};
use crate::scope::{declared, found, rewound, stored, taken_and_put_back, Names, Scope};
use crate::stack::{above, rotated, truncated};
use crate::text::{identifier, is_listed, is_valid_identifier, joined, listed};
use crate::value::{
    all_views, clone_value, copied, datum, name_of_type, type_text, with_mode, AccessMode, Data,
    Datum, Dict, Dynamic, FnPtr, FnPtrType, Union,
};

verus! {

/// What an instruction did: how it went, the run and the scope after.
pub type Did = (Result<(), Fail>, Machine, Names);

/// Where a local is in the scope.
pub open spec fn local_at(scope: Names, base: usize, slot: u16) -> Result<int, Fail> {
    if base + slot < scope.len() {
        Ok(base + slot)
    } else {
        Err(unnumbered("local slot "@, slot as nat, " is out of scope"@))
    }
}

/// Where a local is in the scope.
pub(crate) fn local_index(scope: &Scope, base: usize, slot: u16) -> (out: Result<usize, Error>)
    ensures
        match out {
            Ok(i) => local_at(scope@, base, slot) == Ok::<int, Fail>(i as int) && i < scope@.len(),
            Err(err) => local_at(scope@, base, slot) == Err::<int, Fail>(err@),
        },
{
    let len: usize = scope.len();
    if base < len && (slot as usize) < len - base {
        Ok(base + slot as usize)
    } else {
        Err(malformed_number("local slot ", slot as u64, " is out of scope"))
    }
}

/// The name an instruction gives by number.
pub open spec fn named(p: Program, i: int) -> Result<Seq<char>, Fail> {
    match p.name_of(i) {
        Some(name) => Ok(name),
        None => Err(unnumbered("no name "@, i as nat, ""@)),
    }
}

/// The name an instruction gives by number.
pub(crate) fn pool_name(p: &Program, i: u32) -> (out: Result<&str, Error>)
    ensures
        match out {
            Ok(name) => named(*p, i as int) == Ok::<Seq<char>, Fail>(name@),
            Err(err) => named(*p, i as int) == Err::<Seq<char>, Fail>(err@),
        },
{
    match p.name(i) {
        Some(name) => Ok(name),
        None => Err(malformed_number("no name ", i as u64, "")),
    }
}

/// The constant an instruction gives by number.
pub open spec fn constant(p: Program, i: u32) -> Result<Datum, Fail> {
    if i < p.constants@.len() {
        Ok(p.constants@[i as int]@)
    } else {
        Err(unnumbered("no constant "@, i as nat, ""@))
    }
}

/// The constant an instruction gives by number.
pub(crate) fn pool_constant(p: &Program, i: u32) -> (out: Result<&Dynamic, Error>)
    ensures
        match out {
            Ok(v) => constant(*p, i) == Ok::<Datum, Fail>(v@),
            Err(err) => constant(*p, i) == Err::<Datum, Fail>(err@),
        },
{
    if (i as usize) < p.constants.len() {
        Ok(&p.constants[i as usize])
    } else {
        Err(malformed_number("no constant ", i as u64, ""))
    }
}

/// The operator assignment an instruction gives by number, if it gives one.
pub open spec fn assign_op(p: Program, op: Option<u16>) -> Result<Option<AssignOp>, Fail> {
    match op {
        None => Ok(None),
        Some(i) => if i < p.assign_ops@.len() {
            Ok(Some(p.assign_ops@[i as int]))
        } else {
            Err(unnumbered("no op-assignment "@, i as nat, ""@))
        },
    }
}

/// The operator assignment an instruction gives by number.
pub(crate) fn pool_assign_op(p: &Program, op: Option<u16>) -> (out: Result<Option<AssignOp>, Error>)
    ensures
        match out {
            Ok(found) => assign_op(*p, op) == Ok::<Option<AssignOp>, Fail>(found),
            Err(err) => assign_op(*p, op) == Err::<Option<AssignOp>, Fail>(err@),
        },
{
    match op {
        None => Ok(None),
        Some(i) => if (i as usize) < p.assign_ops.len() {
            Ok(Some(p.assign_ops[i as usize]))
        } else {
            Err(malformed_number("no op-assignment ", i as u64, ""))
        },
    }
}

/// A value of the wrong type.
pub open spec fn mismatched(
    e: Engine,
    wanted: Seq<char>,
    actual: Seq<char>,
    pos: Position,
) -> Fail {
    fail(FailureKind::ErrorMismatchDataType(e.mapped(wanted), actual), pos)
}

/// A value of the wrong type. The expected type goes by the engine's name for
/// it and the actual one does not.
pub(crate) fn mismatch(e: &Engine, wanted: &str, actual: String, pos: Position) -> (err: Error)
    ensures
        err@ == mismatched(*e, wanted@, actual@, pos),
{
    raised(FailureKind::ErrorMismatchDataType(e.map_type_name(wanted), actual), pos)
}

/// A value as a guard: a boolean, or the type it has instead.
pub open spec fn as_guard(heap: Seq<CellView>, d: Datum) -> Result<bool, Seq<char>> {
    match flat_copy(heap, d).data {
        Data::Bool(b) => Ok(b),
        other => Err(name_of_type(other)),
    }
}

/// A value as a guard, where a boolean is wanted.
pub open spec fn guard(m: Machine, d: Datum, pos: Position) -> Result<bool, Fail> {
    match as_guard(m.heap, d) {
        Ok(b) => Ok(b),
        Err(actual) => Err(mismatched(m.engine, "bool"@, actual, pos)),
    }
}

/// A value as a string, or the type it has instead.
pub open spec fn as_text(heap: Seq<CellView>, d: Datum) -> Result<Seq<char>, Seq<char>> {
    match flat_copy(heap, d).data {
        Data::Str(s) => Ok(s),
        other => Err(name_of_type(other)),
    }
}

/// A value as a string, or the type it has instead.
pub(crate) fn text_of(heap: &Heap, value: &Dynamic) -> (out: Result<String, String>)
    ensures
        match out {
            Ok(s) => as_text(heap@, value@) == Ok::<Seq<char>, Seq<char>>(s@),
            Err(name) => as_text(heap@, value@) == Err::<Seq<char>, Seq<char>>(name@),
        },
{
    let flat = heap.flatten_clone_value(value);
    match &flat.value {
        Union::Str(s) => Ok(s.clone()),
        _ => Err(type_text(&flat)),
    }
}

/// Every value of a row read out of any cell it is in.
pub open spec fn all_flattened(heap: Seq<CellView>, row: Seq<Datum>) -> Seq<Datum> {
    Seq::new(row.len(), |i: int| flattened(heap, row[i]))
}

pub(crate) fn flatten_row(heap: &Heap, row: Vec<Dynamic>) -> (out: Vec<Dynamic>)
    ensures
        all_views(out@) == all_flattened(heap@, all_views(row@)),
{
    let ghost whole = all_views(row@);
    let mut row = row;
    let mut i: usize = 0;
    while i < row.len()
        invariant
            i <= row@.len() == whole.len(),
            forall|j: int| 0 <= j < i ==> (#[trigger] row@[j])@ == flattened(heap@, whole[j]),
            forall|j: int| i <= j < row@.len() ==> (#[trigger] row@[j])@ == whole[j],
        decreases row@.len() - i,
    {
        let value = row[i].take();
        row.set(i, heap.flatten(value));
        i = i + 1;
    }
    assert(all_views(row@) =~= all_flattened(heap@, whole));
    row
}

/// Asking for a variable leaves the operands alone.
pub proof fn resolving_keeps_stack(m: Machine, scope: Names, name: Seq<char>, pos: Position)
    ensures
        resolved_var(m, scope, name, pos).1.stack == m.stack,
{
    reveal(resolved_var);
}

// ---------------------------------------------------------------------------
// Constants and locals.

pub open spec fn did_const(p: Program, m: Machine, scope: Names, i: u16) -> Did {
    match constant(p, i as u32) {
        Ok(v) => (Ok(()), m.push(copied(v)), scope),
        Err(err) => (Err(err), m, scope),
    }
}

pub open spec fn did_load_local(m: Machine, scope: Names, base: usize, slot: u16) -> Did {
    match local_at(scope, base, slot) {
        Ok(i) => (Ok(()), m.push(flat_copy(m.heap, scope[i].1)), scope),
        Err(err) => (Err(err), m, scope),
    }
}

pub open spec fn did_load_shared(m: Machine, scope: Names, base: usize, slot: u16) -> Did {
    match local_at(scope, base, slot) {
        Ok(i) => (Ok(()), m.push(copied(scope[i].1)), scope),
        Err(err) => (Err(err), m, scope),
    }
}

/// A value stored in a local through any cell it is in, marked as a variable
/// or as a constant.
pub open spec fn did_store_local(
    p: Program,
    m: Machine,
    scope: Names,
    base: usize,
    slot: u16,
    mode: AccessMode,
    pos: Position,
) -> Did {
    match local_at(scope, base, slot) {
        Err(err) => (Err(err), m, scope),
        Ok(i) => match popped(m) {
            Err(err) => (Err(err), m, scope),
            Ok((v, m1)) => {
                let (r, entry, m2) = stored_through(
                    m1,
                    p,
                    None,
                    scope[i].1,
                    with_mode(v, mode),
                    ""@,
                    pos,
                );
                (r, m2, stored(scope, i, entry))
            },
        },
    }
}

/// A value stored in a loop variable through any cell it is in.
pub open spec fn did_store_shared(
    p: Program,
    m: Machine,
    scope: Names,
    base: usize,
    slot: u16,
    pos: Position,
) -> Did {
    match local_at(scope, base, slot) {
        Err(err) => (Err(err), m, scope),
        Ok(i) => match popped(m) {
            Err(err) => (Err(err), m, scope),
            Ok((v, m1)) => {
                let (r, entry, m2) = stored_through(m1, p, None, scope[i].1, v, ""@, pos);
                (r, m2, stored(scope, i, entry))
            },
        },
    }
}

pub open spec fn did_load_named(
    p: Program,
    m: Machine,
    scope: Names,
    name: u16,
    flatten: bool,
    pos: Position,
) -> Did {
    match named(p, name as int) {
        Err(err) => (Err(err), m, scope),
        Ok(text) => match loaded_named(m, scope, text, flatten, pos) {
            (Ok(v), m1, left) => (Ok(()), m1.push(v), left),
            (Err(err), m1, left) => (Err(err), m1, left),
        },
    }
}

pub open spec fn did_assign_named(
    p: Program,
    m: Machine,
    scope: Names,
    name: u16,
    op: Option<u16>,
    pos: Position,
) -> Did {
    match (named(p, name as int), assign_op(p, op), popped(m)) {
        (Err(err), _, _) => (Err(err), m, scope),
        (_, Err(err), _) => (Err(err), m, scope),
        (_, _, Err(err)) => (Err(err), m, scope),
        (Ok(text), Ok(op), Ok((v, m1))) => assigned_named(
            m1,
            p,
            op,
            scope,
            text,
            flattened(m1.heap, v),
            pos,
        ),
    }
}

/// The access mode a declaration gives its variable: a constant's, or that of
/// its value.
pub open spec fn declared_mode(constant: bool, value: Datum) -> AccessMode {
    if constant {
        AccessMode::ReadOnly
    } else {
        value.mode
    }
}

pub open spec fn did_declare(
    p: Program,
    m: Machine,
    scope: Names,
    name: u16,
    constant: bool,
) -> Did {
    match (named(p, name as int), popped(m)) {
        (Err(err), _) => (Err(err), m, scope),
        (_, Err(err)) => (Err(err), m, scope),
        (Ok(text), Ok((v, m1))) => (
            Ok(()),
            m1,
            declared(
                scope,
                text,
                declared_mode(constant, flattened(m1.heap, v)),
                flattened(m1.heap, v),
            ),
        ),
    }
}

/// The right-hand side of an assignment, wherever it comes from, read out of
/// any cell it is in.
pub open spec fn sourced(p: Program, m: Machine, scope: Names, base: usize, from: Source) -> (
    Result<Datum, Fail>,
    Machine,
) {
    match from {
        Source::Stack => match popped(m) {
            Ok((v, m1)) => (Ok(flattened(m1.heap, v)), m1),
            Err(err) => (Err(err), m),
        },
        Source::Local(slot) => match local_at(scope, base, slot) {
            Ok(i) => (Ok(flat_copy(m.heap, scope[i].1)), m),
            Err(err) => (Err(err), m),
        },
        Source::Const(i) => match constant(p, i) {
            Ok(v) => (Ok(flat_copy(m.heap, v)), m),
            Err(err) => (Err(err), m),
        },
    }
}

pub open spec fn did_assign_local(
    p: Program,
    m: Machine,
    scope: Names,
    base: usize,
    slot: u16,
    name: u16,
    from: Source,
    op: Option<u16>,
    pos: Position,
) -> Did {
    match assign_op(p, op) {
        Err(err) => (Err(err), m, scope),
        Ok(op) => match sourced(p, m, scope, base, from) {
            (Err(err), m1) => (Err(err), m1, scope),
            (Ok(rhs), m1) => match local_at(scope, base, slot) {
                Err(err) => (Err(err), m1, scope),
                Ok(i) => if read_only(m1.heap, scope[i].1) {
                    (
                        Err(
                            match named(p, name as int) {
                                Ok(text) => fail(FailureKind::ErrorAssignmentToConstant(text), pos),
                                Err(err) => err,
                            },
                        ),
                        m1,
                        scope,
                    )
                } else {
                    match (scope[i].1.data, named(p, name as int)) {
                        (Data::Shared(_), Err(err)) => (Err(err), m1, scope),
                        (Data::Shared(_), Ok(text)) => {
                            let (r, entry, m2) = stored_through(
                                m1,
                                p,
                                op,
                                scope[i].1,
                                rhs,
                                text,
                                pos,
                            );
                            (r, m2, stored(scope, i, entry))
                        },
                        _ => {
                            let (r, entry, m2) = stored_through(
                                m1,
                                p,
                                op,
                                scope[i].1,
                                rhs,
                                ""@,
                                pos,
                            );
                            (r, m2, stored(scope, i, entry))
                        },
                    }
                },
            },
        },
    }
}

// ---------------------------------------------------------------------------
// The receiver.

pub open spec fn did_load_this(m: Machine, scope: Names, flatten: bool, pos: Position) -> Did {
    match m.this {
        None => (Err(fail(FailureKind::ErrorUnboundThis, pos)), m, scope),
        Some(v) => (
            Ok(()),
            m.push(
                if flatten {
                    flat_copy(m.heap, v)
                } else {
                    copied(v)
                },
            ),
            scope,
        ),
    }
}

pub open spec fn did_require_this(m: Machine, scope: Names, pos: Position) -> Did {
    if m.this is None {
        (Err(fail(FailureKind::ErrorUnboundThis, pos)), m, scope)
    } else {
        (Ok(()), m, scope)
    }
}

/// The receiver assigned to: it stays bound however the assignment goes.
pub open spec fn did_assign_this(
    p: Program,
    m: Machine,
    scope: Names,
    op: Option<u16>,
    pos: Position,
) -> Did {
    match (assign_op(p, op), popped(m)) {
        (Err(err), _) => (Err(err), m, scope),
        (_, Err(err)) => (Err(err), m, scope),
        (Ok(op), Ok((v, m1))) => match m1.this {
            None => (Err(fail(FailureKind::ErrorUnboundThis, pos)), m1, scope),
            Some(this) => if read_only(m1.heap, this) {
                (Err(fail(FailureKind::ErrorAssignmentToConstant(""@), pos)), m1, scope)
            } else {
                let (r, entry, m2) = stored_through(
                    m1.with_this(None),
                    p,
                    op,
                    this,
                    flattened(m1.heap, v),
                    ""@,
                    pos,
                );
                (r, m2.with_this(Some(entry)), scope)
            },
        },
    }
}

// ---------------------------------------------------------------------------
// Fragments, the stack, literals.

pub open spec fn did_pop(m: Machine, scope: Names) -> Did {
    match popped(m) {
        Ok((_, m1)) => (Ok(()), m1, scope),
        Err(err) => (Err(err), m, scope),
    }
}

/// A fragment interpreted by the host against the scope and the receiver.
pub open spec fn did_eval_ast(
    p: Program,
    m: Machine,
    scope: Names,
    index: u16,
    rewind: bool,
    pos: Position,
) -> Did {
    if index >= p.residuals {
        (Err(unnumbered("no residual "@, index as nat, ""@)), m, scope)
    } else {
        let lent = match m.this {
            Some(this) => seq![this],
            None => Seq::empty(),
        };
        match asked_in(
            m.with_this(crate::debug::stand_in(m.this)),
            scope,
            question(Ask::Residual { index, rewind }, ""@, lent, pos),
        ) {
            (Err(err), m1, left) => (Err(err), m1, left),
            (Ok(a), m1, left) => {
                let m2 = m1.with_this(
                    match m.this {
                        Some(_) => Some(a.operands[0]),
                        None => None,
                    },
                );
                match reply_value(a.reply) {
                    Ok(v) => (Ok(()), m2.push(v), left),
                    Err(err) => (Err(err), m2, left),
                }
            },
        }
    }
}

pub open spec fn did_rotate(m: Machine, scope: Names, under: u8) -> Did {
    if m.stack.len() == 0 {
        (Err(malformed_fail("rotate on an empty stack"@)), m, scope)
    } else if under > m.stack.len() - 1 {
        (Err(malformed_fail("rotate past the bottom"@)), m, scope)
    } else {
        (Ok(()), m.with_stack(rotated(m.stack, under as int)), scope)
    }
}

/// The literal's running size goes with the literal, where it had one.
pub open spec fn without_size(m: Machine, len: u16) -> Machine {
    if len > 0 && m.sizes.len() > 0 {
        Machine { sizes: m.sizes.drop_last(), ..m }
    } else {
        m
    }
}

pub open spec fn did_make_array(m: Machine, scope: Names, len: u16) -> Did {
    if m.stack.len() < len {
        (Err(malformed_fail("array with too few elements"@)), m, scope)
    } else {
        let first = m.stack.len() - len;
        let m1 = without_size(m, len);
        (
            Ok(()),
            m1.truncate(first).push(
                datum(Data::Array(all_flattened(m.heap, above(m.stack, first)))),
            ),
            scope,
        )
    }
}

/// A map's template with the computed entries bound into it, from entry `i`.
pub open spec fn with_entries(
    heap: Seq<CellView>,
    pairs: Seq<(Seq<char>, Datum)>,
    parts: Seq<Datum>,
    i: int,
) -> Result<Seq<(Seq<char>, Datum)>, Fail>
    decreases parts.len() - i,
{
    if i < 0 || i + 1 >= parts.len() {
        Ok(pairs)
    } else {
        match as_text(heap, parts[i]) {
            Err(actual) => Err(
                malformed_fail("map key is a "@ + actual + ", not a string"@),
            ),
            Ok(key) => with_entries(
                heap,
                crate::dict::bound(pairs, key, flattened(heap, parts[i + 1])),
                parts,
                i + 2,
            ),
        }
    }
}

pub open spec fn did_make_map(m: Machine, scope: Names, len: u16) -> Did {
    if m.stack.len() < 2 * len + 1 {
        (Err(malformed_fail("map with too few operands"@)), m, scope)
    } else {
        let first = m.stack.len() - (2 * len + 1);
        let m1 = without_size(m, len).truncate(first);
        let parts = above(m.stack, first);
        match flat_copy(m.heap, parts[0]).data {
            Data::Dict(pairs) => match with_entries(m.heap, pairs, parts, 1) {
                Ok(pairs) => (Ok(()), m1.push(datum(Data::Dict(pairs))), scope),
                Err(err) => (Err(err), m1, scope),
            },
            _ => (Err(malformed_fail("map literal without a template"@)), m1, scope),
        }
    }
}

// ---------------------------------------------------------------------------
// Sharing and pointers.

/// A variable moved into a cell, unless it is in one already.
pub open spec fn shared_at(m: Machine, scope: Names, i: int) -> (Machine, Names) {
    let v = scope[i].1;
    if v.data is Shared || m.heap.len() >= usize::MAX {
        (m, scope)
    } else {
        (
            m.with_heap(m.heap.push(CellView { value: v, locked: false })),
            stored(
                scope,
                i,
                Datum { data: Data::Shared(m.heap.len() as usize), tag: v.tag, mode: v.mode },
            ),
        )
    }
}

pub open spec fn did_share(m: Machine, scope: Names, base: usize, slot: u16) -> Did {
    match local_at(scope, base, slot) {
        Err(err) => (Err(err), m, scope),
        Ok(i) => {
            let (m1, left) = shared_at(m, scope, i);
            (Ok(()), m1, left)
        },
    }
}

pub open spec fn did_share_named(
    p: Program,
    m: Machine,
    scope: Names,
    name: u16,
    pos: Position,
) -> Did {
    match named(p, name as int) {
        Err(err) => (Err(err), m, scope),
        Ok(text) => match resolved_var(m, scope, text, pos) {
            (Err(err), m1, left) => (Err(err), m1, left),
            (Ok(Some(_)), m1, left) => (Ok(()), m1, left),
            (Ok(None), m1, left) => match found(left, text) {
                None => (Err(fail(FailureKind::ErrorVariableNotFound(text), pos)), m1, left),
                Some(i) => {
                    let (m2, left2) = shared_at(m1, left, i);
                    (Ok(()), m2, left2)
                },
            },
        },
    }
}

/// How a pointer to a program's function is called: straight into its body,
/// unless the body wants a receiver or there is no such function.
pub open spec fn pointer_type(p: Program, index: u32) -> FnPtrType {
    if (exists|i: int| 0 <= i < p.functions@.len() && (#[trigger] p.functions@[i]).name == index)
        && forall|i: int|
        0 <= i < p.functions@.len() && (#[trigger] p.functions@[i]).name == index
            ==> !p.functions@[i].takes_this {
        FnPtrType::Native { program: p.id, index }
    } else {
        FnPtrType::Normal
    }
}

pub open spec fn did_make_closure(p: Program, m: Machine, scope: Names, name: u16) -> Did {
    match named(p, name as int) {
        Err(err) => (Err(err), m, scope),
        Ok(text) => (
            Ok(()),
            m.push(
                datum(
                    Data::FnPtr(
                        text,
                        Seq::empty(),
                        if m.callbacks is Some {
                            pointer_type(p, name as u32)
                        } else {
                            FnPtrType::Normal
                        },
                    ),
                ),
            ),
            scope,
        ),
    }
}

pub open spec fn did_is_shared(m: Machine, scope: Names) -> Did {
    match popped(m) {
        Ok((v, m1)) => (Ok(()), m1.push(datum(Data::Bool(v.data is Shared))), scope),
        Err(err) => (Err(err), m, scope),
    }
}

pub open spec fn did_make_fn_ptr(m: Machine, scope: Names, pos: Position) -> Did {
    match popped(m) {
        Err(err) => (Err(err), m, scope),
        Ok((v, m1)) => match as_text(m1.heap, v) {
            Err(actual) => (Err(mismatched(m1.engine, "string"@, actual, pos)), m1, scope),
            Ok(name) => if listed(m1.engine.reserved@, name) {
                (Err(fail(FailureKind::ErrorParsing(name), pos)), m1, scope)
            } else if identifier(name) {
                (
                    Ok(()),
                    m1.push(datum(Data::FnPtr(name, Seq::empty(), FnPtrType::Normal))),
                    scope,
                )
            } else {
                (Err(fail(FailureKind::ErrorFunctionNotFound(name), pos)), m1, scope)
            },
        },
    }
}

pub open spec fn did_curry(m: Machine, scope: Names, argc: u8, pos: Position) -> Did {
    if m.stack.len() < argc + 1 {
        (Err(malformed_fail("curry is missing its target"@)), m, scope)
    } else {
        let at = m.stack.len() - (argc + 1);
        let target = flat_copy(m.heap, m.stack[at]);
        match target.data {
            Data::FnPtr(name, curry, typ) => (
                Ok(()),
                m.truncate(at).push(
                    datum(Data::FnPtr(name, curry + above(m.stack, at + 1), typ)),
                ),
                scope,
            ),
            other => (Err(mismatched(m.engine, "Fn"@, name_of_type(other), pos)), m, scope),
        }
    }
}

// ---------------------------------------------------------------------------
// Interpolation.

/// A segment's text: a string's own, and the host's rendering of anything
/// else, or the name of its type where the rendering is no string.
pub open spec fn rendered(m: Machine, segment: Datum, pos: Position) -> (
    Result<Seq<char>, Fail>,
    Machine,
) {
    match segment.data {
        Data::Str(s) => (Ok(s), m),
        _ => match asked(m, question(Ask::Render, "to_string"@, seq![segment], pos)) {
            (Err(err), m1) => (Err(err), m1),
            (Ok(a), m1) => match reply_value(a.reply) {
                Err(err) => (Err(err), m1),
                Ok(v) => match v.data {
                    Data::Str(s) => (Ok(s), m1),
                    _ => (
                        Ok(m1.engine.mapped(name_of_type(flat_copy(m1.heap, v).data))),
                        m1,
                    ),
                },
            },
        },
    }
}

/// The string on top of the stack, or in the cell that is there.
pub open spec fn buffered(m: Machine) -> Option<Seq<char>> {
    if m.stack.len() == 0 {
        None
    } else {
        match m.stack.last().data {
            Data::Str(s) => Some(s),
            Data::Shared(cell) => if lockable(m.heap, cell) {
                match m.heap[cell as int].value.data {
                    Data::Str(s) => Some(s),
                    _ => None,
                }
            } else {
                None
            },
            _ => None,
        }
    }
}

/// The run with that string become another, where it is.
pub open spec fn rebuffered(m: Machine, s: Seq<char>) -> Machine {
    match m.stack.last().data {
        Data::Shared(cell) => m.with_heap(
            settled(m.heap, cell, Datum { data: Data::Str(s), ..m.heap[cell as int].value }),
        ),
        _ => m.with_stack(
            m.stack.drop_last().push(Datum { data: Data::Str(s), ..m.stack.last() }),
        ),
    }
}

/// A segment appended to the string on top of the stack, if the result is not
/// over the limit.
pub open spec fn did_append(m: Machine, scope: Names, pos: Position) -> Did {
    match popped(m) {
        Err(err) => (Err(err), m, scope),
        Ok((v, m1)) => match rendered(m1, flattened(m1.heap, v), pos) {
            (Err(err), m2) => (Err(err), m2, scope),
            (Ok(text), m2) => match buffered(m2) {
                None => (Err(malformed_fail("interpolation lost its buffer"@)), m2, scope),
                Some(so_far) => {
                    let whole = so_far + text;
                    let m3 = rebuffered(m2, whole);
                    match m3.engine.too_large(0, 0, text_size(whole)) {
                        Some(err) => (Err(err.placed(pos)), m3, scope),
                        None => (Ok(()), m3, scope),
                    }
                },
            },
        },
    }
}

/// A string with text appended to it, and how long it is then.
fn lengthened(buffer: Dynamic, text: &str) -> (out: (Dynamic, usize))
    requires
        buffer@.data is Str,
    ensures
        out.0@ == (Datum { data: Data::Str(buffer@.data->Str_0 + text@), ..buffer@ }),
        out.1 == text_size(buffer@.data->Str_0 + text@),
{
    let (tag, mode) = (buffer.tag, buffer.mode);
    let mut whole = match buffer.value {
        Union::Str(s) => s,
        _ => "".to_owned(),
    };
    whole.append(text);
    let len: usize = whole.as_str().len();
    (Dynamic { value: Union::Str(whole), tag, mode }, len)
}

/// How many bytes a string takes.
pub open spec fn text_size(s: Seq<char>) -> usize {
    vstd::utf8::encode_utf8(s).len() as usize
}

pub open spec fn did_interpolate_end(m: Machine, scope: Names) -> Did {
    match popped(m) {
        Err(err) => (Err(err), m, scope),
        Ok((v, m1)) => match as_text(m1.heap, v) {
            Ok(text) => (Ok(()), m1.push(datum(Data::Str(text))), scope),
            Err(_) => (Err(malformed_fail("interpolation lost its buffer"@)), m1, scope),
        },
    }
}

// ---------------------------------------------------------------------------
// Sizes, iteration, handlers.

/// The sizes an answer states: three integers, or nothing.
pub open spec fn measured(d: Datum) -> (nat, nat, nat) {
    match d.data {
        Data::Array(row) => if row.len() == 3 {
            (whole(row[0].data), whole(row[1].data), whole(row[2].data))
        } else {
            (0, 0, 0)
        },
        _ => (0, 0, 0),
    }
}

pub open spec fn whole(d: Data) -> nat {
    match d {
        Data::Int(i) => if i < 0 {
            0
        } else {
            i as nat
        },
        _ => 0,
    }
}

pub open spec fn capped(n: int) -> usize {
    if n > usize::MAX {
        usize::MAX
    } else {
        n as usize
    }
}

/// A literal's running size with one more element in it.
pub open spec fn grown(total: (usize, usize, usize), more: (nat, nat, nat), map: bool) -> (
    usize,
    usize,
    usize,
) {
    (
        capped(
            total.0 + more.0 + if map {
                0int
            } else {
                1
            },
        ),
        capped(
            total.1 + more.1 + if map {
                1int
            } else {
                0
            },
        ),
        capped(total.2 + more.2),
    )
}

/// The element on top of the stack folded into the literal's running size,
/// and refused if that puts the literal over a limit.
pub open spec fn did_check_size(
    m: Machine,
    scope: Names,
    index: u16,
    map: bool,
    pos: Position,
) -> Did {
    let m1 = if index == 0 {
        Machine { sizes: m.sizes.push((0, 0, 0)), ..m }
    } else {
        m
    };
    if m1.engine.max_string_size == 0 && m1.engine.max_array_size == 0 && m1.engine.max_map_size
        == 0 {
        (Ok(()), m1, scope)
    } else if m1.stack.len() == 0 {
        (Err(malformed_fail("size check with no element"@)), m1, scope)
    } else {
        match asked(m1, question(Ask::Measure, ""@, seq![copied(m1.stack.last())], pos)) {
            (Err(err), m2) => (Err(err), m2, scope),
            (Ok(a), m2) => if m2.sizes.len() == 0 {
                (Err(malformed_fail("size check outside a literal"@)), m2, scope)
            } else {
                let total = grown(
                    m2.sizes.last(),
                    match reply_value(a.reply) {
                        Ok(v) => measured(v),
                        Err(_) => (0, 0, 0),
                    },
                    map,
                );
                let m3 = Machine { sizes: m2.sizes.drop_last().push(total), ..m2 };
                match m3.engine.too_large(total.0, total.1, total.2) {
                    Some(err) => (Err(err.placed(pos)), m3, scope),
                    None => (Ok(()), m3, scope),
                }
            },
        }
    }
}

/// Whether an integer range iterates over its own integers: the first that
/// says anything says so, of the engine's modules, those imported and their
/// sub-modules.
pub open spec fn natural_range(m: Machine) -> bool {
    let said = match said_from(m.engine.ranges@, 0) {
        Some(natural) => Some(natural),
        None => match said_from(m.ranges, 0) {
            Some(natural) => Some(natural),
            None => said_from(m.engine.sub_ranges@, 0),
        },
    };
    said == Some(true)
}

/// An iteration started: an integer range walks itself where nothing else
/// says how, and the host iterates over anything else it can.
pub open spec fn did_iter_init(m: Machine, scope: Names, pos: Position) -> Did {
    match popped(m) {
        Err(err) => (Err(err), m, scope),
        Ok((v, m1)) => {
            let iterable = flattened(m1.heap, v);
            match iterable.data {
                Data::Range(from, to) if natural_range(m1) => (
                    Ok(()),
                    Machine {
                        iterators: m1.iterators.push(
                            Iteration { items: Items::IntRange { next: from, end: to }, count: (-1) as i64 },
                        ),
                        ..m1
                    },
                    scope,
                ),
                _ => match asked(m1, question(Ask::Iterate, ""@, seq![iterable], pos)) {
                    (Err(err), m2) => (Err(err), m2, scope),
                    (Ok(a), m2) => match a.reply {
                        Reply::Handle(handle, _) => (
                            Ok(()),
                            Machine {
                                iterators: m2.iterators.push(
                                    Iteration { items: Items::Hosted { handle }, count: (-1) as i64 },
                                ),
                                ..m2
                            },
                            scope,
                        ),
                        Reply::Raised(err) => (Err(err), m2, scope),
                        _ => (Err(fail(FailureKind::ErrorFor, pos)), m2, scope),
                    },
                },
            }
        },
    }
}

pub open spec fn did_iter_drop(m: Machine, scope: Names) -> Did {
    (
        Ok(()),
        if m.iterators.len() > 0 {
            Machine { iterators: m.iterators.drop_last(), ..m }
        } else {
            m
        },
        scope,
    )
}

pub open spec fn did_push_handler(
    m: Machine,
    scope: Names,
    target: u32,
    var: Option<u16>,
) -> Did {
    (
        Ok(()),
        Machine {
            handlers: m.handlers.push(
                Handler {
                    target: target as usize,
                    catch_var: var,
                    operands: m.stack.len() as usize,
                    scope_len: scope.len() as usize,
                    iters: m.iterators.len() as usize,
                    caught: None,
                },
            ),
            ..m
        },
        scope,
    )
}

pub open spec fn did_pop_handler(m: Machine, scope: Names) -> Did {
    (
        Ok(()),
        if m.handlers.len() > 0 {
            Machine { handlers: m.handlers.drop_last(), ..m }
        } else {
            m
        },
        scope,
    )
}

pub open spec fn did_unwind_to(m: Machine, scope: Names, base: usize, depth: u16) -> Did {
    let target = base + depth;
    if target > scope.len() {
        (
            Err(
                malformed_fail(
                    "unwind to "@ + crate::text::decimal_nat(capped(target) as nat) + " past a scope of "@
                        + crate::text::decimal_nat(scope.len()),
                ),
            ),
            m,
            scope,
        )
    } else {
        (Ok(()), m, rewound(scope, target))
    }
}

/// The scope's present length, as where an error goes back to.
pub open spec fn did_checkpoint(m: Machine, scope: Names) -> Did {
    (
        Ok(()),
        m.with_regs(Registers { unwind_floor: scope.len() as usize, ..m.regs }),
        scope,
    )
}

/// A value thrown, read out of any cell it is in.
pub open spec fn did_throw(m: Machine, scope: Names, pos: Position) -> Did {
    match popped(m) {
        Err(err) => (Err(err), m, scope),
        Ok((v, m1)) => (
            Err(fail(FailureKind::ErrorRuntime(flattened(m1.heap, v)), pos)),
            m1,
            scope,
        ),
    }
}

fn bind_entries(heap: &Heap, pairs: Dict, parts: Vec<Dynamic>) -> (out: Result<
    Dict,
    Error,
>)
    ensures
        match out {
            Ok(after) => with_entries(heap@, pairs@, all_views(parts@), 1) == Ok::<
                Seq<(Seq<char>, Datum)>,
                Fail,
            >(after@),
            Err(err) => with_entries(heap@, pairs@, all_views(parts@), 1) == Err::<
                Seq<(Seq<char>, Datum)>,
                Fail,
            >(err@),
        },
{
    let ghost whole = all_views(parts@);
    let ghost expected = with_entries(heap@, pairs@, whole, 1);
    let mut after = pairs;
    let mut rest = parts;
    let mut i: usize = 1;
    while i < rest.len() && rest.len() - i > 1
        invariant
            1 <= i,
            whole == all_views(parts@),
            expected == with_entries(heap@, pairs@, whole, 1),
            rest@.len() == whole.len(),
            forall|j: int| i <= j < rest@.len() ==> (#[trigger] rest@[j])@ == whole[j],
            expected == with_entries(heap@, after@, whole, i as int),
        decreases rest@.len() - i,
    {
        assert(rest@[i as int]@ == whole[i as int]);
        assert(rest@[i + 1]@ == whole[i + 1]);
        match text_of(heap, &rest[i]) {
            Err(actual) => {
                return Err(malformed(joined("map key is a ", actual.as_str(), ", not a string")));
            },
            Ok(key) => {
                let value = rest[i + 1].take();
                let value = heap.flatten(value);
                after.insert(key.as_str(), value);
                if rest.len() - i > 2 {
                    i = i + 2;
                } else {
                    assert(with_entries(heap@, after@, whole, i + 2) == Ok::<
                        Seq<(Seq<char>, Datum)>,
                        Fail,
                    >(after@));
                    return Ok(after);
                }
            },
        }
    }
    Ok(after)
}

// ---------------------------------------------------------------------------
// The instructions themselves.

impl<'e> Vm<'e> {
    /// An instruction went as expected.
    pub open(crate) spec fn did(
        self,
        before: Machine,
        out: Result<(), Error>,
        scope: Names,
        expected: Did,
    ) -> bool {
        &&& outcome(out) == expected.0
        &&& self.reached(before, expected.1)
        &&& scope == expected.2
    }

    pub(crate) fn op_const(
        &mut self,
        program: &Program,
        scope: &Scope,
        i: u16,
    ) -> (out: Result<(), Error>)
        requires
            old(self).wf(),
        ensures
            final(self).did(old(self)@, out, scope@, did_const(*program, old(self)@, scope@, i)),
    {
        let value = clone_value(pool_constant(program, i as u32)?);
        self.push(value);
        Ok(())
    }

    pub(crate) fn op_load_local(
        &mut self,
        scope: &Scope,
        base: usize,
        slot: u16,
    ) -> (out: Result<(), Error>)
        requires
            old(self).wf(),
        ensures
            final(self).did(
                old(self)@,
                out,
                scope@,
                did_load_local(old(self)@, scope@, base, slot),
            ),
    {
        let i: usize = local_index(scope, base, slot)?;
        let value = self.heap.flatten_clone_value(scope.get_by_index(i));
        self.push(value);
        Ok(())
    }

    pub(crate) fn op_load_shared(
        &mut self,
        scope: &Scope,
        base: usize,
        slot: u16,
    ) -> (out: Result<(), Error>)
        requires
            old(self).wf(),
        ensures
            final(self).did(
                old(self)@,
                out,
                scope@,
                did_load_shared(old(self)@, scope@, base, slot),
            ),
    {
        let i: usize = local_index(scope, base, slot)?;
        let value = clone_value(scope.get_by_index(i));
        self.push(value);
        Ok(())
    }

    pub(crate) fn op_store_local(
        &mut self,
        program: &Program,
        scope: &mut Scope,
        base: usize,
        slot: u16,
        mode: AccessMode,
        pos: Position,
    ) -> (out: Result<(), Error>)
        requires
            old(self).wf(),
        ensures
            final(self).did(
                old(self)@,
                out,
                final(scope)@,
                did_store_local(*program, old(self)@, old(scope)@, base, slot, mode, pos),
            ),
    {
        let i: usize = local_index(scope, base, slot)?;
        let mut value = self.pop()?;
        value.set_access_mode(mode);
        let ghost before = scope@;
        let mut entry = scope.take(i);
        let out = self.store_through(program, None, &mut entry, value, "", pos);
        proof {
            taken_and_put_back(before, i as int, entry@);
        }
        scope.put(i, entry);
        out
    }

    pub(crate) fn op_store_shared(
        &mut self,
        program: &Program,
        scope: &mut Scope,
        base: usize,
        slot: u16,
        pos: Position,
    ) -> (out: Result<(), Error>)
        requires
            old(self).wf(),
        ensures
            final(self).did(
                old(self)@,
                out,
                final(scope)@,
                did_store_shared(*program, old(self)@, old(scope)@, base, slot, pos),
            ),
    {
        let i: usize = local_index(scope, base, slot)?;
        let value = self.pop()?;
        let ghost before = scope@;
        let mut entry = scope.take(i);
        let out = self.store_through(program, None, &mut entry, value, "", pos);
        proof {
            taken_and_put_back(before, i as int, entry@);
        }
        scope.put(i, entry);
        out
    }

    pub(crate) fn op_load_named(
        &mut self,
        program: &Program,
        scope: &mut Scope,
        name: u16,
        flatten: bool,
        pos: Position,
    ) -> (out: Result<(), Error>)
        requires
            old(self).wf(),
        ensures
            final(self).did(
                old(self)@,
                out,
                final(scope)@,
                did_load_named(*program, old(self)@, old(scope)@, name, flatten, pos),
            ),
    {
        let text = pool_name(program, name as u32)?;
        let value = self.load_named(text, scope, flatten, pos)?;
        self.push(value);
        Ok(())
    }

    pub(crate) fn op_assign_named(
        &mut self,
        program: &Program,
        scope: &mut Scope,
        name: u16,
        op: Option<u16>,
        pos: Position,
    ) -> (out: Result<(), Error>)
        requires
            old(self).wf(),
        ensures
            final(self).did(
                old(self)@,
                out,
                final(scope)@,
                did_assign_named(*program, old(self)@, old(scope)@, name, op, pos),
            ),
    {
        let text = pool_name(program, name as u32)?;
        let op = pool_assign_op(program, op)?;
        let value = self.pop()?;
        let rhs = self.heap.flatten(value);
        self.assign_named(program, op, text, rhs, scope, pos)
    }

    pub(crate) fn op_declare(
        &mut self,
        program: &Program,
        scope: &mut Scope,
        name: u16,
        constant: bool,
    ) -> (out: Result<(), Error>)
        requires
            old(self).wf(),
        ensures
            final(self).did(
                old(self)@,
                out,
                final(scope)@,
                did_declare(*program, old(self)@, old(scope)@, name, constant),
            ),
    {
        let text = pool_name(program, name as u32)?;
        let value = self.pop()?;
        let value = self.heap.flatten(value);
        if constant {
            scope.push_constant_dynamic(text, value);
        } else {
            scope.push_dynamic(text, value);
        }
        Ok(())
    }

    fn source_value(
        &mut self,
        program: &Program,
        scope: &Scope,
        base: usize,
        from: Source,
    ) -> (out: Result<Dynamic, Error>)
        requires
            old(self).wf(),
        ensures
            ({
                let (r, m) = sourced(*program, old(self)@, scope@, base, from);
                crate::error::result_view(out) == r && final(self).reached(old(self)@, m)
            }),
    {
        match from {
            Source::Stack => {
                let value = self.pop()?;
                Ok(self.heap.flatten(value))
            },
            Source::Local(slot) => {
                let i: usize = local_index(scope, base, slot)?;
                Ok(self.heap.flatten_clone_value(scope.get_by_index(i)))
            },
            Source::Const(i) => Ok(self.heap.flatten_clone_value(pool_constant(program, i)?)),
        }
    }

    pub(crate) fn op_assign_local(
        &mut self,
        program: &Program,
        scope: &mut Scope,
        base: usize,
        slot: u16,
        name: u16,
        from: Source,
        op: Option<u16>,
        pos: Position,
    ) -> (out: Result<(), Error>)
        requires
            old(self).wf(),
        ensures
            final(self).did(
                old(self)@,
                out,
                final(scope)@,
                did_assign_local(*program, old(self)@, old(scope)@, base, slot, name, from, op, pos),
            ),
    {
        let op = pool_assign_op(program, op)?;
        let rhs = self.source_value(program, scope, base, from)?;
        let i: usize = local_index(scope, base, slot)?;
        if self.heap.is_read_only(scope.get_by_index(i)) {
            let text = pool_name(program, name as u32)?;
            return Err(raised(FailureKind::ErrorAssignmentToConstant(text.to_owned()), pos));
        }
        let text = if scope.get_by_index(i).is_shared() {
            pool_name(program, name as u32)?
        } else {
            ""
        };
        let ghost before = scope@;
        let mut entry = scope.take(i);
        let out = self.store_through(program, op, &mut entry, rhs, text, pos);
        proof {
            taken_and_put_back(before, i as int, entry@);
        }
        scope.put(i, entry);
        out
    }

    pub(crate) fn op_load_this(
        &mut self,
        scope: &Scope,
        flatten: bool,
        pos: Position,
    ) -> (out: Result<(), Error>)
        requires
            old(self).wf(),
        ensures
            final(self).did(
                old(self)@,
                out,
                scope@,
                did_load_this(old(self)@, scope@, flatten, pos),
            ),
    {
        let value = match &self.this {
            None => {
                return Err(raised(FailureKind::ErrorUnboundThis, pos));
            },
            Some(this) => if flatten {
                self.heap.flatten_clone_value(this)
            } else {
                clone_value(this)
            },
        };
        self.push(value);
        Ok(())
    }

    pub(crate) fn op_assign_this(
        &mut self,
        program: &Program,
        scope: &Scope,
        op: Option<u16>,
        pos: Position,
    ) -> (out: Result<(), Error>)
        requires
            old(self).wf(),
        ensures
            final(self).did(
                old(self)@,
                out,
                scope@,
                did_assign_this(*program, old(self)@, scope@, op, pos),
            ),
    {
        let op = pool_assign_op(program, op)?;
        let value = self.pop()?;
        let rhs = self.heap.flatten(value);
        let mut this = match self.this.take() {
            None => {
                return Err(raised(FailureKind::ErrorUnboundThis, pos));
            },
            Some(this) => this,
        };
        let out = if self.heap.is_read_only(&this) {
            Err(raised(FailureKind::ErrorAssignmentToConstant("".to_owned()), pos))
        } else {
            self.store_through(program, op, &mut this, rhs, "", pos)
        };
        self.this = Some(this);
        out
    }

    pub(crate) fn op_eval_ast(
        &mut self,
        program: &Program,
        scope: &mut Scope,
        index: u16,
        rewind: bool,
        pos: Position,
    ) -> (out: Result<(), Error>)
        requires
            old(self).wf(),
        ensures
            final(self).did(
                old(self)@,
                out,
                final(scope)@,
                did_eval_ast(*program, old(self)@, old(scope)@, index, rewind, pos),
            ),
    {
        if index as u32 >= program.residuals {
            return Err(malformed_number("no residual ", index as u64, ""));
        }
        let bound = self.this.is_some();
        let lent = match &mut self.this {
            Some(this) => single(this.take()),
            None => no_operands(),
        };
        let answer = self.ask_in(scope, Ask::Residual { index, rewind }, "", lent, pos)?;
        if bound {
            self.this = Some(take_first(answer.operands));
        }
        let value = value_of(answer.reply)?;
        self.push(value);
        Ok(())
    }

    pub(crate) fn op_rotate(&mut self, scope: &Scope, under: u8) -> (out: Result<(), Error>)
        requires
            old(self).wf(),
        ensures
            final(self).did(old(self)@, out, scope@, did_rotate(old(self)@, scope@, under)),
    {
        let depth: usize = self.stack.depth();
        if depth == 0 {
            return Err(malformed("rotate on an empty stack".to_owned()));
        }
        if under as usize > depth - 1 {
            return Err(malformed("rotate past the bottom".to_owned()));
        }
        self.stack.rotate(under as usize);
        Ok(())
    }

    fn drop_size(&mut self, len: u16)
        requires
            old(self).wf(),
        ensures
            final(self).reached(old(self)@, without_size(old(self)@, len)),
    {
        if len > 0 {
            let ghost before = self.sizes@;
            let _ = self.sizes.pop();
        }
    }

    pub(crate) fn op_make_array(&mut self, scope: &Scope, len: u16) -> (out: Result<(), Error>)
        requires
            old(self).wf(),
        ensures
            final(self).did(old(self)@, out, scope@, did_make_array(old(self)@, scope@, len)),
    {
        let depth: usize = self.stack.depth();
        if depth < len as usize {
            return Err(malformed("array with too few elements".to_owned()));
        }
        self.drop_size(len);
        let row = self.stack.take_values_from(depth - len as usize);
        let row = flatten_row(&self.heap, row);
        self.push(Dynamic::from_array(row));
        Ok(())
    }

    pub(crate) fn op_make_map(&mut self, scope: &Scope, len: u16) -> (out: Result<(), Error>)
        requires
            old(self).wf(),
        ensures
            final(self).did(old(self)@, out, scope@, did_make_map(old(self)@, scope@, len)),
    {
        broadcast use crate::value::view_of_composite;

        let depth: usize = self.stack.depth();
        let wanted: usize = 2 * len as usize + 1;
        if depth < wanted {
            return Err(malformed("map with too few operands".to_owned()));
        }
        self.drop_size(len);
        let parts = self.stack.take_values_from(depth - wanted);
        assert(parts@.len() == all_views(parts@).len());
        assert(all_views(parts@)[0] == parts@[0]@);
        let template = self.heap.flatten_clone_value(&parts[0]);
        let pairs = match template.value {
            Union::Dict(pairs) => pairs,
            _ => {
                return Err(malformed("map literal without a template".to_owned()));
            },
        };
        let pairs = bind_entries(&self.heap, pairs, parts)?;
        self.push(Dynamic::from_dict(pairs));
        Ok(())
    }

    fn share_at(&mut self, scope: &mut Scope, i: usize)
        requires
            old(self).wf(),
            i < old(scope)@.len(),
        ensures
            ({
                let (m, sc) = shared_at(old(self)@, old(scope)@, i as int);
                final(self).reached(old(self)@, m) && final(scope)@ == sc
            }),
    {
        if scope.get_by_index(i).is_shared() || self.heap.len() == usize::MAX {
            return;
        }
        let ghost before = scope@;
        let value = scope.take(i);
        let cell = self.heap.share(value);
        proof {
            taken_and_put_back(before, i as int, cell@);
        }
        scope.put(i, cell);
    }

    pub(crate) fn op_share(
        &mut self,
        scope: &mut Scope,
        base: usize,
        slot: u16,
    ) -> (out: Result<(), Error>)
        requires
            old(self).wf(),
        ensures
            final(self).did(
                old(self)@,
                out,
                final(scope)@,
                did_share(old(self)@, old(scope)@, base, slot),
            ),
    {
        let i: usize = local_index(scope, base, slot)?;
        self.share_at(scope, i);
        Ok(())
    }

    pub(crate) fn op_share_named(
        &mut self,
        program: &Program,
        scope: &mut Scope,
        name: u16,
        pos: Position,
    ) -> (out: Result<(), Error>)
        requires
            old(self).wf(),
        ensures
            final(self).did(
                old(self)@,
                out,
                final(scope)@,
                did_share_named(*program, old(self)@, old(scope)@, name, pos),
            ),
    {
        let text = pool_name(program, name as u32)?;
        if self.resolve_var(text, scope, pos)?.is_some() {
            return Ok(());
        }
        match scope.search(text) {
            None => Err(missing(text, pos)),
            Some(i) => {
                self.share_at(scope, i);
                Ok(())
            },
        }
    }

    pub(crate) fn op_make_closure(
        &mut self,
        program: &Program,
        scope: &Scope,
        name: u16,
    ) -> (out: Result<(), Error>)
        requires
            old(self).wf(),
        ensures
            final(self).did(
                old(self)@,
                out,
                scope@,
                did_make_closure(*program, old(self)@, scope@, name),
            ),
    {
        let text = pool_name(program, name as u32)?;
        let typ = if self.callbacks.is_some() {
            pointer(program, name as u32)
        } else {
            FnPtrType::Normal
        };
        let curry = no_operands();
        self.push(Dynamic::from_fn_ptr(FnPtr { name: text.to_owned(), curry, typ }));
        Ok(())
    }

    pub(crate) fn op_is_shared(&mut self, scope: &Scope) -> (out: Result<(), Error>)
        requires
            old(self).wf(),
        ensures
            final(self).did(old(self)@, out, scope@, did_is_shared(old(self)@, scope@)),
    {
        let value = self.pop()?;
        self.push(Dynamic::from_bool(value.is_shared()));
        Ok(())
    }

    pub(crate) fn op_make_fn_ptr(
        &mut self,
        scope: &Scope,
        pos: Position,
    ) -> (out: Result<(), Error>)
        requires
            old(self).wf(),
        ensures
            final(self).did(old(self)@, out, scope@, did_make_fn_ptr(old(self)@, scope@, pos)),
    {
        let value = self.pop()?;
        match text_of(&self.heap, &value) {
            Err(actual) => Err(mismatch(self.engine, "string", actual, pos)),
            Ok(name) => {
                if is_listed(&self.engine.reserved, name.as_str()) {
                    return Err(raised(FailureKind::ErrorParsing(name), pos));
                }
                if !is_valid_identifier(name.as_str()) {
                    return Err(raised(FailureKind::ErrorFunctionNotFound(name), pos));
                }
                let curry = no_operands();
                self.push(Dynamic::from_fn_ptr(FnPtr { name, curry, typ: FnPtrType::Normal }));
                Ok(())
            },
        }
    }

    pub(crate) fn op_curry(
        &mut self,
        scope: &Scope,
        argc: u8,
        pos: Position,
    ) -> (out: Result<(), Error>)
        requires
            old(self).wf(),
        ensures
            final(self).did(old(self)@, out, scope@, did_curry(old(self)@, scope@, argc, pos)),
    {
        broadcast use crate::value::view_of_composite;

        let depth: usize = self.stack.depth();
        if depth < argc as usize + 1 {
            return Err(malformed("curry is missing its target".to_owned()));
        }
        let at: usize = depth - (argc as usize + 1);
        let target = self.heap.flatten_clone_value(self.stack.get(at));
        let pointer = match target.value {
            Union::FnPtr(pointer) => pointer,
            _ => {
                return Err(mismatch(self.engine, "Fn", type_text(&target), pos));
            },
        };
        let ghost before = self@.stack;
        let more = self.stack.take_values_from(at + 1);
        let curry = append_row(pointer.curry, more);
        self.stack.truncate(at);
        assert(truncated(truncated(before, at + 1), at as int) =~= truncated(before, at as int));
        self.push(Dynamic::from_fn_ptr(FnPtr { name: pointer.name, curry, typ: pointer.typ }));
        Ok(())
    }

    fn render(&mut self, segment: Dynamic, pos: Position) -> (out: Result<String, Error>)
        requires
            old(self).wf(),
        ensures
            ({
                let (r, m) = rendered(old(self)@, segment@, pos);
                (match out {
                    Ok(s) => r == Ok::<Seq<char>, Fail>(s@),
                    Err(err) => r == Err::<Seq<char>, Fail>(err@),
                }) && final(self).reached(old(self)@, m)
            }),
    {
        if let Union::Str(s) = &segment.value {
            return Ok(s.clone());
        }
        let answer = self.ask(Ask::Render, "to_string", single(segment), pos)?;
        let value = value_of(answer.reply)?;
        match &value.value {
            Union::Str(s) => Ok(s.clone()),
            _ => {
                let name = type_text(&self.heap.flatten_clone_value(&value));
                Ok(self.engine.map_type_name(name.as_str()))
            },
        }
    }

    /// Append text to the string on top of the stack, in its cell where it is in
    /// one, and say how long it has become.
    fn append_text(&mut self, text: &str) -> (len: Option<usize>)
        requires
            old(self).wf(),
        ensures
            match buffered(old(self)@) {
                None => len is None && final(self).reached(old(self)@, old(self)@),
                Some(so_far) => len == Some(text_size(so_far + text@)) && final(self).reached(
                    old(self)@,
                    rebuffered(old(self)@, so_far + text@),
                ),
            },
    {
        let depth: usize = self.stack.depth();
        if depth == 0 {
            return None;
        }
        let ghost before = self@;
        let buffer = self.stack.get(depth - 1);
        if let Union::Shared(cell) = &buffer.value {
            let cell: usize = *cell;
            match self.heap.lock(cell) {
                None => None,
                Some(held) => {
                    if !held.is_string() {
                        self.heap.unlock(cell, held);
                        assert(self@.heap =~= before.heap);
                        return None;
                    }
                    let (whole, len) = lengthened(held, text);
                    self.heap.unlock(cell, whole);
                    assert(self@.heap =~= rebuffered(
                        before,
                        buffered(before)->0 + text@,
                    ).heap);
                    Some(len)
                },
            }
        } else if buffer.is_string() {
            let buffer = self.stack.take(depth - 1);
            let (whole, len) = lengthened(buffer, text);
            self.stack.set(depth - 1, whole);
            assert(self@.stack =~= rebuffered(before, buffered(before)->0 + text@).stack);
            Some(len)
        } else {
            None
        }
    }

    /// Append a segment to the string being built.
    pub(crate) fn append_segment(
        &mut self,
        scope: &Scope,
        pos: Position,
    ) -> (out: Result<(), Error>)
        requires
            old(self).wf(),
        ensures
            final(self).did(old(self)@, out, scope@, did_append(old(self)@, scope@, pos)),
    {
        let segment = self.pop()?;
        let segment = self.heap.flatten(segment);
        let text = self.render(segment, pos)?;
        let len: usize = match self.append_text(text.as_str()) {
            Some(len) => len,
            None => {
                return Err(malformed("interpolation lost its buffer".to_owned()));
            },
        };
        match self.engine.throw_on_size(0, 0, len) {
            Some(err) => Err(dispatch_failure(err, pos)),
            None => Ok(()),
        }
    }

    pub(crate) fn op_interpolate_end(&mut self, scope: &Scope) -> (out: Result<(), Error>)
        requires
            old(self).wf(),
        ensures
            final(self).did(old(self)@, out, scope@, did_interpolate_end(old(self)@, scope@)),
    {
        let buffer = self.pop()?;
        match text_of(&self.heap, &buffer) {
            Ok(text) => {
                self.push(Dynamic::from_text(text));
                Ok(())
            },
            Err(_) => Err(malformed("interpolation lost its buffer".to_owned())),
        }
    }

    /// Fold the element on top of the stack into its literal's running size.
    pub(crate) fn check_size(
        &mut self,
        scope: &Scope,
        index: u16,
        map: bool,
        pos: Position,
    ) -> (out: Result<(), Error>)
        requires
            old(self).wf(),
        ensures
            final(self).did(
                old(self)@,
                out,
                scope@,
                did_check_size(old(self)@, scope@, index, map, pos),
            ),
    {
        if index == 0 {
            self.sizes.push((0, 0, 0));
        }
        if self.engine.max_string_size == 0 && self.engine.max_array_size == 0
            && self.engine.max_map_size == 0 {
            return Ok(());
        }
        let depth: usize = self.stack.depth();
        if depth == 0 {
            return Err(malformed("size check with no element".to_owned()));
        }
        let element = clone_value(self.stack.get(depth - 1));
        let answer = self.ask(Ask::Measure, "", single(element), pos)?;
        let more = match value_of(answer.reply) {
            Ok(v) => measure(&v),
            Err(_) => (0, 0, 0),
        };
        let total = match self.sizes.pop() {
            None => {
                return Err(malformed("size check outside a literal".to_owned()));
            },
            Some(total) => total,
        };
        let total = grow(total, more, map);
        self.sizes.push(total);
        match self.engine.throw_on_size(total.0, total.1, total.2) {
            Some(err) => Err(dispatch_failure(err, pos)),
            None => Ok(()),
        }
    }

    /// Start iterating over the value on top of the stack.
    fn int_range_is_natural(&self) -> (r: bool)
        ensures
            r == natural_range(self@),
    {
        let said = match first_said(&self.engine.ranges) {
            Some(natural) => Some(natural),
            None => match first_said(&self.ranges) {
                Some(natural) => Some(natural),
                None => first_said(&self.engine.sub_ranges),
            },
        };
        match said {
            Some(natural) => natural,
            None => false,
        }
    }

    pub(crate) fn iter_init(&mut self, scope: &Scope, pos: Position) -> (out: Result<(), Error>)
        requires
            old(self).wf(),
        ensures
            final(self).did(old(self)@, out, scope@, did_iter_init(old(self)@, scope@, pos)),
    {
        let value = self.pop()?;
        let iterable = self.heap.flatten(value);
        if self.int_range_is_natural() {
            if let Union::Range(from, to) = &iterable.value {
                self.iterators.push(
                    Iteration { items: Items::IntRange { next: *from, end: *to }, count: -1 },
                );
                return Ok(());
            }
        }
        let answer = self.ask(Ask::Iterate, "", single(iterable), pos)?;
        match answer.reply {
            Reply::Handle(handle, _) => {
                self.iterators.push(Iteration { items: Items::Hosted { handle }, count: -1 });
                Ok(())
            },
            Reply::Raised(err) => Err(err),
            _ => Err(raised(FailureKind::ErrorFor, pos)),
        }
    }

    pub(crate) fn op_iter_drop(&mut self, scope: &Scope) -> (out: Result<(), Error>)
        requires
            old(self).wf(),
        ensures
            final(self).did(old(self)@, out, scope@, did_iter_drop(old(self)@, scope@)),
    {
        let _ = self.iterators.pop();
        Ok(())
    }

    pub(crate) fn op_push_handler(
        &mut self,
        scope: &Scope,
        target: u32,
        var: Option<u16>,
    ) -> (out: Result<(), Error>)
        requires
            old(self).wf(),
        ensures
            final(self).did(
                old(self)@,
                out,
                scope@,
                did_push_handler(old(self)@, scope@, target, var),
            ),
    {
        let ghost before = self@;
        let operands: usize = self.stack.depth();
        let scope_len: usize = scope.len();
        let iters: usize = self.iterators.len();
        self.handlers.push(
            Handler {
                target: target as usize,
                catch_var: var,
                operands,
                scope_len,
                iters,
                caught: None,
            },
        );
        assert(handler_views(self.handlers@) =~= did_push_handler(
            before,
            scope@,
            target,
            var,
        ).1.handlers);
        Ok(())
    }

    pub(crate) fn op_pop_handler(&mut self, scope: &Scope) -> (out: Result<(), Error>)
        requires
            old(self).wf(),
        ensures
            final(self).did(old(self)@, out, scope@, did_pop_handler(old(self)@, scope@)),
    {
        let ghost before = self@;
        let _ = self.handlers.pop();
        assert(handler_views(self.handlers@) =~= did_pop_handler(before, scope@).1.handlers);
        Ok(())
    }

    pub(crate) fn op_unwind_to(
        &mut self,
        scope: &mut Scope,
        base: usize,
        depth: u16,
    ) -> (out: Result<(), Error>)
        requires
            old(self).wf(),
        ensures
            final(self).did(
                old(self)@,
                out,
                final(scope)@,
                did_unwind_to(old(self)@, old(scope)@, base, depth),
            ),
    {
        let len: usize = scope.len();
        if base > len || depth as usize > len - base {
            let target: usize = if base > usize::MAX - depth as usize {
                usize::MAX
            } else {
                base + depth as usize
            };
            let mut text = crate::text::numbered(
                "unwind to ",
                target as u64,
                " past a scope of ",
            );
            crate::text::append_u64(&mut text, len as u64);
            return Err(malformed(text));
        }
        scope.rewind(base + depth as usize);
        Ok(())
    }

    /// Stop at a statement boundary, where a debugger is registered.
    pub(crate) fn op_throw(&mut self, scope: &Scope, pos: Position) -> (out: Result<(), Error>)
        requires
            old(self).wf(),
        ensures
            final(self).did(old(self)@, out, scope@, did_throw(old(self)@, scope@, pos)),
    {
        let value = self.pop()?;
        let value = self.heap.flatten(value);
        Err(raised(FailureKind::ErrorRuntime(value), pos))
    }
}

/// How a pointer to a program's function is called.
pub(crate) fn pointer(program: &Program, index: u32) -> (typ: FnPtrType)
    ensures
        typ == pointer_type(*program, index),
{
    let mut found = false;
    let mut i: usize = 0;
    while i < program.functions.len()
        invariant
            i <= program.functions@.len(),
            found == exists|j: int| 0 <= j < i && (#[trigger] program.functions@[j]).name == index,
            forall|j: int|
                0 <= j < i && (#[trigger] program.functions@[j]).name == index
                    ==> !program.functions@[j].takes_this,
        decreases program.functions@.len() - i,
    {
        let f = &program.functions[i];
        if f.name == index {
            if f.takes_this {
                return FnPtrType::Normal;
            }
            found = true;
        }
        i = i + 1;
    }
    if found {
        FnPtrType::Native { program: program.id, index }
    } else {
        FnPtrType::Normal
    }
}

fn append_row(row: Vec<Dynamic>, more: Vec<Dynamic>) -> (out: Vec<Dynamic>)
    ensures
        all_views(out@) == all_views(row@) + all_views(more@),
{
    let mut out = row;
    let mut more = more;
    let ghost a = out@;
    let ghost b = more@;
    out.append(&mut more);
    assert(all_views(out@) =~= all_views(a) + all_views(b));
    out
}

fn count_of(value: &Dynamic) -> (n: usize)
    ensures
        n == capped(whole(value@.data) as int),
{
    match &value.value {
        Union::Int(i) => if *i < 0 {
            0
        } else if *i as u64 > usize::MAX as u64 {
            usize::MAX
        } else {
            *i as usize
        },
        _ => 0,
    }
}

fn measure(value: &Dynamic) -> (n: (usize, usize, usize))
    ensures
        n.0 == capped(measured(value@).0 as int),
        n.1 == capped(measured(value@).1 as int),
        n.2 == capped(measured(value@).2 as int),
{
    broadcast use crate::value::view_of_composite;

    match &value.value {
        Union::Array(row) => if row.len() == 3 {
            (count_of(&row[0]), count_of(&row[1]), count_of(&row[2]))
        } else {
            (0, 0, 0)
        },
        _ => (0, 0, 0),
    }
}

fn capped_add(a: usize, b: usize) -> (n: usize)
    ensures
        n == capped(a + b),
{
    if a > usize::MAX - b {
        usize::MAX
    } else {
        a + b
    }
}

fn grow(total: (usize, usize, usize), more: (usize, usize, usize), map: bool) -> (out: (
    usize,
    usize,
    usize,
))
    ensures
        forall|n: (nat, nat, nat)|
            more.0 == capped(n.0 as int) && more.1 == capped(n.1 as int) && more.2 == capped(
                n.2 as int,
            ) ==> out == #[trigger] grown(total, n, map),
{
    let arrays: usize = capped_add(total.0, more.0);
    let maps: usize = capped_add(total.1, more.1);
    (
        if map {
            arrays
        } else {
            capped_add(arrays, 1)
        },
        if map {
            capped_add(maps, 1)
        } else {
            maps
        },
        capped_add(total.2, more.2),
    )
}

} // verus!
