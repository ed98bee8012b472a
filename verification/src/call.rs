//! Calling: compiled functions, host functions, receivers and pointers.
//!
//! A compiled call runs a body of the program in a frame of its own; it is what
//! everything else here leads to or goes round. What running a body gives is
//! the first argument of the functions below that lead to one.
use vstd::prelude::*;

use crate::assign::{dispatched, first_of, no_operands, take_first};
use crate::bytecode::Receiver;
use crate::debug::{exit_reported, listed_call};
use crate::error::{
    dispatch_failure, fail, is_failure, malformed, malformed_fail, raised, reposition, result_view,
    unwound, Error, Fail, FailureKind, VmResult,
};
use crate::frame::{below, executed, Entry, Runner};
use crate::heap::{flat_copy, read_only, CellView, Heap};
use crate::host::{reply_value, value_of, Ask};
use crate::machine::{asked, counted, fault_recorded, opt_view, question, Machine, Registers, Vm};
use crate::ops::{local_at, local_index, mismatch, mismatched, named, pool_name};
use crate::position::Position;
use crate::program::{Function, Program};
use crate::scope::{declared, found, rewound, stored, taken_and_put_back, Names, Scope};
use crate::site::{host_called, site_of, syntactic, Gave};
use crate::stack::{above, opened, truncated};
use crate::value::{
    all_copied, all_views, clone_value, copied, name_of_type, type_text, unit, with_mode,
    AccessMode, Data, Datum, Dynamic, Union,
};

verus! {

/// How many more calls may nest.
pub open spec fn levels_left(m: Machine) -> nat {
    if m.regs.level < m.engine.max_call_levels {
        (m.engine.max_call_levels - m.regs.level) as nat
    } else {
        0
    }
}

/// What a call gives: its value, the receiver it was lent, the run and the
/// scope it was run in.
#[verifier::ext_equal]
pub struct Called {
    pub result: Result<Datum, Fail>,
    pub this: Option<Datum>,
    pub m: Machine,
    pub scope: Names,
}

// ---------------------------------------------------------------------------
// Receivers.

/// A receiver as a callee gets it: read-only ones are copied, and others moved.
pub open spec fn bound_this(heap: Seq<CellView>, receiver: Datum) -> Datum {
    if read_only(heap, receiver) {
        with_mode(copied(receiver), AccessMode::ReadOnly)
    } else {
        receiver
    }
}

/// What a bound receiver leaves behind.
pub open spec fn left_behind(heap: Seq<CellView>, receiver: Datum) -> Datum {
    if read_only(heap, receiver) {
        receiver
    } else {
        unit()
    }
}

/// The receiver's place after the call: what the callee left of it, unless it
/// was read-only.
pub open spec fn unbound_this(
    heap: Seq<CellView>,
    receiver: Datum,
    returned: Option<Datum>,
) -> Datum {
    if read_only(heap, receiver) {
        receiver
    } else {
        match returned {
            Some(v) => v,
            None => unit(),
        }
    }
}

/// A read-only receiver is left alone whatever the callee did to its copy, and
/// any other comes back as the callee left it.
pub proof fn receivers_come_back(heap: Seq<CellView>, receiver: Datum, v: Datum)
    ensures
        read_only(heap, receiver) ==> unbound_this(heap, receiver, Some(v)) == receiver
            && bound_this(heap, receiver).mode == AccessMode::ReadOnly,
        !read_only(heap, receiver) ==> bound_this(heap, receiver) == receiver && unbound_this(
            heap,
            receiver,
            Some(v),
        ) == v,
        unbound_this(heap, receiver, Some(bound_this(heap, receiver))) == receiver,
{
}

/// Take a receiver for a callee to own, and say whether it goes back.
pub(crate) fn bind_this(heap: &Heap, receiver: &mut Dynamic) -> (out: (Dynamic, bool))
    ensures
        out.0@ == bound_this(heap@, old(receiver)@),
        out.1 == !read_only(heap@, old(receiver)@),
        final(receiver)@ == left_behind(heap@, old(receiver)@),
{
    if heap.is_read_only(receiver) {
        (clone_value(receiver).into_read_only(), false)
    } else {
        (receiver.take(), true)
    }
}

/// Put a receiver back where it was taken from.
pub(crate) fn unbind_this(receiver: &mut Dynamic, taken: Option<Dynamic>, write_back: bool)
    ensures
        final(receiver)@ == (if write_back && taken is Some {
            taken->0@
        } else {
            old(receiver)@
        }),
{
    if write_back {
        if let Some(value) = taken {
            *receiver = value;
        }
    }
}

// ---------------------------------------------------------------------------
// Compiled calls.

/// The arguments from `first` up moved into the scope as parameters, from
/// parameter `j`: whether there were enough, and the stack and scope after.
pub open spec fn params_bound(
    stack: Seq<Datum>,
    scope: Names,
    params: Seq<String>,
    first: int,
    j: int,
) -> (bool, Seq<Datum>, Names)
    decreases params.len() - j,
{
    if j < 0 || j >= params.len() {
        (true, stack, scope)
    } else if first + j >= stack.len() {
        (false, stack, scope)
    } else {
        let v = stack[first + j];
        params_bound(
            stack.update(first + j, unit()),
            declared(scope, params[j]@, v.mode, v),
            params,
            first,
            j + 1,
        )
    }
}

/// What a body's failure is to its caller: a `return` is the body's value,
/// exits and the run's own failures pass through blamed on the call, and
/// anything else is attributed to the call.
pub open spec fn attributed(
    result: Result<Datum, Fail>,
    name: Seq<char>,
    source: Option<Seq<char>>,
    pos: Position,
) -> Result<Datum, Fail> {
    match result {
        Ok(v) => Ok(v),
        Err(err) => match err.kind {
            FailureKind::Return(v) => Ok(v),
            FailureKind::Exit(_) => Err(err.at(pos)),
            _ => if err.system() {
                Err(err.at(pos))
            } else {
                Err(
                    fail(
                        FailureKind::ErrorInFunctionCall(
                            name,
                            match source {
                                Some(s) => s,
                                None => ""@,
                            },
                            Box::new(err),
                        ),
                        pos,
                    ),
                )
            },
        },
    }
}

/// The scope after a call: cut back to where it began, or with only the
/// parameters dropped.
pub open spec fn scope_after(scope: Names, start: int, end: int, rewind: bool) -> Names {
    if rewind || scope.len() <= start {
        rewound(scope, start)
    } else if end <= scope.len() {
        scope.subrange(0, start) + scope.subrange(end, scope.len() as int)
    } else {
        scope.subrange(0, start)
    }
}

/// The values of the variables from `start` on.
pub open spec fn bound_args(names: Names, start: int) -> Seq<Datum> {
    Seq::new((names.len() - start) as nat, |i: int| names[start + i].1)
}

/// A body run with its arguments bound, in a level of its own.
#[verifier::opaque]
pub open spec fn body_called(
    k: Runner,
    p: Program,
    m: Machine,
    scope: Names,
    f: Function,
    name: Seq<char>,
    first: int,
    rewind: bool,
    pos: Position,
) -> Gave
{
    if f.param_names@.len() > m.engine.max_variables {
        (Err(fail(FailureKind::ErrorTooManyVariables, pos)), m, scope)
    } else {
        let (enough, stack, names) = params_bound(m.stack, scope, f.param_names@, first, 0);
        let m1 = m.with_stack(stack);
        if !enough {
            (Err(malformed_fail("call with too few arguments"@)), m1, names)
        } else {
            let m2 = listed_call(m1, name, bound_args(names, scope.len() as int), pos);
            let ran = k(
                Entry {
                    p,
                    m: m2,
                    scope: names,
                    entry: f.chunk.entry,
                    base: scope.len() as usize,
                },
            );
            let (result, m3, left) = exit_reported(
                ran.m,
                ran.scope,
                attributed(ran.result, name, ran.m.source, pos),
                m.call_stack.len() as int,
                pos,
            );
            (
                result,
                if unwound(ran.result) is Err {
                    fault_recorded(m3, ran.reached)
                } else {
                    m3
                },
                scope_after(left, scope.len() as int, names.len() as int, rewind),
            )
        }
    }
}

/// A compiled function called against a receiver it owns for the duration. The
/// caller's own receiver is out of its reach, and back afterwards.
#[verifier::opaque]
pub open spec fn called_with_this(
    k: Runner,
    p: Program,
    m: Machine,
    scope: Names,
    f: Function,
    name: Seq<char>,
    first: int,
    rewind: bool,
    pos: Position,
    this: Option<Datum>,
) -> Called
{
    match counted(m.with_this(this), pos) {
        (Err(err), m1) => Called {
            result: Err(err),
            this: m1.this,
            m: m1.with_this(m.this),
            scope,
        },
        (Ok(_), m1) => if m1.regs.level >= m1.engine.max_call_levels {
            Called {
                result: Err(fail(FailureKind::ErrorStackOverflow, pos)),
                this: m1.this,
                m: m1.with_this(m.this),
                scope,
            }
        } else {
            let m2 = m1.with_regs(
                Registers { level: (m1.regs.level + 1) as usize, ..m1.regs },
            );
            let (result, m3, left) = body_called(
                k,
                p,
                m2,
                scope,
                f,
                name,
                first,
                rewind,
                pos,
            );
            Called {
                result,
                this: m3.this,
                m: m3.with_regs(
                    Registers { level: m1.regs.level, ..m3.regs },
                ).with_this(m.this),
                scope: left,
            }
        },
    }
}

/// A compiled function called with no receiver, in an empty scope.
pub open spec fn called_plain(
    k: Runner,
    p: Program,
    m: Machine,
    f: Function,
    name: Seq<char>,
    first: int,
    pos: Position,
) -> (Result<Datum, Fail>, Machine)
{
    let c = called_with_this(k, p, m, Names::empty(), f, name, first, true, pos, None);
    (c.result, c.m)
}

/// A call by name with its arguments on the stack from `first` up: one the
/// machine answers itself, a compiled function, or the host's. A capturing
/// call runs in the caller's scope, and any other in an empty one.
#[verifier::opaque]
pub open spec fn called(
    k: Runner,
    p: Program,
    m: Machine,
    scope: Names,
    index: u32,
    name: Seq<char>,
    argc: int,
    first: int,
    capture: bool,
    pos: Position,
) -> Gave
{
    match syntactic(p, m, scope, name, argc, first, pos) {
        (Err(err), m1) => (Err(err), m1, scope),
        (Ok(Some(v)), m1) => (Ok(v), m1, scope),
        (Ok(None), m1) => match p.plain_from(index, argc, 0) {
            None => host_called(m1, scope, index, name, first, capture, pos),
            Some(i) => if capture {
                let c = called_with_this(
                    k,
                    p,
                    m1,
                    scope,
                    p.functions@[i],
                    name,
                    first,
                    true,
                    pos,
                    None,
                );
                (c.result, c.m, c.scope)
            } else {
                let (r, m2) = called_plain(k, p, m1, p.functions@[i], name, first, pos);
                (r, m2, scope)
            },
        },
    }
}

// ---------------------------------------------------------------------------
// Calls by reference.

/// A call's value, with its operands dropped where it went well.
pub open spec fn settled_call(gave: Gave, first: int) -> Gave {
    match gave.0 {
        Ok(v) => (Ok(v), gave.1.truncate(first), gave.2),
        Err(err) => gave,
    }
}

/// The operand a variable becomes when it cannot be lent.
pub open spec fn with_operand(m: Machine, first: int, v: Datum) -> Machine {
    m.reserve(1).with_stack(opened(m.stack, first, 1).update(first, v))
}

/// A host function called with a variable of the scope as its first argument,
/// by reference.
pub open spec fn lent_call(
    m: Machine,
    scope: Names,
    i: int,
    index: u32,
    name: Seq<char>,
    rest: int,
    first: int,
    pos: Position,
) -> Gave {
    let args = seq![scope[i].1] + above(m.stack, rest);
    match site_of(m.truncate(first), index, name, args, pos) {
        (Err(err), m1) => (Err(err), m1, scope),
        (Ok(site), m1) => {
            let (r, left, m2) = dispatched(m1, name, args, true, false, site, pos);
            (r, m2, stored(scope, i, first_of(left)))
        },
    }
}

/// A host function called with the receiver as its first argument, by
/// reference.
pub open spec fn lent_this_call(
    m: Machine,
    this: Datum,
    index: u32,
    name: Seq<char>,
    first: int,
    pos: Position,
) -> (Result<Datum, Fail>, Machine) {
    let args = seq![this] + above(m.stack, first + 1);
    match site_of(m.truncate(first).with_this(None), index, name, args, pos) {
        (Err(err), m1) => (Err(err), m1.with_this(Some(this))),
        (Ok(site), m1) => {
            let (r, left, m2) = dispatched(m1, name, args, true, false, site, pos);
            (r, m2.with_this(Some(first_of(left))))
        },
    }
}

/// A call with the receiver as its first argument. The snapshot of it already
/// on the stack is what is passed where the receiver itself cannot be lent.
#[verifier::opaque]
pub open spec fn called_by_this(
    k: Runner,
    p: Program,
    m: Machine,
    scope: Names,
    index: u32,
    name: Seq<char>,
    argc: int,
    capture: bool,
    pos: Position,
) -> Gave
{
    if m.stack.len() < argc {
        (Err(malformed_fail("call with too few arguments"@)), m, scope)
    } else {
        let first = m.stack.len() - argc;
        match m.this {
            Some(this) if !(this.data is Shared) && p.plain_from(index, argc, 0) is None => {
                let (r, m1) = lent_this_call(m, this, index, name, first, pos);
                (r, m1, scope)
            },
            _ => settled_call(
                called(k, p, m, scope, index, name, argc, first, capture, pos),
                first,
            ),
        }
    }
}

/// A call with a variable as its first argument: by reference where it can be
/// lent to a host function, and as a copy otherwise.
#[verifier::opaque]
pub open spec fn called_by_reference(
    k: Runner,
    p: Program,
    m: Machine,
    scope: Names,
    base: usize,
    index: u32,
    name: Seq<char>,
    argc: int,
    receiver: Receiver,
    capture: bool,
    pos: Position,
) -> Gave
{
    if argc == 0 {
        (Err(malformed_fail("a call by reference with no receiver"@)), m, scope)
    } else {
        match receiver {
            Receiver::This => called_by_this(k, p, m, scope, index, name, argc, capture, pos),
            Receiver::Local(slot) => match local_at(scope, base, slot) {
                Err(err) => (Err(err), m, scope),
                Ok(i) => if m.stack.len() < argc - 1 {
                    (Err(malformed_fail("call with too few arguments"@)), m, scope)
                } else {
                    let first = m.stack.len() - (argc - 1);
                    if !(scope[i].1.data is Shared) && !read_only(m.heap, scope[i].1)
                        && p.plain_from(index, argc, 0) is None {
                        lent_call(m, scope, i, index, name, first, first, pos)
                    } else {
                        let m1 = with_operand(m, first, flat_copy(m.heap, scope[i].1));
                        settled_call(
                            called(k, p, m1, scope, index, name, argc, first, capture, pos),
                            first,
                        )
                    }
                },
            },
            Receiver::Named(var) => match named(p, var as int) {
                Err(err) => (Err(err), m, scope),
                Ok(var) => if m.stack.len() < argc {
                    (Err(malformed_fail("call with too few arguments"@)), m, scope)
                } else {
                    let first = m.stack.len() - argc;
                    match found(scope, var) {
                        Some(i) if !read_only(m.heap, m.stack[first])
                            && !(scope[i].1.data is Shared) && !read_only(m.heap, scope[i].1)
                            && p.plain_from(index, argc, 0) is None => lent_call(
                            m,
                            scope,
                            i,
                            index,
                            name,
                            first + 1,
                            first,
                            pos,
                        ),
                        _ => settled_call(
                            called(k, p, m, scope, index, name, argc, first, capture, pos),
                            first,
                        ),
                    }
                },
            },
        }
    }
}

// ---------------------------------------------------------------------------
// Function pointers.

/// A written receiver carried back to where it came from.
pub open spec fn receiver_returned(
    p: Program,
    m: Machine,
    scope: Names,
    base: usize,
    receiver: Option<Receiver>,
    value: Datum,
) -> (Result<(), Fail>, Machine, Names) {
    if value.data is Shared || read_only(m.heap, value) {
        (Ok(()), m, scope)
    } else {
        match receiver {
            None => (Ok(()), m, scope),
            Some(Receiver::Local(slot)) => match local_at(scope, base, slot) {
                Err(err) => (Err(err), m, scope),
                Ok(i) => (Ok(()), m, stored(scope, i, value)),
            },
            Some(Receiver::Named(var)) => match named(p, var as int) {
                Err(err) => (Err(err), m, scope),
                Ok(name) => match found(scope, name) {
                    Some(i) if scope[i].1.mode == AccessMode::ReadWrite => (
                        Ok(()),
                        m,
                        stored(scope, i, value),
                    ),
                    _ => (Ok(()), m, scope),
                },
            },
            Some(Receiver::This) => (
                Ok(()),
                match m.this {
                    Some(_) => m.with_this(Some(value)),
                    None => m,
                },
                scope,
            ),
        }
    }
}

/// A pointer the machine has no body for, called by the host: its value, and
/// the receiver as the host left it.
pub open spec fn pointer_asked(
    m: Machine,
    pointer: Datum,
    bound: Option<Datum>,
    args: Seq<Datum>,
    pos: Position,
) -> (Result<Datum, Fail>, Option<Datum>, Machine) {
    let lent = match bound {
        Some(this) => seq![this],
        None => Seq::empty(),
    };
    match asked(
        m,
        question(
            Ask::CallPointer { bound: bound is Some },
            ""@,
            seq![pointer] + lent + args,
            pos,
        ),
    ) {
        (Err(err), m1) => (Err(err), None, m1),
        (Ok(a), m1) => (
            match reply_value(a.reply) {
                Ok(v) => Ok(v),
                Err(err) => Err(err.placed(pos)),
            },
            match bound {
                Some(_) => Some(a.operands[1]),
                None => None,
            },
            m1,
        ),
    }
}

/// A pointer called with what is on the stack above it, against a receiver if
/// one is bound: straight into a compiled function of its name, with its
/// curried arguments in front, or by the host.
#[verifier::opaque]
pub open spec fn pointer_called(
    k: Runner,
    p: Program,
    m: Machine,
    at: int,
    pointer: Datum,
    bound: Option<Datum>,
    pos: Position,
) -> (Result<Datum, Fail>, Option<Datum>, Machine)
{
    match pointer.data {
        Data::FnPtr(name, curry, _) => {
            let args = above(m.stack, at + 1);
            match p.texted_from(name, (curry.len() + args.len()) as int, 0) {
                Some(i) => {
                    let c = called_with_this(
                        k,
                        p,
                        m.truncate(at + 1).push_all(all_copied(curry)).push_all(args),
                        Names::empty(),
                        p.functions@[i],
                        name,
                        at + 1,
                        true,
                        pos,
                        bound,
                    );
                    (c.result, c.this, c.m)
                },
                None => pointer_asked(m.truncate(at + 1), pointer, bound, args, pos),
            }
        },
        _ => (Err(mismatched(m.engine, "Fn"@, name_of_type(pointer.data), pos)), bound, m),
    }
}

/// A receiver's operand slot after a call through it.
pub open spec fn slot_restored(m: Machine, at: int, returned: Option<Datum>) -> Machine {
    match returned {
        Some(v) => if at < m.stack.len() {
            m.with_stack(m.stack.update(at, v))
        } else {
            m
        },
        None => m,
    }
}

/// A pointer called: the one under its arguments, or in method position the
/// first argument, with what stands under it as the receiver.
#[verifier::opaque]
pub open spec fn called_fn_ptr(
    k: Runner,
    p: Program,
    m: Machine,
    scope: Names,
    base: usize,
    argc: int,
    method: bool,
    receiver: Option<Receiver>,
    pos: Position,
) -> Gave
{
    if m.stack.len() < argc + 1 {
        (Err(malformed_fail("function pointer call is missing its target"@)), m, scope)
    } else {
        let start = m.stack.len() - (argc + 1);
        let target = flat_copy(m.heap, m.stack[start]);
        if !method || target.data is FnPtr {
            if !(target.data is FnPtr) {
                (Err(mismatched(m.engine, "Fn"@, name_of_type(target.data), pos)), m, scope)
            } else {
                let (r, _, m1) = pointer_called(k, p, m, start, target, None, pos);
                (r, m1.truncate_where(r, start), scope)
            }
        } else if argc == 0 {
            (Err(mismatched(m.engine, "Fn"@, name_of_type(target.data), pos)), m, scope)
        } else {
            let pointer = flat_copy(m.heap, m.stack[start + 1]);
            if !(pointer.data is FnPtr) {
                (Err(mismatched(m.engine, "Fn"@, name_of_type(pointer.data), pos)), m, scope)
            } else {
                let held = m.stack[start];
                let m1 = m.with_stack(m.stack.update(start, left_behind(m.heap, held)));
                let (r, returned, m2) = pointer_called(
                    k,
                    p,
                    m1,
                    start + 1,
                    pointer,
                    Some(bound_this(m.heap, held)),
                    pos,
                );
                if read_only(m.heap, held) {
                    (r, m2.truncate_where(r, start), scope)
                } else {
                    let m3 = slot_restored(m2, start, returned);
                    match receiver_returned(
                        p,
                        m3,
                        scope,
                        base,
                        receiver,
                        copied(crate::site::operand(m3, start)),
                    ) {
                        (Err(err), m4, left) => (Err(err), m4, left),
                        (Ok(_), m4, left) => (r, m4.truncate_where(r, start), left),
                    }
                }
            }
        }
    }
}

impl Machine {
    /// The operands dropped down to `depth`, where a call went well.
    pub open spec fn truncate_where(self, r: Result<Datum, Fail>, depth: int) -> Machine {
        if r is Ok {
            self.truncate(depth)
        } else {
            self
        }
    }
}


// ---------------------------------------------------------------------------
// The calls themselves.

/// What running something gave is what was expected.
pub open(crate) spec fn gave(
    vm: Vm,
    before: Machine,
    out: VmResult,
    scope: Names,
    expected: Gave,
) -> bool {
    &&& result_view(out) == expected.0
    &&& vm.reached(before, expected.1)
    &&& scope == expected.2
}

fn attribute(
    result: VmResult,
    name: &str,
    source: &Option<String>,
    pos: Position,
) -> (out: VmResult)
    ensures
        result_view(out) == attributed(
            result_view(result),
            name@,
            crate::machine::text_view(*source),
            pos,
        ),
{
    match result {
        Ok(v) => Ok(v),
        Err(err) => {
            if matches!(err.kind, FailureKind::Return(_)) {
                match err.kind {
                    FailureKind::Return(v) => Ok(v),
                    _ => Ok(Dynamic::unit()),
                }
            } else if matches!(err.kind, FailureKind::Exit(_)) || err.is_system_exception() {
                Err(reposition(err, pos))
            } else {
                let from = match source {
                    Some(s) => s.clone(),
                    None => "".to_owned(),
                };
                Err(
                    raised(
                        FailureKind::ErrorInFunctionCall(name.to_owned(), from, Box::new(err)),
                        pos,
                    ),
                )
            }
        },
    }
}

fn trim_scope(scope: &mut Scope, start: usize, end: usize, rewind: bool)
    requires
        start <= end,
    ensures
        final(scope)@ == scope_after(old(scope)@, start as int, end as int, rewind),
{
    let len: usize = scope.len();
    if rewind || len <= start {
        scope.rewind(start);
    } else if end <= len {
        scope.remove_range(start, end - start);
    } else {
        scope.rewind(start);
    }
}

impl<'e> Vm<'e> {
    /// Move the arguments of a call into its scope.
    fn bind_params(&mut self, f: &Function, first: usize, scope: &mut Scope) -> (enough: bool)
        requires
            old(self).wf(),
        ensures
            ({
                let (e, stack, names) = params_bound(
                    old(self)@.stack,
                    old(scope)@,
                    f.param_names@,
                    first as int,
                    0,
                );
                enough == e && final(self).reached(
                    old(self)@,
                    old(self)@.with_stack(stack),
                ) && final(scope)@ == names && names.len() >= old(scope)@.len()
            }),
    {
        let ghost expected = params_bound(
            self@.stack,
            scope@,
            f.param_names@,
            first as int,
            0,
        );
        let ghost m0 = self@;
        let mut j: usize = 0;
        while j < f.param_names.len()
            invariant
                j <= f.param_names@.len(),
                self.wf(),
                self@ == m0.with_stack(self@.stack),
                m0 == old(self)@,
                scope@.len() >= old(scope)@.len(),
                expected == params_bound(
                    old(self)@.stack,
                    old(scope)@,
                    f.param_names@,
                    first as int,
                    0,
                ),
                expected == params_bound(
                    self@.stack,
                    scope@,
                    f.param_names@,
                    first as int,
                    j as int,
                ),
            decreases f.param_names@.len() - j,
        {
            let depth: usize = self.stack.depth();
            if first >= depth || j >= depth - first {
                return false;
            }
            let value = self.stack.take(first + j);
            let mode = value.mode;
            scope.push_entry(f.param_names[j].clone(), mode, value);
            j = j + 1;
        }
        true
    }

    /// Run a body with its arguments bound.
    fn call_compiled_body(
        &mut self,
        program: &Program,
        f: &Function,
        name: &str,
        first: usize,
        scope: &mut Scope,
        rewind: bool,
        pos: Position,
    ) -> (out: VmResult)
        requires
            old(self).wf(),
        ensures
            gave(
                *final(self),
                old(self)@,
                out,
                final(scope)@,
                body_called(
                    below(levels_left(old(self)@) + 1),
                    *program,
                    old(self)@,
                    old(scope)@,
                    *f,
                    name@,
                    first as int,
                    rewind,
                    pos,
                ),
            ),
            out is Ok && old(self)@.regs.last_generation < u64::MAX
                ==> final(self)@.regs.last_generation > old(self)@.regs.last_generation,
        decreases levels_left(old(self)@), 9nat, 0nat, 0nat,
    {
        proof {
            reveal(body_called);
            crate::frame::below_runs(levels_left(self@) + 1);
        }
        if f.param_names.len() > self.engine.max_variables {
            return Err(raised(FailureKind::ErrorTooManyVariables, pos));
        }
        let start: usize = scope.len();
        if !self.bind_params(f, first, scope) {
            return Err(malformed("call with too few arguments".to_owned()));
        }
        let end: usize = scope.len();
        let calls: usize = self.call_stack.len();
        self.list_call(name, scope, start, pos);
        let ghost e = Entry {
            p: *program,
            m: self@,
            scope: scope@,
            entry: f.chunk.entry,
            base: start,
        };
        assert(below(levels_left(self@) + 1)(e) == executed(levels_left(self@), e));
        let mut reached: usize = f.chunk.entry as usize;
        let result = self.execute(program, scope, f.chunk.entry, start, &mut reached);
        let failed = is_failure(&result);
        let result = attribute(result, name, &self.source, pos);
        let result = self.at_function_exit(scope, result, calls, pos);
        trim_scope(scope, start, end, rewind);
        if failed {
            self.record_fault(reached);
        }
        result
    }

    /// Call a compiled function against a receiver it owns for the duration.
    ///
    /// The receiver comes back however the call ended, so a body that wrote to
    /// it and then raised has still written. One comes back exactly where one was
    /// lent, and the caller's own and its level are what they were. A call that
    /// gives a value has had a frame with a number of its own.
    pub(crate) fn call_compiled_with_this(
        &mut self,
        program: &Program,
        f: &Function,
        name: &str,
        first: usize,
        scope: &mut Scope,
        rewind: bool,
        pos: Position,
        this: Option<Dynamic>,
    ) -> (out: (VmResult, Option<Dynamic>))
        requires
            old(self).wf(),
        ensures
            ({
                let c = called_with_this(
                    below(levels_left(old(self)@)),
                    *program,
                    old(self)@,
                    old(scope)@,
                    *f,
                    name@,
                    first as int,
                    rewind,
                    pos,
                    opt_view(this),
                );
                result_view(out.0) == c.result && opt_view(out.1) == c.this
                    && final(self).reached(old(self)@, c.m) && final(scope)@ == c.scope
            }),
            out.1 is Some == this is Some,
            final(self)@.this == old(self)@.this,
            final(self)@.regs.level == old(self)@.regs.level,
            out.0 is Ok && old(self)@.regs.last_generation < u64::MAX
                ==> final(self)@.regs.last_generation > old(self)@.regs.last_generation,
        decreases levels_left(old(self)@), 2nat, 0nat, 0nat,
    {
        proof {
            reveal(called_with_this);
        }
        let mut swapped = this;
        core::mem::swap(&mut self.this, &mut swapped);
        let saved = swapped;
        let result = match self.track_operation(pos) {
            Err(err) => Err(err),
            Ok(_) => {
                if self.regs.level >= self.engine.max_call_levels {
                    Err(raised(FailureKind::ErrorStackOverflow, pos))
                } else {
                    self.regs.level = self.regs.level + 1;
                    let result = self.call_compiled_body(
                        program,
                        f,
                        name,
                        first,
                        scope,
                        rewind,
                        pos,
                    );
                    self.regs.level = self.regs.level - 1;
                    result
                }
            },
        };
        let mut returned = saved;
        core::mem::swap(&mut self.this, &mut returned);
        (result, returned)
    }

    /// Call a compiled function with no receiver, in a scope lent to it.
    pub(crate) fn call_compiled(
        &mut self,
        program: &Program,
        f: &Function,
        name: &str,
        first: usize,
        pos: Position,
    ) -> (out: VmResult)
        requires
            old(self).wf(),
        ensures
            ({
                let (r, m) = called_plain(
                    below(levels_left(old(self)@)),
                    *program,
                    old(self)@,
                    *f,
                    name@,
                    first as int,
                    pos,
                );
                result_view(out) == r && final(self).reached(old(self)@, m)
            }),
        decreases levels_left(old(self)@), 3nat, 0nat, 0nat,
    {
        let mut detached = self.take_scope();
        let (result, _) = self.call_compiled_with_this(
            program,
            f,
            name,
            first,
            &mut detached,
            true,
            pos,
            None,
        );
        self.give_scope(detached);
        result
    }

    /// Call by name, with the arguments on the stack from `first` up.
    pub(crate) fn call_syntactic_or_stacked(
        &mut self,
        program: &Program,
        index: u32,
        name: &str,
        argc: usize,
        first: usize,
        scope: &mut Scope,
        capture: bool,
        pos: Position,
    ) -> (out: VmResult)
        requires
            old(self).wf(),
        ensures
            gave(
                *final(self),
                old(self)@,
                out,
                final(scope)@,
                called(
                    below(levels_left(old(self)@)),
                    *program,
                    old(self)@,
                    old(scope)@,
                    index,
                    name@,
                    argc as int,
                    first as int,
                    capture,
                    pos,
                ),
            ),
        decreases levels_left(old(self)@), 3nat, 1nat, 0nat,
    {
        proof {
            reveal(called);
        }
        if let Some(value) = self.call_syntactic(program, name, argc, first, scope, pos)? {
            return Ok(value);
        }
        match program.function(index, argc) {
            None => self.call_dispatched(index, name, first, scope, capture, pos),
            Some(i) => {
                if capture {
                    let (result, _) = self.call_compiled_with_this(
                        program,
                        &program.functions[i],
                        name,
                        first,
                        scope,
                        true,
                        pos,
                        None,
                    );
                    result
                } else {
                    self.call_compiled(program, &program.functions[i], name, first, pos)
                }
            },
        }
    }

    /// The operand a variable becomes when it cannot be lent.
    fn insert_operand(&mut self, first: usize, value: Dynamic)
        requires
            old(self).wf(),
            first <= old(self)@.stack.len(),
        ensures
            final(self).reached(old(self)@, with_operand(old(self)@, first as int, value@)),
            final(self)@.stack.len() == old(self)@.stack.len() + 1,
    {
        proof {
            crate::stack::opening_keeps_operands(self@.stack, first as int, 1);
        }
        self.stack.open_slots(first, 1);
        self.stack.set(first, value);
    }

    /// Call a host function with a variable of the scope lent to it.
    fn call_lent(
        &mut self,
        scope: &mut Scope,
        i: usize,
        index: u32,
        name: &str,
        rest: usize,
        first: usize,
        pos: Position,
    ) -> (out: VmResult)
        requires
            old(self).wf(),
            i < old(scope)@.len(),
            first <= rest,
        ensures
            gave(
                *final(self),
                old(self)@,
                out,
                final(scope)@,
                lent_call(
                    old(self)@,
                    old(scope)@,
                    i as int,
                    index,
                    name@,
                    rest as int,
                    first as int,
                    pos,
                ),
            ),
    {
        let ghost before = scope@;
        let ghost stack = self@.stack;
        let mut args = self.stack.take_values_from(rest);
        self.stack.truncate(first);
        assert(truncated(truncated(stack, rest as int), first as int) =~= truncated(
            stack,
            first as int,
        ));
        let entry = scope.take(i);
        let ghost tail = all_views(args@);
        args.insert(0, entry);
        assert(all_views(args@) =~= seq![before[i as int].1] + tail);
        match self.call_site(index, name, &args, pos) {
            Err(err) => {
                let entry = take_first(args);
                proof {
                    taken_and_put_back(before, i as int, entry@);
                }
                scope.put(i, entry);
                Err(err)
            },
            Ok(site) => {
                let (out, left) = self.call_engine(name, args, true, false, site, pos);
                let entry = take_first(left);
                proof {
                    taken_and_put_back(before, i as int, entry@);
                }
                scope.put(i, entry);
                out
            },
        }
    }

    /// Call with the receiver as the first argument.
    fn call_by_this(
        &mut self,
        program: &Program,
        index: u32,
        name: &str,
        argc: usize,
        scope: &mut Scope,
        capture: bool,
        pos: Position,
    ) -> (out: VmResult)
        requires
            old(self).wf(),
        ensures
            gave(
                *final(self),
                old(self)@,
                out,
                final(scope)@,
                called_by_this(
                    below(levels_left(old(self)@)),
                    *program,
                    old(self)@,
                    old(scope)@,
                    index,
                    name@,
                    argc as int,
                    capture,
                    pos,
                ),
            ),
        decreases levels_left(old(self)@), 3nat, 2nat, 0nat,
    {
        proof {
            reveal(called_by_this);
        }
        let depth: usize = self.stack.depth();
        if depth < argc {
            return Err(malformed("call with too few arguments".to_owned()));
        }
        let first: usize = depth - argc;
        let lendable = match &self.this {
            Some(this) => !this.is_shared(),
            None => false,
        };
        if !lendable || program.function(index, argc).is_some() {
            let value = self.call_syntactic_or_stacked(
                program,
                index,
                name,
                argc,
                first,
                scope,
                capture,
                pos,
            )?;
            self.truncate_stack(first);
            return Ok(value);
        }
        let ghost stack = self@.stack;
        let this = match self.this.take() {
            Some(this) => this,
            None => Dynamic::unit(),
        };
        let mut args = if argc == 0 {
            assert(above(stack, first + 1) =~= Seq::<Datum>::empty());
            no_operands()
        } else {
            self.stack.take_values_from(first + 1)
        };
        self.stack.truncate(first);
        assert(self@.stack =~= truncated(stack, first as int));
        let ghost tail = all_views(args@);
        args.insert(0, this);
        assert(all_views(args@) =~= seq![this@] + tail);
        match self.call_site(index, name, &args, pos) {
            Err(err) => {
                self.this = Some(take_first(args));
                Err(err)
            },
            Ok(site) => {
                let (out, left) = self.call_engine(name, args, true, false, site, pos);
                self.this = Some(take_first(left));
                out
            },
        }
    }

    /// Call with a variable as the first argument.
    ///
    /// The other arguments were evaluated before the variable is reached, which
    /// shows whenever one of them writes to it.
    pub(crate) fn call_by_reference(
        &mut self,
        program: &Program,
        index: u32,
        name: &str,
        argc: usize,
        receiver: Receiver,
        scope: &mut Scope,
        base: usize,
        capture: bool,
        pos: Position,
    ) -> (out: VmResult)
        requires
            old(self).wf(),
        ensures
            gave(
                *final(self),
                old(self)@,
                out,
                final(scope)@,
                called_by_reference(
                    below(levels_left(old(self)@)),
                    *program,
                    old(self)@,
                    old(scope)@,
                    base,
                    index,
                    name@,
                    argc as int,
                    receiver,
                    capture,
                    pos,
                ),
            ),
        decreases levels_left(old(self)@), 3nat, 3nat, 0nat,
    {
        proof {
            reveal(called_by_reference);
        }
        if argc == 0 {
            return Err(malformed("a call by reference with no receiver".to_owned()));
        }
        let compiled = program.function(index, argc).is_some();
        let depth: usize = self.stack.depth();
        match receiver {
            Receiver::This => self.call_by_this(program, index, name, argc, scope, capture, pos),
            Receiver::Local(slot) => {
                let i: usize = local_index(scope, base, slot)?;
                if depth < argc - 1 {
                    return Err(malformed("call with too few arguments".to_owned()));
                }
                let first: usize = depth - (argc - 1);
                let entry = scope.get_by_index(i);
                if !entry.is_shared() && !self.heap.is_read_only(entry) && !compiled {
                    return self.call_lent(scope, i, index, name, first, first, pos);
                }
                let value = self.heap.flatten_clone_value(entry);
                self.insert_operand(first, value);
                let value = self.call_syntactic_or_stacked(
                    program,
                    index,
                    name,
                    argc,
                    first,
                    scope,
                    capture,
                    pos,
                )?;
                self.truncate_stack(first);
                Ok(value)
            },
            Receiver::Named(var) => {
                let var = pool_name(program, var)?;
                if depth < argc {
                    return Err(malformed("call with too few arguments".to_owned()));
                }
                let first: usize = depth - argc;
                if let Some(i) = scope.search(var) {
                    let entry = scope.get_by_index(i);
                    if !self.heap.is_read_only(self.stack.get(first)) && !entry.is_shared()
                        && !self.heap.is_read_only(entry) && !compiled {
                        return self.call_lent(scope, i, index, name, first + 1, first, pos);
                    }
                }
                let value = self.call_syntactic_or_stacked(
                    program,
                    index,
                    name,
                    argc,
                    first,
                    scope,
                    capture,
                    pos,
                )?;
                self.truncate_stack(first);
                Ok(value)
            },
        }
    }

    /// Carry a written receiver back to where it came from.
    fn return_receiver(
        &mut self,
        program: &Program,
        receiver: Option<Receiver>,
        value: Dynamic,
        scope: &mut Scope,
        base: usize,
    ) -> (out: Result<(), Error>)
        requires
            old(self).wf(),
        ensures
            final(self).did(
                old(self)@,
                out,
                final(scope)@,
                receiver_returned(*program, old(self)@, old(scope)@, base, receiver, value@),
            ),
    {
        if value.is_shared() || self.heap.is_read_only(&value) {
            return Ok(());
        }
        match receiver {
            None => {},
            Some(Receiver::Local(slot)) => {
                let i: usize = local_index(scope, base, slot)?;
                scope.put(i, value);
            },
            Some(Receiver::Named(var)) => {
                let name = pool_name(program, var)?;
                if let Some(i) = scope.search(name) {
                    if matches!(scope.get_by_index(i).mode, AccessMode::ReadWrite) {
                        scope.put(i, value);
                    }
                }
            },
            Some(Receiver::This) => {
                if self.this.is_some() {
                    self.this = Some(value);
                }
            },
        }
        Ok(())
    }

    fn ask_pointer(
        &mut self,
        pointer: Dynamic,
        bound: Option<Dynamic>,
        args: Vec<Dynamic>,
        pos: Position,
    ) -> (out: (VmResult, Option<Dynamic>))
        requires
            old(self).wf(),
        ensures
            ({
                let (r, this, m) = pointer_asked(
                    old(self)@,
                    pointer@,
                    opt_view(bound),
                    all_views(args@),
                    pos,
                );
                result_view(out.0) == r && opt_view(out.1) == this && final(self).reached(
                    old(self)@,
                    m,
                )
            }),
    {
        let has = bound.is_some();
        let ghost tail = all_views(args@);
        let mut operands = args;
        let ghost lent = match opt_view(bound) {
            Some(this) => seq![this],
            None => Seq::empty(),
        };
        if let Some(this) = bound {
            operands.insert(0, this);
            assert(all_views(operands@) =~= lent + tail);
        } else {
            assert(all_views(operands@) =~= lent + tail);
        }
        operands.insert(0, pointer);
        assert(all_views(operands@) =~= seq![pointer@] + lent + tail);
        match self.ask(Ask::CallPointer { bound: has }, "", operands, pos) {
            Err(err) => (Err(err), None),
            Ok(answer) => {
                let mut left = answer.operands;
                assert(all_views(left@).len() == left@.len());
                let this = if has {
                    Some(left.swap_remove(1))
                } else {
                    None
                };
                (
                    match value_of(answer.reply) {
                        Ok(v) => Ok(v),
                        Err(err) => Err(dispatch_failure(err, pos)),
                    },
                    this,
                )
            },
        }
    }

    fn call_pointer(
        &mut self,
        program: &Program,
        at: usize,
        pointer: Dynamic,
        bound: Option<Dynamic>,
        pos: Position,
    ) -> (out: (VmResult, Option<Dynamic>))
        requires
            old(self).wf(),
            at < old(self)@.stack.len(),
        ensures
            ({
                let (r, this, m) = pointer_called(
                    below(levels_left(old(self)@)),
                    *program,
                    old(self)@,
                    at as int,
                    pointer@,
                    opt_view(bound),
                    pos,
                );
                result_view(out.0) == r && opt_view(out.1) == this && final(self).reached(
                    old(self)@,
                    m,
                )
            }),
        decreases levels_left(old(self)@), 3nat, 0nat, 0nat,
    {
        broadcast use crate::value::view_of_composite;

        proof {
            reveal(pointer_called);
        }
        let depth: usize = self.stack.depth();
        let (name, curried) = match &pointer.value {
            Union::FnPtr(p) => (p.name.clone(), crate::site::copy_values(&p.curry)),
            _ => {
                return (
                    Err(mismatch(self.engine, "Fn", type_text(&pointer), pos)),
                    bound,
                );
            },
        };
        let taken: usize = depth - at - 1;
        let ghost stack = self@.stack;
        let args = self.stack.take_values_from(at + 1);
        assert(args@.len() == all_views(args@).len());
        assert(curried@.len() == all_views(curried@).len());
        let callee = if curried.len() > usize::MAX - taken {
            proof {
                no_such_arity(*program, name@, curried@.len() + taken, 0);
            }
            None
        } else {
            program.function_named(name.as_str(), curried.len() + taken)
        };
        match callee {
            Some(i) => {
                self.stack.push_all(curried);
                self.stack.push_all(args);
                let mut fresh = self.take_scope();
                let out = self.call_compiled_with_this(
                    program,
                    &program.functions[i],
                    name.as_str(),
                    at + 1,
                    &mut fresh,
                    true,
                    pos,
                    bound,
                );
                self.give_scope(fresh);
                out
            },
            None => self.ask_pointer(pointer, bound, args, pos),
        }
    }

    /// Call a function pointer, preferring a compiled function of its name.
    pub(crate) fn call_fn_ptr(
        &mut self,
        program: &Program,
        argc: usize,
        method: bool,
        receiver: Option<Receiver>,
        scope: &mut Scope,
        base: usize,
        pos: Position,
    ) -> (out: VmResult)
        requires
            old(self).wf(),
            argc < usize::MAX,
        ensures
            gave(
                *final(self),
                old(self)@,
                out,
                final(scope)@,
                called_fn_ptr(
                    below(levels_left(old(self)@)),
                    *program,
                    old(self)@,
                    old(scope)@,
                    base,
                    argc as int,
                    method,
                    receiver,
                    pos,
                ),
            ),
        decreases levels_left(old(self)@), 3nat, 1nat, 0nat,
    {
        proof {
            reveal(called_fn_ptr);
        }
        let depth: usize = self.stack.depth();
        if depth < argc + 1 {
            return Err(malformed("function pointer call is missing its target".to_owned()));
        }
        let start: usize = depth - (argc + 1);
        let target = self.heap.flatten_clone_value(self.stack.get(start));
        let direct = matches!(target.value, Union::FnPtr(_));
        if !method || direct {
            if !direct {
                return Err(mismatch(self.engine, "Fn", type_text(&target), pos));
            }
            let (result, _) = self.call_pointer(program, start, target, None, pos);
            let value = result?;
            self.truncate_stack(start);
            return Ok(value);
        }
        if argc == 0 {
            return Err(mismatch(self.engine, "Fn", type_text(&target), pos));
        }
        let pointer = self.heap.flatten_clone_value(self.stack.get(start + 1));
        if !matches!(pointer.value, Union::FnPtr(_)) {
            return Err(mismatch(self.engine, "Fn", type_text(&pointer), pos));
        }
        let ghost stack = self@.stack;
        let mut held = self.stack.take(start);
        let (bound, write_back) = bind_this(&self.heap, &mut held);
        self.stack.set(start, held);
        assert(self@.stack =~= stack.update(
            start as int,
            left_behind(self@.heap, stack[start as int]),
        ));
        let (result, returned) = self.call_pointer(program, start + 1, pointer, Some(bound), pos);
        if write_back {
            let depth: usize = self.stack.depth();
            if start < depth {
                if let Some(value) = returned {
                    self.stack.set(start, value);
                }
            }
            let updated = if start < depth {
                clone_value(self.stack.get(start))
            } else {
                Dynamic::unit()
            };
            self.return_receiver(program, receiver, updated, scope, base)?;
        }
        let value = result?;
        self.truncate_stack(start);
        Ok(value)
    }
}

/// No function takes more arguments than can be counted.
proof fn no_such_arity(p: Program, name: Seq<char>, argc: int, i: int)
    requires
        argc > usize::MAX,
    ensures
        p.texted_from(name, argc, i) is None,
    decreases p.functions@.len() - i,
{
    if 0 <= i < p.functions@.len() {
        assert(p.functions@[i].param_names.len() <= usize::MAX);
        no_such_arity(p, name, argc, i + 1);
    }
}

} // verus!
