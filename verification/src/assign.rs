//! Reading and writing variables, and writing through operators.
use vstd::prelude::*;

use crate::arith::{apply_assign, assign_applied, Applied};
use crate::error::{
    dispatch_failure, fail, malformed_number, missing, outcome, raised, result_view, unnumbered,
    Error, Fail, FailureKind, VmResult,
};
use crate::heap::{flat_copy, lent, lockable, settled};
use crate::host::{reply_value, value_of, Ask, Reply};
use crate::machine::{asked, asked_in, question, Machine, Registers, Vm};
use crate::position::Position;
use crate::program::{AssignOp, Program};
use crate::scope::{found, stored, taken_and_put_back, Names, Scope};
use crate::text::{callable_name, has_prefix, is_identifier, starts_with};
use crate::value::{
    all_views, clone_value, copied, unit, with_mode, AccessMode, Data, Datum, Dynamic, Union,
};

verus! {

/// The question a call of a host function is.
pub open spec fn dispatch_ask(
    name: Seq<char>,
    by_reference: bool,
    method: bool,
    captures: bool,
    site: Option<u64>,
) -> Ask {
    Ask::Dispatch {
        native_only: site is None && !callable_name(name),
        by_reference,
        method,
        captures,
        site,
    }
}

/// What calling a host function gives: its value, its operands as it left
/// them, and the run after. A suspended call's operands are the host's.
#[verifier::opaque]
pub open spec fn dispatched(
    m: Machine,
    name: Seq<char>,
    operands: Seq<Datum>,
    by_reference: bool,
    method: bool,
    site: Option<u64>,
    pos: Position,
) -> (Result<Datum, Fail>, Seq<Datum>, Machine) {
    match asked(
        m,
        question(dispatch_ask(name, by_reference, method, false, site), name, operands, pos),
    ) {
        (Ok(a), m1) => (reply_value(a.reply), a.operands, m1),
        (Err(err), m1) => (Err(err), Seq::empty(), m1),
    }
}

/// The first of a call's operands, or unit where the call keeps them.
pub open spec fn first_of(operands: Seq<Datum>) -> Datum {
    if operands.len() > 0 {
        operands[0]
    } else {
        unit()
    }
}

/// Two operands as a row.
pub fn pair(a: Dynamic, b: Dynamic) -> (row: Vec<Dynamic>)
    ensures
        all_views(row@) == seq![a@, b@],
        row@.len() == 2,
{
    let mut row: Vec<Dynamic> = Vec::new();
    row.push(a);
    row.push(b);
    assert(all_views(row@) =~= seq![a@, b@]);
    row
}

/// One operand as a row.
pub fn single(a: Dynamic) -> (row: Vec<Dynamic>)
    ensures
        all_views(row@) == seq![a@],
        row@.len() == 1,
{
    let mut row: Vec<Dynamic> = Vec::new();
    row.push(a);
    assert(all_views(row@) =~= seq![a@]);
    row
}

/// No operands as a row.
pub fn no_operands() -> (row: Vec<Dynamic>)
    ensures
        all_views(row@) == Seq::<Datum>::empty(),
{
    let row: Vec<Dynamic> = Vec::new();
    assert(all_views(row@) =~= Seq::<Datum>::empty());
    row
}

/// The first of a row, or unit.
pub fn take_first(row: Vec<Dynamic>) -> (first: Dynamic)
    ensures
        first@ == first_of(all_views(row@)),
{
    let mut row = row;
    if row.len() > 0 {
        row.swap_remove(0)
    } else {
        Dynamic::unit()
    }
}

/// The first two of a row, or units.
pub fn take_pair(row: Vec<Dynamic>) -> (out: (Dynamic, Dynamic))
    ensures
        out.0@ == first_of(all_views(row@)),
        row@.len() == 2 ==> out.1@ == all_views(row@)[1],
{
    let mut row = row;
    if row.len() == 2 {
        let second = row.swap_remove(1);
        let first = row.swap_remove(0);
        (first, second)
    } else {
        (take_first(row), Dynamic::unit())
    }
}

/// How an operator assignment ended, if a built-in took it.
#[verifier::ext_equal]
pub struct Built {
    pub handled: bool,
    pub error: Option<Fail>,
    pub target: Datum,
    pub rhs: Datum,
}

/// How an operator assignment ended, if a built-in took it.
#[derive(Debug)]
pub struct StoreBuiltinOutcome {
    pub handled: bool,
    pub error: Option<Error>,
    /// The right-hand side, where nothing took it.
    pub rhs: Dynamic,
}

/// The operator assignment's name, or nothing said.
pub open spec fn assign_name(p: Program, op: AssignOp) -> Seq<char> {
    match p.name_of(op.op_assign_name as int) {
        Some(name) => name,
        None => ""@,
    }
}

/// The operator assignment's name, or nothing said.
pub(crate) fn assign_text(program: &Program, op: AssignOp) -> (name: String)
    ensures
        name@ == assign_name(*program, op),
{
    match program.name(op.op_assign_name) {
        Some(text) => text.to_owned(),
        None => "".to_owned(),
    }
}

/// What the built-in operator assignment of the host makes of a pair.
#[verifier::opaque]
pub open spec fn host_assigned(
    m: Machine,
    p: Program,
    op: AssignOp,
    target: Datum,
    rhs: Datum,
    pos: Position,
) -> (Built, Machine) {
    match asked(m, question(Ask::OpAssign, assign_name(p, op), seq![target, rhs], pos)) {
        (Err(err), m1) => (
            Built { handled: true, error: Some(err), target: unit(), rhs: unit() },
            m1,
        ),
        (Ok(a), m1) => match a.reply {
            Reply::Nothing => (
                Built { handled: false, error: None, target: a.operands[0], rhs: a.operands[1] },
                m1,
            ),
            Reply::Raised(err) => (
                Built {
                    handled: true,
                    error: Some(err.placed(pos)),
                    target: a.operands[0],
                    rhs: unit(),
                },
                m1,
            ),
            _ => (
                Built { handled: true, error: None, target: a.operands[0], rhs: unit() },
                m1,
            ),
        },
    }
}

/// What floating-point arithmetic makes of a target and its operand.
#[verifier::opaque]
pub open spec fn float_assigned(
    m: Machine,
    kind: crate::arith::BinOpKind,
    target: Datum,
    rhs: Datum,
    pos: Position,
) -> (Built, Machine) {
    match asked(m, question(Ask::Float { kind }, ""@, seq![target, rhs], pos)) {
        (Err(err), m1) => (
            Built { handled: true, error: Some(err), target: unit(), rhs: unit() },
            m1,
        ),
        (Ok(a), m1) => match reply_value(a.reply) {
            Ok(v) => (
                Built {
                    handled: true,
                    error: None,
                    target: Datum { data: v.data, tag: target.tag, mode: target.mode },
                    rhs: unit(),
                },
                m1,
            ),
            Err(err) => (
                Built {
                    handled: true,
                    error: Some(err.placed(pos)),
                    target: a.operands[0],
                    rhs: unit(),
                },
                m1,
            ),
        },
    }
}

/// The built-in operator assignment for a pair: nothing without fast
/// operators; the machine's own for two integers; the host's otherwise.
#[verifier::opaque]
pub open spec fn built_assign(
    m: Machine,
    p: Program,
    op: AssignOp,
    target: Datum,
    rhs: Datum,
    pos: Position,
) -> (Built, Machine) {
    if !m.engine.fast_operators {
        (Built { handled: false, error: None, target, rhs }, m)
    } else {
        match op.kind {
            None => host_assigned(m, p, op, target, rhs, pos),
            Some(kind) => match assign_applied(kind, target.data, rhs.data) {
                Ok(Applied::Done(n)) => (
                    Built {
                        handled: true,
                        error: None,
                        target: Datum { data: Data::Int(n), tag: target.tag, mode: target.mode },
                        rhs: unit(),
                    },
                    m,
                ),
                Ok(Applied::Float) => float_assigned(m, kind, target, rhs, pos),
                Ok(Applied::Declined) => host_assigned(m, p, op, target, rhs, pos),
                Err(err) => (
                    Built { handled: true, error: Some(err.placed(pos)), target, rhs: unit() },
                    m,
                ),
            },
        }
    }
}

/// What storing gives: whether it went well, the target after and the run.
#[verifier::opaque]
pub open spec fn stored_value(
    m: Machine,
    p: Program,
    op: Option<AssignOp>,
    target: Datum,
    rhs: Datum,
    pos: Position,
) -> (Result<(), Fail>, Datum, Machine) {
    match op {
        None => (Ok(()), rhs, m),
        Some(op) => {
            let (built, m1) = built_assign(m, p, op, target, rhs, pos);
            if built.handled {
                (
                    match built.error {
                        Some(err) => Err(err),
                        None => Ok(()),
                    },
                    built.target,
                    m1,
                )
            } else {
                dispatched_store(m1, p, op, built.target, built.rhs, pos)
            }
        },
    }
}

/// Storing through the functions the host has for an operator: `op=`, or where
/// there is none `target = target op rhs`.
#[verifier::opaque]
pub open spec fn dispatched_store(
    m: Machine,
    p: Program,
    op: AssignOp,
    target: Datum,
    rhs: Datum,
    pos: Position,
) -> (Result<(), Fail>, Datum, Machine) {
    match (p.name_of(op.op_assign_name as int), p.name_of(op.op_name as int)) {
        (None, _) => (
            Err(unnumbered("no op-assign name "@, op.op_assign_name as nat, ""@)),
            target,
            m,
        ),
        (_, None) => (
            Err(unnumbered("no operator name "@, op.op_name as nat, ""@)),
            target,
            m,
        ),
        (Some(assign_text), Some(op_text)) => {
            let (r, left, m1) = dispatched(
                m,
                assign_text,
                seq![target, rhs],
                true,
                false,
                None,
                pos,
            );
            match r {
                Ok(_) => (Ok(()), first_of(left), m1),
                Err(err) => if not_found(err, assign_text) {
                    let (r2, left2, m2) = dispatched(m1, op_text, left, true, false, None, pos);
                    match r2 {
                        Ok(v) => (Ok(()), v, m2),
                        Err(err2) => (Err(err2), first_of(left2), m2),
                    }
                } else {
                    (Err(err.placed(pos)), first_of(left), m1)
                },
            }
        },
    }
}

/// A failure that says the function of this name does not exist.
pub open spec fn not_found(err: Fail, name: Seq<char>) -> bool {
    match err.kind {
        FailureKind::ErrorFunctionNotFound(text) => starts_with(text, name),
        _ => false,
    }
}

/// Storing into an entry: into its cell where it is shared, so that every
/// holder sees it, and over it otherwise.
#[verifier::opaque]
pub open spec fn stored_through(
    m: Machine,
    p: Program,
    op: Option<AssignOp>,
    entry: Datum,
    rhs: Datum,
    name: Seq<char>,
    pos: Position,
) -> (Result<(), Fail>, Datum, Machine) {
    match entry.data {
        Data::Shared(cell) => if !lockable(m.heap, cell) {
            (Err(fail(FailureKind::ErrorDataRace(name), pos)), entry, m)
        } else {
            let (r, v, m1) = stored_value(
                m.with_heap(lent(m.heap, cell)),
                p,
                op,
                m.heap[cell as int].value,
                rhs,
                pos,
            );
            (r, entry, m1.with_heap(settled(m1.heap, cell, v)))
        },
        _ => stored_value(m, p, op, entry, rhs, pos),
    }
}

/// What the host's own resolver says of a variable.
#[verifier::opaque]
pub open spec fn resolved_var(m: Machine, scope: Names, name: Seq<char>, pos: Position) -> (
    Result<Option<Datum>, Fail>,
    Machine,
    Names,
) {
    if !m.engine.resolves_vars {
        (Ok(None), m, scope)
    } else {
        match asked_in(m, scope, question(Ask::ResolveVar, name, Seq::empty(), pos)) {
            (Err(err), m1, left) => (Err(err), m1, left),
            (Ok(a), m1, left) => {
                let m2 = if left.len() != scope.len() {
                    m1.with_regs(Registers { always_search_scope: true, ..m1.regs })
                } else {
                    m1
                };
                (
                    match a.reply {
                        Reply::Value(v) => Ok(Some(with_mode(v, AccessMode::ReadOnly))),
                        Reply::Raised(err) => Err(err.placed(pos)),
                        _ => Ok(None),
                    },
                    m2,
                    left,
                )
            },
        }
    }
}

/// A variable no slot names: the resolver's, else the scope's newest of that
/// name, else one a global module publishes.
#[verifier::opaque]
pub open spec fn loaded_named(
    m: Machine,
    scope: Names,
    name: Seq<char>,
    flatten: bool,
    pos: Position,
) -> (Result<Datum, Fail>, Machine, Names) {
    match resolved_var(m, scope, name, pos) {
        (Err(err), m1, left) => (Err(err), m1, left),
        (Ok(Some(v)), m1, left) => (Ok(v), m1, left),
        (Ok(None), m1, left) => (
            match found(left, name) {
                Some(i) => Ok(
                    if flatten {
                        flat_copy(m1.heap, left[i].1)
                    } else {
                        copied(left[i].1)
                    },
                ),
                None => match m1.engine.published(name) {
                    Some(v) => Ok(v),
                    None => Err(fail(FailureKind::ErrorVariableNotFound(name), pos)),
                },
            },
            m1,
            left,
        ),
    }
}

/// Assigning to a variable no slot names: only a scope's own variable that is
/// not constant is a place to write.
#[verifier::opaque]
pub open spec fn assigned_named(
    m: Machine,
    p: Program,
    op: Option<AssignOp>,
    scope: Names,
    name: Seq<char>,
    rhs: Datum,
    pos: Position,
) -> (Result<(), Fail>, Machine, Names) {
    let constant: Fail = fail(FailureKind::ErrorAssignmentToConstant(name), pos);
    match resolved_var(m, scope, name, pos) {
        (Err(err), m1, left) => (Err(err), m1, left),
        (Ok(Some(_)), m1, left) => (Err(constant), m1, left),
        (Ok(None), m1, left) => match found(left, name) {
            Some(i) => if left[i].1.mode == AccessMode::ReadOnly {
                (Err(constant), m1, left)
            } else {
                let (r, entry, m2) = stored_through(m1, p, op, left[i].1, rhs, name, pos);
                (r, m2, stored(left, i, entry))
            },
            None => (
                Err(
                    if m1.engine.published(name) is Some {
                        constant
                    } else {
                        fail(FailureKind::ErrorVariableNotFound(name), pos)
                    },
                ),
                m1,
                left,
            ),
        },
    }
}

impl<'e> Vm<'e> {
    /// Call a function of the host.
    pub(crate) fn call_engine(
        &mut self,
        name: &str,
        operands: Vec<Dynamic>,
        by_reference: bool,
        method: bool,
        site: Option<u64>,
        pos: Position,
    ) -> (out: (VmResult, Vec<Dynamic>))
        requires
            old(self).wf(),
        ensures
            ({
                let (r, left, m) = dispatched(
                    old(self)@,
                    name@,
                    all_views(operands@),
                    by_reference,
                    method,
                    site,
                    pos,
                );
                result_view(out.0) == r && all_views(out.1@) == left && final(self).reached(
                    old(self)@,
                    m,
                )
            }),
    {
        proof {
            reveal(dispatched);
        }
        let native_only = site.is_none() && !is_identifier(name);
        let ask = Ask::Dispatch { native_only, by_reference, method, captures: false, site };
        match self.ask(ask, name, operands, pos) {
            Ok(answer) => (value_of(answer.reply), answer.operands),
            Err(err) => (Err(err), no_operands()),
        }
    }

    pub(crate) fn host_assign(
        &mut self,
        program: &Program,
        op: AssignOp,
        target: &mut Dynamic,
        rhs: Dynamic,
        pos: Position,
    ) -> (out: StoreBuiltinOutcome)
        requires
            old(self).wf(),
        ensures
            ({
                let (b, m) = host_assigned(old(self)@, *program, op, old(target)@, rhs@, pos);
                built_view(out, final(target)@) == b && final(self).reached(old(self)@, m)
            }),
    {
        proof {
            reveal(host_assigned);
        }
        let name = assign_text(program, op);
        let held = target.take();
        match self.ask(Ask::OpAssign, name.as_str(), pair(held, rhs), pos) {
            Err(err) => StoreBuiltinOutcome {
                handled: true,
                error: Some(err),
                rhs: Dynamic::unit(),
            },
            Ok(answer) => {
                let (first, second) = take_pair(answer.operands);
                *target = first;
                match answer.reply {
                    Reply::Nothing => StoreBuiltinOutcome {
                        handled: false,
                        error: None,
                        rhs: second,
                    },
                    Reply::Raised(err) => StoreBuiltinOutcome {
                        handled: true,
                        error: Some(dispatch_failure(err, pos)),
                        rhs: Dynamic::unit(),
                    },
                    _ => StoreBuiltinOutcome { handled: true, error: None, rhs: Dynamic::unit() },
                }
            },
        }
    }

    fn float_assign(
        &mut self,
        kind: crate::arith::BinOpKind,
        target: &mut Dynamic,
        rhs: Dynamic,
        pos: Position,
    ) -> (out: StoreBuiltinOutcome)
        requires
            old(self).wf(),
        ensures
            ({
                let (b, m) = float_assigned(old(self)@, kind, old(target)@, rhs@, pos);
                built_view(out, final(target)@) == b && final(self).reached(old(self)@, m)
            }),
    {
        proof {
            reveal(float_assigned);
        }
        broadcast use crate::value::view_of_composite;

        let (tag, mode) = (target.tag, target.mode);
        let held = target.take();
        match self.ask(Ask::Float { kind }, "", pair(held, rhs), pos) {
            Err(err) => StoreBuiltinOutcome {
                handled: true,
                error: Some(err),
                rhs: Dynamic::unit(),
            },
            Ok(answer) => match value_of(answer.reply) {
                Ok(v) => {
                    *target = Dynamic { value: v.value, tag, mode };
                    StoreBuiltinOutcome { handled: true, error: None, rhs: Dynamic::unit() }
                },
                Err(err) => {
                    *target = take_first(answer.operands);
                    StoreBuiltinOutcome {
                        handled: true,
                        error: Some(dispatch_failure(err, pos)),
                        rhs: Dynamic::unit(),
                    }
                },
            },
        }
    }

    /// Apply the built-in operator assignment for a pair, if there is one.
    pub(crate) fn store_builtin(
        &mut self,
        program: &Program,
        op: AssignOp,
        target: &mut Dynamic,
        rhs: Dynamic,
        pos: Position,
    ) -> (out: StoreBuiltinOutcome)
        requires
            old(self).wf(),
        ensures
            ({
                let (b, m) = built_assign(old(self)@, *program, op, old(target)@, rhs@, pos);
                built_view(out, final(target)@) == b && final(self).reached(old(self)@, m)
            }),
    {
        proof {
            reveal(built_assign);
        }
        if !self.engine.fast_operators {
            return StoreBuiltinOutcome { handled: false, error: None, rhs };
        }
        if let Some(kind) = op.kind {
            match apply_assign(kind, target, &rhs) {
                Ok(Applied::Done(_)) => {
                    return StoreBuiltinOutcome {
                        handled: true,
                        error: None,
                        rhs: Dynamic::unit(),
                    };
                },
                Ok(Applied::Float) => {
                    return self.float_assign(kind, target, rhs, pos);
                },
                Ok(Applied::Declined) => {},
                Err(err) => {
                    return StoreBuiltinOutcome {
                        handled: true,
                        error: Some(dispatch_failure(err, pos)),
                        rhs: Dynamic::unit(),
                    };
                },
            }
        }
        self.host_assign(program, op, target, rhs, pos)
    }

    /// Store into a place, through an operator if there is one.
    pub(crate) fn store(
        &mut self,
        program: &Program,
        op: Option<AssignOp>,
        target: &mut Dynamic,
        rhs: Dynamic,
        pos: Position,
    ) -> (out: Result<(), Error>)
        requires
            old(self).wf(),
        ensures
            ({
                let (r, t, m) = stored_value(old(self)@, *program, op, old(target)@, rhs@, pos);
                outcome(out) == r && final(target)@ == t && final(self).reached(old(self)@, m)
            }),
    {
        proof {
            reveal(stored_value);
            reveal(dispatched_store);
        }
        let op = match op {
            None => {
                *target = rhs;
                return Ok(());
            },
            Some(op) => op,
        };
        let done = self.store_builtin(program, op, target, rhs, pos);
        if done.handled {
            return match done.error {
                Some(err) => Err(err),
                None => Ok(()),
            };
        }
        let rhs = done.rhs;
        let assign_text = match program.name(op.op_assign_name) {
            Some(text) => text,
            None => {
                return Err(malformed_number("no op-assign name ", op.op_assign_name as u64, ""));
            },
        };
        let op_text = match program.name(op.op_name) {
            Some(text) => text,
            None => {
                return Err(malformed_number("no operator name ", op.op_name as u64, ""));
            },
        };
        let held = target.take();
        let (result, left) = self.call_engine(
            assign_text,
            pair(held, rhs),
            true,
            false,
            None,
            pos,
        );
        match result {
            Ok(_) => {
                *target = take_first(left);
                Ok(())
            },
            Err(err) => {
                let absent = match &err.kind {
                    FailureKind::ErrorFunctionNotFound(text) => has_prefix(
                        text.as_str(),
                        assign_text,
                    ),
                    _ => false,
                };
                if absent {
                    let (result, left) = self.call_engine(op_text, left, true, false, None, pos);
                    match result {
                        Ok(v) => {
                            *target = v;
                            Ok(())
                        },
                        Err(err) => {
                            *target = take_first(left);
                            Err(err)
                        },
                    }
                } else {
                    *target = take_first(left);
                    Err(dispatch_failure(err, pos))
                }
            },
        }
    }

    /// Store into an entry, through a shared cell where it is one.
    pub(crate) fn store_through(
        &mut self,
        program: &Program,
        op: Option<AssignOp>,
        entry: &mut Dynamic,
        rhs: Dynamic,
        name: &str,
        pos: Position,
    ) -> (out: Result<(), Error>)
        requires
            old(self).wf(),
        ensures
            ({
                let (r, t, m) = stored_through(
                    old(self)@,
                    *program,
                    op,
                    old(entry)@,
                    rhs@,
                    name@,
                    pos,
                );
                outcome(out) == r && final(entry)@ == t && final(self).reached(old(self)@, m)
            }),
    {
        proof {
            reveal(stored_through);
        }
        if let Union::Shared(cell) = &entry.value {
            let cell: usize = *cell;
            match self.heap.lock(cell) {
                None => Err(raised(FailureKind::ErrorDataRace(name.to_owned()), pos)),
                Some(held) => {
                    let mut held = held;
                    let out = self.store(program, op, &mut held, rhs, pos);
                    self.heap.unlock(cell, held);
                    out
                },
            }
        } else {
            self.store(program, op, entry, rhs, pos)
        }
    }

    /// Ask the host's own resolver for a variable, if it has one.
    pub(crate) fn resolve_var(&mut self, name: &str, scope: &mut Scope, pos: Position) -> (out:
        Result<Option<Dynamic>, Error>)
        requires
            old(self).wf(),
        ensures
            ({
                let (r, m, sc) = resolved_var(old(self)@, old(scope)@, name@, pos);
                option_view(out) == r && final(self).reached(old(self)@, m) && final(scope)@ == sc
            }),
    {
        proof {
            reveal(resolved_var);
        }
        if !self.engine.resolves_vars {
            return Ok(None);
        }
        let before: usize = scope.len();
        let answer = self.ask_in(scope, Ask::ResolveVar, name, no_operands(), pos)?;
        if scope.len() != before {
            self.regs.always_search_scope = true;
        }
        match answer.reply {
            Reply::Value(v) => Ok(Some(v.into_read_only())),
            Reply::Raised(err) => Err(dispatch_failure(err, pos)),
            _ => Ok(None),
        }
    }

    /// Read a variable no slot names.
    pub(crate) fn load_named(
        &mut self,
        name: &str,
        scope: &mut Scope,
        flatten: bool,
        pos: Position,
    ) -> (out: VmResult)
        requires
            old(self).wf(),
        ensures
            ({
                let (r, m, sc) = loaded_named(old(self)@, old(scope)@, name@, flatten, pos);
                result_view(out) == r && final(self).reached(old(self)@, m) && final(scope)@ == sc
            }),
    {
        proof {
            reveal(loaded_named);
        }
        if let Some(value) = self.resolve_var(name, scope, pos)? {
            return Ok(value);
        }
        if let Some(i) = scope.search(name) {
            let value = scope.get_by_index(i);
            return Ok(
                if flatten {
                    self.heap.flatten_clone_value(value)
                } else {
                    clone_value(value)
                },
            );
        }
        match self.engine.module_var(name) {
            Some(value) => Ok(value),
            None => Err(missing(name, pos)),
        }
    }

    /// Assign to a variable no slot names.
    pub(crate) fn assign_named(
        &mut self,
        program: &Program,
        op: Option<AssignOp>,
        name: &str,
        rhs: Dynamic,
        scope: &mut Scope,
        pos: Position,
    ) -> (out: Result<(), Error>)
        requires
            old(self).wf(),
        ensures
            ({
                let (r, m, sc) = assigned_named(
                    old(self)@,
                    *program,
                    op,
                    old(scope)@,
                    name@,
                    rhs@,
                    pos,
                );
                outcome(out) == r && final(self).reached(old(self)@, m) && final(scope)@ == sc
            }),
    {
        proof {
            reveal(assigned_named);
        }
        if let Some(_) = self.resolve_var(name, scope, pos)? {
            return Err(raised(FailureKind::ErrorAssignmentToConstant(name.to_owned()), pos));
        }
        match scope.search(name) {
            Some(i) => {
                if matches!(scope.get_by_index(i).mode, AccessMode::ReadOnly) {
                    return Err(raised(FailureKind::ErrorAssignmentToConstant(name.to_owned()), pos));
                }
                let ghost left = scope@;
                let mut entry = scope.take(i);
                let out = self.store_through(program, op, &mut entry, rhs, name, pos);
                proof {
                    taken_and_put_back(left, i as int, entry@);
                }
                scope.put(i, entry);
                out
            },
            None => if self.engine.module_var(name).is_some() {
                Err(raised(FailureKind::ErrorAssignmentToConstant(name.to_owned()), pos))
            } else {
                Err(missing(name, pos))
            },
        }
    }
}

/// The model of a variable that may not be there.
pub open spec fn option_view(out: Result<Option<Dynamic>, Error>) -> Result<Option<Datum>, Fail> {
    match out {
        Ok(Some(v)) => Ok(Some(v@)),
        Ok(None) => Ok(None),
        Err(err) => Err(err@),
    }
}

/// The model of how a built-in operator assignment ended.
pub open spec fn built_view(out: StoreBuiltinOutcome, target: Datum) -> Built {
    Built {
        handled: out.handled,
        error: match out.error {
            Some(err) => Some(err@),
            None => None,
        },
        target,
        rhs: out.rhs@,
    }
}

/// A resolver's answer and a module's variable are values rather than places:
/// assigning to either is refused and leaves the scope as the resolver left it.
pub proof fn only_variables_are_places(
    m: Machine,
    p: Program,
    op: Option<AssignOp>,
    scope: Names,
    name: Seq<char>,
    rhs: Datum,
    pos: Position,
)
    requires
        !m.engine.resolves_vars,
        found(scope, name) is None,
    ensures
        assigned_named(m, p, op, scope, name, rhs, pos).0 is Err,
        assigned_named(m, p, op, scope, name, rhs, pos).1 == m,
        assigned_named(m, p, op, scope, name, rhs, pos).2 == scope,
{
    reveal(assigned_named);
    reveal(resolved_var);
}

} // verus!
