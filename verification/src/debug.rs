//! Where a debugger stops: at statements, at the end of functions and at the
//! end of a run.
//!
//! The debugger is the host's, and so is the decision what it waits for next.
//! What it waits for decides in turn where it is told of anything, and a step
//! over a statement is taken up again once that statement has ended.
use vstd::prelude::*;

use crate::assign::{no_operands, single, take_first};
use crate::call::gave;
use crate::error::{Error, Fail, VmResult};
use crate::frame::cut;
use crate::heap::flat_copy;
use crate::host::{Answer, Ask, Reply, Request};
use crate::machine::{asked_in, question, text_view, Machine, Registers, Vm};
use crate::position::{nowhere, Position};
use crate::scope::{rewound, Names, Scope};
use crate::site::Gave;
use crate::value::{all_views, clone_value, copied, unit, Datum, Dynamic};

verus! {

/// What a debugger waits for.
#[derive(Clone, Copy, Debug, PartialEq, Eq, Structural)]
pub enum Status {
    /// The run has not begun.
    Init,
    /// The next statement, and the next expression or the end of a function.
    Next(bool, bool),
    /// The end of a function at this level or further out.
    FunctionExit(usize),
    /// Nothing any more: the run is over.
    Terminate,
}

/// A call in progress, as a debugger lists it: over the types that hold text
/// and values.
#[derive(Debug)]
#[verifier::ext_equal]
pub struct CallFrame<S, L> {
    pub name: S,
    pub args: L,
    pub source: Option<S>,
    pub pos: Position,
}

pub type StackFrame = CallFrame<String, Vec<Dynamic>>;

pub type StackFrameView = CallFrame<Seq<char>, Seq<Datum>>;

impl StackFrame {
    pub open spec fn view(self) -> StackFrameView {
        CallFrame {
            name: self.name@,
            args: all_views(self.args@),
            source: text_view(self.source),
            pos: self.pos,
        }
    }
}

pub open spec fn call_views(calls: Seq<StackFrame>) -> Seq<StackFrameView> {
    Seq::new(calls.len(), |i: int| calls[i]@)
}

/// A step that waits for its statement to end: the level and the depth it was
/// asked at, and what to wait for then.
pub type PendingStep = (usize, u16, Status);

/// Whether a statement lies inside the one a step was asked at: further in, or
/// in a function called from it.
pub open spec fn lies_inside(level: usize, depth: u16, step: PendingStep) -> bool {
    level > step.0 || (level == step.0 && depth > step.1)
}

/// The steps still waiting at a statement, and what is waited for there: every
/// step whose statement has ended is taken up again.
pub open spec fn steps_ended(
    pending: Seq<PendingStep>,
    status: Status,
    level: usize,
    depth: u16,
) -> (Seq<PendingStep>, Status)
    decreases pending.len(),
{
    if pending.len() == 0 || lies_inside(level, depth, pending.last()) {
        (pending, status)
    } else {
        steps_ended(pending.drop_last(), pending.last().2, level, depth)
    }
}

/// A run at a statement, with the steps that ended before it taken up again.
pub open spec fn arrived(m: Machine, depth: u16) -> Machine {
    let (pending_steps, status) = steps_ended(
        m.pending_steps,
        m.regs.status,
        m.regs.level,
        depth,
    );
    Machine { pending_steps, regs: Registers { status, ..m.regs }, ..m }
}

/// The receiver as it is lent to a debugger.
pub open spec fn lent_this(this: Option<Datum>) -> Seq<Datum> {
    match this {
        Some(this) => seq![this],
        None => Seq::empty(),
    }
}

/// What stands for a receiver while it is lent.
pub open spec fn stand_in(this: Option<Datum>) -> Option<Datum> {
    match this {
        Some(_) => Some(unit()),
        None => None,
    }
}

/// A run after a stop: the receiver is back as the host left it, and what it
/// waits for next is known.
pub open spec fn stopped(
    m: Machine,
    this: Option<Datum>,
    operands: Seq<Datum>,
    reply: Reply<Datum, Fail>,
) -> Machine {
    let m1 = m.with_this(
        match this {
            Some(_) => Some(crate::assign::first_of(operands)),
            None => None,
        },
    );
    match reply {
        Reply::Debug { status, .. } => m1.with_regs(Registers { status, ..m1.regs }),
        _ => m1,
    }
}

/// A step put off until its statement has ended.
pub open spec fn put_off(m: Machine, depth: u16, reply: Reply<Datum, Fail>) -> Machine {
    match reply {
        Reply::Debug { later: Some(status), .. } => Machine {
            pending_steps: m.pending_steps.push((m.regs.level, depth, status)),
            ..m
        },
        _ => m,
    }
}

/// Whether a stop failed.
pub open spec fn stop_outcome(reply: Reply<Datum, Fail>) -> Result<(), Fail> {
    match reply {
        Reply::Raised(err) => Err(err),
        _ => Ok(()),
    }
}

/// A statement boundary, where a debugger may stop.
pub open spec fn did_statement(m: Machine, scope: Names, depth: u16, pos: Position) -> (
    Result<(), Fail>,
    Machine,
    Names,
) {
    if !m.engine.debugger {
        (Ok(()), m, scope)
    } else {
        let m1 = arrived(m, depth);
        match asked_in(
            m1.with_this(stand_in(m.this)),
            scope,
            question(
                Ask::Statement { status: m1.regs.status, level: m.regs.level },
                ""@,
                lent_this(m.this),
                pos,
            ),
        ) {
            (Err(err), m2, left) => (Err(err), m2, left),
            (Ok(a), m2, left) => (
                stop_outcome(a.reply),
                put_off(stopped(m2, m.this, a.operands, a.reply), depth, a.reply),
                rewound(left, scope.len() as int),
            ),
        }
    }
}

/// Whether a debugger waits for the end of a function at this level.
pub open spec fn waits_for_exit(status: Status, level: usize) -> bool {
    match status {
        Status::FunctionExit(n) => n >= level,
        Status::Next(_, end) => end,
        _ => false,
    }
}

/// A run with a call listed.
pub open spec fn listed_call(
    m: Machine,
    name: Seq<char>,
    args: Seq<Datum>,
    pos: Position,
) -> Machine {
    if !m.engine.debugger {
        m
    } else {
        Machine {
            call_stack: m.call_stack.push(
                CallFrame {
                    name,
                    args: Seq::new(args.len(), |i: int| flat_copy(m.heap, args[i])),
                    source: m.source,
                    pos,
                },
            ),
            ..m
        }
    }
}

/// A run with the calls it listed when a function was entered.
pub open spec fn unlisted(m: Machine, calls: int) -> Machine {
    Machine { call_stack: cut(m.call_stack, calls), ..m }
}

/// The end of a function, reported to a debugger that waits for it: with its
/// value, or with its failure.
pub open spec fn exit_reported(
    m: Machine,
    scope: Names,
    result: Result<Datum, Fail>,
    calls: int,
    pos: Position,
) -> Gave {
    if !m.engine.debugger {
        (result, m, scope)
    } else if !waits_for_exit(m.regs.status, m.regs.level) {
        (result, unlisted(m, calls), scope)
    } else {
        match asked_in(
            m.with_this(stand_in(m.this)),
            scope,
            Request {
                failure: match result {
                    Ok(_) => None,
                    Err(err) => Some(err),
                },
                ..question(
                    Ask::FunctionExit { failed: result is Err },
                    ""@,
                    lent_this(m.this) + (match result {
                        Ok(v) => seq![copied(v)],
                        Err(_) => Seq::empty(),
                    }),
                    pos,
                )
            },
        ) {
            (Err(err), m1, left) => (Err(err), unlisted(m1, calls), left),
            (Ok(a), m1, left) => (
                match a.reply {
                    Reply::Raised(err) => Err(err),
                    _ => result,
                },
                unlisted(stopped(m1, m.this, a.operands, a.reply), calls),
                rewound(left, scope.len() as int),
            ),
        }
    }
}

/// The end of a run reported to a debugger, where one is registered.
pub open spec fn end_reported(m: Machine, scope: Names) -> (Result<(), Fail>, Machine, Names) {
    if !m.engine.debugger {
        (Ok(()), m, scope)
    } else {
        let m1 = m.with_regs(Registers { status: Status::Terminate, ..m.regs });
        match asked_in(m1, scope, question(Ask::End, ""@, Seq::empty(), nowhere())) {
            (Err(err), m2, left) => (Err(err), m2, left),
            (Ok(a), m2, left) => (
                stop_outcome(a.reply),
                match a.reply {
                    Reply::Debug { status, .. } => m2.with_regs(Registers { status, ..m2.regs }),
                    _ => m2,
                },
                left,
            ),
        }
    }
}

/// Take back off the scope whatever a stop left on it.
pub(crate) fn rewind_after_stop(scope: &mut Scope, before: usize)
    ensures
        final(scope)@ == rewound(old(scope)@, before as int),
{
    if scope.len() > before {
        scope.rewind(before);
    }
}

impl Vm<'_> {
    fn end_steps(&mut self, depth: u16)
        requires
            old(self).wf(),
        ensures
            final(self).reached(old(self)@, arrived(old(self)@, depth)),
    {
        let level: usize = self.regs.level;
        while self.pending_steps.len() > 0
            invariant
                self.wf(),
                level == old(self)@.regs.level,
                level == self@.regs.level,
                arrived(old(self)@, depth) == arrived(self@, depth),
            ensures
                arrived(old(self)@, depth) == self@,
            decreases self.pending_steps@.len(),
        {
            let step = self.pending_steps[self.pending_steps.len() - 1];
            assert(step == self@.pending_steps.last());
            if level > step.0 || (level == step.0 && depth > step.1) {
                break ;
            }
            let ghost before = self@;
            let _ = self.pending_steps.pop();
            self.regs.status = step.2;
            assert(self@.pending_steps =~= before.pending_steps.drop_last());
        }
    }

    fn take_reply(&mut self, bound: bool, answer: Answer) -> (reply: Reply<Dynamic, Error>)
        requires
            old(self).wf(),
            bound == (old(self)@.this is Some),
        ensures
            reply == answer.reply,
            forall|this: Option<Datum>|
                this is Some == bound ==> final(self)@ == #[trigger] stopped(
                    old(self)@,
                    this,
                    answer@.operands,
                    answer@.reply,
                ),
            final(self).wf(),
            crate::machine::follows(old(self)@, final(self)@),
    {
        self.this = if bound {
            Some(take_first(answer.operands))
        } else {
            None
        };
        if let Reply::Debug { status, .. } = &answer.reply {
            self.regs.status = *status;
        }
        answer.reply
    }

    /// Stop at a statement boundary.
    pub(crate) fn at_statement(
        &mut self,
        scope: &mut Scope,
        depth: u16,
        pos: Position,
    ) -> (out: Result<(), Error>)
        requires
            old(self).wf(),
        ensures
            final(self).did(
                old(self)@,
                out,
                final(scope)@,
                did_statement(old(self)@, old(scope)@, depth, pos),
            ),
    {
        if !self.engine.debugger {
            return Ok(());
        }
        self.end_steps(depth);
        let before: usize = scope.len();
        let ghost this = self@.this;
        let bound = self.this.is_some();
        let lent = match &mut self.this {
            Some(this) => single(this.take()),
            None => no_operands(),
        };
        let ask = Ask::Statement { status: self.regs.status, level: self.regs.level };
        let answer = self.ask_in(scope, ask, "", lent, pos)?;
        rewind_after_stop(scope, before);
        let ghost after = self@;
        let ghost given = answer@;
        let reply = self.take_reply(bound, answer);
        assert(self@ == stopped(after, this, given.operands, given.reply));
        match reply {
            Reply::Raised(err) => Err(err),
            Reply::Debug { later: Some(status), .. } => {
                self.pending_steps.push((self.regs.level, depth, status));
                Ok(())
            },
            _ => Ok(()),
        }
    }

    /// List a call for a debugger.
    pub(crate) fn list_call(&mut self, name: &str, scope: &Scope, start: usize, pos: Position)
        requires
            old(self).wf(),
            start <= scope@.len(),
        ensures
            final(self).reached(
                old(self)@,
                listed_call(
                    old(self)@,
                    name@,
                    Seq::new((scope@.len() - start) as nat, |i: int| scope@[start + i].1),
                    pos,
                ),
            ),
    {
        if !self.engine.debugger {
            return;
        }
        let ghost row = Seq::new((scope@.len() - start) as nat, |i: int| scope@[start + i].1);
        let len: usize = scope.len();
        let mut args: Vec<Dynamic> = Vec::new();
        let mut i: usize = start;
        while i < len
            invariant
                start <= i <= len == scope@.len(),
                self@ == old(self)@,
                args@.len() == i - start,
                forall|j: int|
                    0 <= j < args@.len() ==> (#[trigger] args@[j])@ == flat_copy(
                        self@.heap,
                        scope@[start + j].1,
                    ),
            decreases len - i,
        {
            args.push(self.heap.flatten_clone_value(scope.get_by_index(i)));
            i = i + 1;
        }
        assert(all_views(args@) =~= Seq::new(
            row.len(),
            |i: int| flat_copy(self@.heap, row[i]),
        ));
        let source = match &self.source {
            Some(s) => Some(s.clone()),
            None => None,
        };
        let ghost before = self@;
        let ghost frame = CallFrame { name: name@, args: all_views(args@), source: before.source, pos };
        self.call_stack.push(CallFrame { name: name.to_owned(), args, source, pos });
        assert(self@.call_stack =~= before.call_stack.push(frame));
    }

    fn unlist_calls(&mut self, calls: usize)
        requires
            old(self).wf(),
        ensures
            final(self).reached(old(self)@, unlisted(old(self)@, calls as int)),
    {
        let ghost before = self@;
        self.call_stack.truncate(calls);
        assert(self@.call_stack =~= cut(before.call_stack, calls as int));
    }

    fn stop_at_exit(
        &mut self,
        scope: &mut Scope,
        result: VmResult,
        pos: Position,
    ) -> (out: VmResult)
        requires
            old(self).wf(),
            old(self)@.engine.debugger,
            waits_for_exit(old(self)@.regs.status, old(self)@.regs.level),
        ensures
            forall|calls: int|
                ({
                    let (r, m, names) = #[trigger] exit_reported(
                        old(self)@,
                        old(scope)@,
                        crate::error::result_view(result),
                        calls,
                        pos,
                    );
                    &&& crate::error::result_view(out) == r
                    &&& unlisted(final(self)@, calls) == m
                    &&& final(scope)@ == names
                }),
            final(self).wf(),
            crate::machine::follows(old(self)@, final(self)@),
    {
        let before: usize = scope.len();
        let ghost this = self@.this;
        let bound = self.this.is_some();
        let mut lent = match &mut self.this {
            Some(this) => single(this.take()),
            None => no_operands(),
        };
        match result {
            Ok(v) => {
                let ghost row = all_views(lent@);
                lent.push(clone_value(&v));
                assert(all_views(lent@) =~= row + seq![copied(v@)]);
                let ask = Ask::FunctionExit { failed: false };
                let (answer, _) = self.ask_about(scope, ask, lent, None, pos)?;
                rewind_after_stop(scope, before);
                let ghost after = self@;
                let ghost given = answer@;
                let reply = self.take_reply(bound, answer);
                assert(self@ == stopped(after, this, given.operands, given.reply));
                match reply {
                    Reply::Raised(err) => Err(err),
                    _ => Ok(v),
                }
            },
            Err(err) => {
                assert(all_views(lent@) + Seq::<Datum>::empty() =~= all_views(lent@));
                let ask = Ask::FunctionExit { failed: true };
                let (answer, kept) = self.ask_about(scope, ask, lent, Some(err), pos)?;
                rewind_after_stop(scope, before);
                let ghost after = self@;
                let ghost given = answer@;
                let reply = self.take_reply(bound, answer);
                assert(self@ == stopped(after, this, given.operands, given.reply));
                match (reply, kept) {
                    (Reply::Raised(err), _) => Err(err),
                    (_, Some(err)) => Err(err),
                    (_, None) => Ok(Dynamic::unit()),
                }
            },
        }
    }

    /// Report the end of a function, and list only the calls there were before
    /// it.
    pub(crate) fn at_function_exit(
        &mut self,
        scope: &mut Scope,
        result: VmResult,
        calls: usize,
        pos: Position,
    ) -> (out: VmResult)
        requires
            old(self).wf(),
        ensures
            gave(
                *final(self),
                old(self)@,
                out,
                final(scope)@,
                exit_reported(
                    old(self)@,
                    old(scope)@,
                    crate::error::result_view(result),
                    calls as int,
                    pos,
                ),
            ),
    {
        if !self.engine.debugger {
            return result;
        }
        let level: usize = self.regs.level;
        let trigger = match self.regs.status {
            Status::FunctionExit(n) => n >= level,
            Status::Next(_, end) => end,
            _ => false,
        };
        if !trigger {
            self.unlist_calls(calls);
            return result;
        }
        let out = self.stop_at_exit(scope, result, pos);
        self.unlist_calls(calls);
        out
    }

    /// Report the end of a run.
    pub(crate) fn at_end(&mut self, scope: &mut Scope) -> (out: Result<(), Error>)
        requires
            old(self).wf(),
        ensures
            final(self).did(
                old(self)@,
                out,
                final(scope)@,
                end_reported(old(self)@, old(scope)@),
            ),
    {
        if !self.engine.debugger {
            return Ok(());
        }
        self.regs.status = Status::Terminate;
        let answer = self.ask_in(scope, Ask::End, "", no_operands(), Position::none())?;
        if let Reply::Debug { status, .. } = &answer.reply {
            self.regs.status = *status;
        }
        match answer.reply {
            Reply::Raised(err) => Err(err),
            _ => Ok(()),
        }
    }
}

/// A step over a statement is not taken up again inside it: wherever the run
/// is further in than that statement, nothing that waits changes.
pub proof fn steps_over_stay_over(
    pending: Seq<PendingStep>,
    status: Status,
    level: usize,
    depth: u16,
)
    requires
        pending.len() > 0,
    ensures
        lies_inside(level, depth, pending.last()) ==> steps_ended(pending, status, level, depth)
            == (pending, status),
        !lies_inside(level, depth, pending.last()) ==> steps_ended(
            pending,
            status,
            level,
            depth,
        ).0.len() < pending.len(),
    decreases pending.len(),
{
    if !lies_inside(level, depth, pending.last()) {
        let rest = pending.drop_last();
        assert(steps_ended(pending, status, level, depth) == steps_ended(
            rest,
            pending.last().2,
            level,
            depth,
        ));
        if rest.len() > 0 {
            steps_over_stay_over(rest, pending.last().2, level, depth);
        }
    }
}

/// Every step still waiting at a statement was asked at one the run is inside
/// of, as long as they were asked from the outside in.
pub proof fn waiting_steps_enclose(
    pending: Seq<PendingStep>,
    status: Status,
    level: usize,
    depth: u16,
    i: int,
)
    requires
        forall|a: int, b: int|
            0 <= a < b < pending.len() ==> lies_inside(
                (#[trigger] pending[b]).0,
                pending[b].1,
                #[trigger] pending[a],
            ),
        0 <= i < steps_ended(pending, status, level, depth).0.len(),
    ensures
        lies_inside(level, depth, steps_ended(pending, status, level, depth).0[i]),
    decreases pending.len(),
{
    if pending.len() > 0 {
        if lies_inside(level, depth, pending.last()) {
            if i < pending.len() - 1 {
                assert(lies_inside(
                    pending[pending.len() - 1].0,
                    pending[pending.len() - 1].1,
                    pending[i],
                ));
            }
        } else {
            waiting_steps_enclose(pending.drop_last(), pending.last().2, level, depth, i);
        }
    }
}

} // verus!
