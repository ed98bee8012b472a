//! The state of a run and the small steps everything else is made of.
//!
//! [`Vm`] is the executable state and [`Machine`] its model. A method of `Vm`
//! says what it does by a specification function from the model before to the
//! model after.
use vstd::prelude::*;

use crate::debug::{call_views, PendingStep, StackFrame, StackFrameView, Status};
use crate::engine::Engine;
use crate::error::{fail, malformed, malformed_fail, outcome, raised, Error, Fail, FailureKind};
use crate::heap::{CellView, Heap};
use crate::host::{
    answer_views, left_with, reply_value, reply_view, request_view, Answer, AnswerView, Ask,
    HostRequest, Reply, Request, RequestView,
};
use crate::memo::{memos_stamped, CallMemo, OperatorMemo};
use crate::position::Position;
use crate::scope::{Names, Scope};
use crate::stack::{reserved, truncated, Stack};
use crate::value::{all_views, Datum, Dynamic};

verus! {

/// One frame of a failed run, as an address rather than a position.
#[derive(Clone, Copy, Debug, PartialEq, Eq, Structural)]
pub struct Fault {
    /// Byte offset of the instruction this frame stopped at.
    pub address: usize,
    /// Which chain slot raised, where the instruction walks a chain.
    pub slot: Option<u32>,
}

/// What a running loop pulls its items from.
#[derive(Clone, Copy, Debug, PartialEq, Eq, Structural)]
pub enum Items {
    /// An exclusive integer range: the next integer, and where it ends.
    IntRange { next: i64, end: i64 },
    /// An iteration the host runs.
    Hosted { handle: u64 },
}

/// One loop in progress.
#[derive(Clone, Copy, Debug, PartialEq, Eq, Structural)]
pub struct Iteration {
    pub items: Items,
    /// The index of the item last handed out, starting one below the first.
    pub count: i64,
}

/// A `try` region, over the type that holds failures.
#[derive(Debug)]
#[verifier::ext_equal]
pub struct Handler<E> {
    pub target: usize,
    pub catch_var: Option<u16>,
    /// Where the stacks were when the region was entered.
    pub operands: usize,
    pub scope_len: usize,
    pub iters: usize,
    /// The failure being handled, once the catch block runs.
    pub caught: Option<E>,
}

/// The plain numbers of a run.
#[derive(Clone, Copy, Debug, PartialEq, Eq, Structural)]
pub struct Registers {
    /// Where the scope goes back to if an error leaves the running frame.
    pub unwind_floor: usize,
    /// Which step the innermost chain has reached.
    pub chain_step: usize,
    /// A failing chain's slot, waiting for its frame.
    pub pending_slot: Option<u32>,
    /// Whether this run may clear its trace.
    pub owns_trace: bool,
    /// The number of the running frame, and the last one handed out.
    pub generation: u64,
    pub last_generation: u64,
    pub level: usize,
    pub operations: u64,
    /// Whether variables have to be looked for by name from here on.
    pub always_search_scope: bool,
    /// How many layers the host's resolution cache has.
    pub caches: usize,
    /// Whether crossings of this run share what they finish with.
    pub pooled: bool,
    /// What a debugger waits for.
    pub status: Status,
}

/// The model of a run's state.
#[verifier::ext_equal]
pub struct Machine {
    pub engine: Engine,
    pub stack: Seq<Datum>,
    /// How many operands the stack has been given room for.
    pub room: nat,
    pub this: Option<Datum>,
    pub iterators: Seq<Iteration>,
    pub handlers: Seq<Handler<Fail>>,
    pub sizes: Seq<(usize, usize, usize)>,
    pub faults: Seq<Fault>,
    pub heap: Seq<CellView>,
    pub answers: Seq<AnswerView>,
    pub request: Option<RequestView>,
    pub operator_memo: Seq<OperatorMemo>,
    pub call_memo: Seq<Option<CallMemo>>,
    pub source: Option<Seq<char>>,
    pub lib: Seq<u64>,
    pub imports: Seq<u64>,
    pub resolver: Option<u64>,
    pub ranges: Seq<Option<bool>>,
    pub pending_steps: Seq<PendingStep>,
    pub call_stack: Seq<StackFrameView>,
    pub tag: Datum,
    pub callbacks: Option<u64>,
    pub regs: Registers,
}

/// Executes a program against an engine.
#[derive(Debug)]
pub struct Vm<'e> {
    pub(crate) engine: &'e Engine,
    pub(crate) stack: Stack,
    /// The receiver bound to the running frame.
    pub(crate) this: Option<Dynamic>,
    pub(crate) iterators: Vec<Iteration>,
    pub(crate) handlers: Vec<Handler<Error>>,
    /// The running size of each literal being built, innermost last.
    pub(crate) sizes: Vec<(usize, usize, usize)>,
    pub(crate) faults: Vec<Fault>,
    pub(crate) heap: Heap,
    /// The host's answers, the next one last.
    pub(crate) answers: Vec<Answer>,
    pub(crate) request: Option<HostRequest>,
    pub(crate) operator_memo: Vec<OperatorMemo>,
    pub(crate) call_memo: Vec<Option<CallMemo>>,
    pub(crate) source: Option<String>,
    pub(crate) lib: Vec<u64>,
    pub(crate) imports: Vec<u64>,
    /// The host's resolver of modules the program brings with it.
    pub(crate) resolver: Option<u64>,
    /// What the imported modules say about ranges: nothing, or whether one
    /// iterates the way it does by itself.
    pub(crate) ranges: Vec<Option<bool>>,
    /// The debugger's steps that wait for their statements to end.
    pub(crate) pending_steps: Vec<PendingStep>,
    /// The calls in progress, as a debugger lists them.
    pub(crate) call_stack: Vec<StackFrame>,
    pub(crate) tag: Dynamic,
    /// The program a pointer this run makes carries with it.
    pub(crate) callbacks: Option<u64>,
    /// Emptied scopes that finished calls gave back.
    pub(crate) scopes: Vec<Scope>,
    pub(crate) regs: Registers,
}

pub open spec fn opt_view(d: Option<Dynamic>) -> Option<Datum> {
    match d {
        Some(v) => Some(v@),
        None => None,
    }
}

pub open spec fn text_view(s: Option<String>) -> Option<Seq<char>> {
    match s {
        Some(v) => Some(v@),
        None => None,
    }
}

pub open spec fn handler_view(h: Handler<Error>) -> Handler<Fail> {
    Handler {
        target: h.target,
        catch_var: h.catch_var,
        operands: h.operands,
        scope_len: h.scope_len,
        iters: h.iters,
        caught: match h.caught {
            Some(err) => Some(err@),
            None => None,
        },
    }
}

pub open spec fn handler_views(handlers: Seq<Handler<Error>>) -> Seq<Handler<Fail>> {
    Seq::new(handlers.len(), |i: int| handler_view(handlers[i]))
}

/// What every step of a run keeps: the engine, the library and the call level
/// stay, a bound receiver stays bound, the trace stays whose it was, and neither
/// the operation count nor the count of frames goes back.
pub open spec fn follows(before: Machine, after: Machine) -> bool {
    &&& after.engine == before.engine
    &&& after.lib == before.lib
    &&& after.this is Some == before.this is Some
    &&& after.regs.level == before.regs.level
    &&& after.regs.owns_trace == before.regs.owns_trace
    &&& after.regs.operations >= before.regs.operations
    &&& after.regs.last_generation >= before.regs.last_generation
}

impl Machine {
    pub open spec fn push(self, v: Datum) -> Machine {
        Machine {
            stack: self.stack.push(v),
            room: reserved(self.room, self.stack.len(), 1),
            ..self
        }
    }

    /// A row of operands put on the stack, the first lowest.
    pub open spec fn push_all(self, row: Seq<Datum>) -> Machine {
        Machine {
            stack: self.stack + row,
            room: reserved(self.room, self.stack.len(), row.len()),
            ..self
        }
    }

    /// Room made for more operands.
    pub open spec fn reserve(self, extra: nat) -> Machine {
        Machine { room: reserved(self.room, self.stack.len(), extra), ..self }
    }

    pub open spec fn with_stack(self, stack: Seq<Datum>) -> Machine {
        Machine { stack, ..self }
    }

    pub open spec fn with_this(self, this: Option<Datum>) -> Machine {
        Machine { this, ..self }
    }

    pub open spec fn with_heap(self, heap: Seq<CellView>) -> Machine {
        Machine { heap, ..self }
    }

    pub open spec fn with_regs(self, regs: Registers) -> Machine {
        Machine { regs, ..self }
    }

    pub open spec fn truncate(self, depth: int) -> Machine {
        Machine { stack: truncated(self.stack, depth), ..self }
    }
}

/// The top operand and the machine without it.
pub open spec fn popped(m: Machine) -> Result<(Datum, Machine), Fail> {
    if m.stack.len() == 0 {
        Err(malformed_fail("operand stack underflow"@))
    } else {
        Ok((m.stack.last(), m.with_stack(m.stack.drop_last())))
    }
}

/// The sum of two counts, held at the largest there is.
pub open spec fn capped_count(a: u64, b: u64) -> u64 {
    if a + b > u64::MAX {
        u64::MAX
    } else {
        (a + b) as u64
    }
}

/// Whether a question makes the host look functions up.
pub open spec fn searches(ask: Ask) -> bool {
    ask is Dispatch || ask is ResolveSite
}

/// A run after taking an answer: its cells and operations are the answer's.
pub open spec fn answered(m: Machine, ask: Ask, a: AnswerView) -> Machine {
    Machine {
        answers: m.answers.drop_last(),
        heap: match a.cells {
            Some(cells) => cells,
            None => m.heap,
        },
        regs: Registers {
            operations: capped_count(m.regs.operations, a.operations),
            caches: if searches(ask) && m.regs.caches == 0 {
                1
            } else {
                m.regs.caches
            },
            ..m.regs
        },
        ..m
    }
}

/// An answer as it is used: its cells have gone into the run, and its operands
/// are those of the question as the host left them.
pub open spec fn given(a: AnswerView, operands: Seq<Datum>) -> AnswerView {
    AnswerView { operands: left_with(operands, a.operands), cells: None, ..a }
}

/// A run that stands at a question. One that already stands at one does not
/// ask another: what it does on its way out is done again when it is run again.
/// The calls in progress go with the question.
pub open spec fn standing_at(m: Machine, request: RequestView) -> Machine {
    match m.request {
        Some(_) => m,
        None => Machine {
            request: Some(Request { calls: m.call_stack, ..request }),
            call_stack: Seq::empty(),
            ..m
        },
    }
}

/// What asking gives: the next answer, or a suspended run.
pub open spec fn asked(m: Machine, request: RequestView) -> (Result<AnswerView, Fail>, Machine) {
    if m.answers.len() == 0 {
        (
            Err(fail(FailureKind::ErrorSuspended, request.pos)),
            standing_at(m, request),
        )
    } else {
        (
            Ok(given(m.answers.last(), request.operands)),
            answered(m, request.ask, m.answers.last()),
        )
    }
}

/// A question with nothing failed about it.
pub open spec fn question(
    ask: Ask,
    name: Seq<char>,
    operands: Seq<Datum>,
    pos: Position,
) -> RequestView {
    Request { ask, name, operands, failure: None, scope: None, calls: Seq::empty(), pos }
}

/// What asking with a scope lent gives: the host may leave another behind.
pub open spec fn asked_in(m: Machine, scope: Names, request: RequestView) -> (
    Result<AnswerView, Fail>,
    Machine,
    Names,
) {
    match asked(m, Request { scope: Some(scope), ..request }) {
        (Ok(a), m1) => (
            Ok(AnswerView { scope: None, ..a }),
            m1,
            match a.scope {
                Some(left) => left,
                None => scope,
            },
        ),
        (Err(err), m1) => (Err(err), m1, Names::empty()),
    }
}

/// What asking for a value gives.
pub open spec fn asked_value(m: Machine, request: RequestView) -> (
    Result<Datum, Fail>,
    Machine,
) {
    match asked(m, request) {
        (Ok(a), m1) => (reply_value(a.reply), m1),
        (Err(err), m1) => (Err(err), m1),
    }
}

/// The model of what asking gives.
pub open spec fn answer_outcome(out: Result<Answer, Error>) -> Result<AnswerView, Fail> {
    match out {
        Ok(a) => Ok(a@),
        Err(err) => Err(err@),
    }
}

/// A run with one more operation counted, unless that is one too many.
pub open spec fn counted(m: Machine, pos: Position) -> (Result<(), Fail>, Machine) {
    if m.regs.operations == u64::MAX {
        (Err(fail(FailureKind::ErrorTooManyOperations, pos)), m)
    } else {
        let m1 = m.with_regs(
            Registers { operations: (m.regs.operations + 1) as u64, ..m.regs },
        );
        if m.engine.max_operations > 0 && m1.regs.operations > m.engine.max_operations {
            (Err(fail(FailureKind::ErrorTooManyOperations, pos)), m1)
        } else if m.engine.watches_progress {
            match asked(
                m1,
                question(
                    Ask::Progress { operations: m1.regs.operations },
                    ""@,
                    Seq::empty(),
                    pos,
                ),
            ) {
                (Ok(a), m2) => match a.reply {
                    Reply::Value(token) => (
                        Err(fail(FailureKind::ErrorTerminated(token), pos)),
                        m2,
                    ),
                    _ => (Ok(()), m2),
                },
                (Err(err), m2) => (Err(err), m2),
            }
        } else {
            (Ok(()), m1)
        }
    }
}

/// A run with a frame added to its trace.
pub open spec fn fault_recorded(m: Machine, address: usize) -> Machine {
    Machine {
        faults: m.faults.push(Fault { address, slot: m.regs.pending_slot }),
        regs: Registers { pending_slot: None, ..m.regs },
        ..m
    }
}

/// A run with its trace cleared, where it is the run's to clear.
pub open spec fn faults_cleared(m: Machine) -> Machine {
    if m.regs.owns_trace {
        Machine {
            faults: Seq::empty(),
            regs: Registers { pending_slot: None, ..m.regs },
            ..m
        }
    } else {
        m
    }
}

impl<'e> Vm<'e> {
    /// The state as a mathematical object.
    pub open(crate) spec fn view(self) -> Machine {
        Machine {
            engine: *self.engine,
            stack: self.stack@,
            room: self.stack.room(),
            this: opt_view(self.this),
            iterators: self.iterators@,
            handlers: handler_views(self.handlers@),
            sizes: self.sizes@,
            faults: self.faults@,
            heap: self.heap@,
            answers: answer_views(self.answers@),
            request: match self.request {
                Some(r) => Some(request_view(r)),
                None => None,
            },
            operator_memo: self.operator_memo@,
            call_memo: self.call_memo@,
            source: text_view(self.source),
            lib: self.lib@,
            imports: self.imports@,
            resolver: self.resolver,
            ranges: self.ranges@,
            pending_steps: self.pending_steps@,
            call_stack: call_views(self.call_stack@),
            tag: self.tag@,
            callbacks: self.callbacks,
            regs: self.regs,
        }
    }

    /// A state a run can be in: the operand stack is sound, the memo tables have
    /// their sizes and hold nothing of a frame still to come, and every scope
    /// waiting to be lent is empty.
    pub open(crate) spec fn wf(self) -> bool {
        &&& self.stack.wf()
        &&& self.engine.wf()
        &&& self.operator_memo@.len() == crate::memo::OPERATOR_MEMO_SLOTS
        &&& self.call_memo@.len() == 0 || self.call_memo@.len() == crate::memo::CALL_MEMO_SLOTS
        &&& memos_stamped(self.operator_memo@, self.call_memo@, self.regs.last_generation)
        &&& self.regs.generation <= self.regs.last_generation
        &&& forall|i: int|
            0 <= i < self.scopes@.len() ==> (#[trigger] self.scopes@[i])@ == Names::empty()
    }

    /// The state is sound, is the one expected and follows the one before.
    pub open(crate) spec fn reached(self, before: Machine, expected: Machine) -> bool {
        &&& self.wf()
        &&& self@ == expected
        &&& follows(before, expected)
    }

    /// The same, but for the receiver, which goes to a walk or comes back from it.
    pub open(crate) spec fn passed(self, before: Machine, expected: Machine) -> bool {
        &&& self.wf()
        &&& self@ == expected
        &&& follows(before.with_this(None), expected.with_this(None))
    }

    /// Put a value on the operand stack.
    pub(crate) fn push(&mut self, value: Dynamic)
        requires
            old(self).wf(),
        ensures
            final(self).reached(old(self)@, old(self)@.push(value@)),
    {
        self.stack.push(value);
    }

    /// Take the top operand.
    pub(crate) fn pop(&mut self) -> (out: Result<Dynamic, Error>)
        requires
            old(self).wf(),
        ensures
            match popped(old(self)@) {
                Ok((v, m)) => out matches Ok(value) && value@ == v && final(self).reached(
                    old(self)@,
                    m,
                ),
                Err(e) => out matches Err(err) && err@ == e && final(self).reached(
                    old(self)@,
                    old(self)@,
                ),
            },
    {
        match self.stack.pop() {
            Some(value) => Ok(value),
            None => Err(malformed("operand stack underflow".to_owned())),
        }
    }

    fn next_answer(
        &mut self,
        ask: Ask,
        operands: Vec<Dynamic>,
    ) -> (out: Result<Answer, Vec<Dynamic>>)
        requires
            old(self).wf(),
        ensures
            match out {
                Ok(a) => old(self)@.answers.len() > 0 && a@ == given(
                    old(self)@.answers.last(),
                    all_views(operands@),
                ) && final(self).reached(
                    old(self)@,
                    answered(old(self)@, ask, old(self)@.answers.last()),
                ),
                Err(back) => old(self)@.answers.len() == 0 && back == operands
                    && final(self).reached(old(self)@, old(self)@),
            },
    {
        let ghost before = self@;
        match self.answers.pop() {
            None => Err(operands),
            Some(answer) => {
                assert(answer_views(self.answers@) =~= before.answers.drop_last());
                assert(before.answers.last() == answer@);
                let mut answer = answer;
                self.regs.operations = if self.regs.operations > u64::MAX - answer.operations {
                    u64::MAX
                } else {
                    self.regs.operations + answer.operations
                };
                if matches!(ask, Ask::Dispatch { .. } | Ask::ResolveSite) && self.regs.caches == 0 {
                    self.regs.caches = 1;
                }
                match answer.cells.take() {
                    Some(cells) => {
                        self.heap = cells;
                    },
                    None => {},
                }
                if answer.operands.len() != operands.len() {
                    answer.operands = operands;
                }
                Ok(answer)
            },
        }
    }

    fn stand_at(&mut self, request: HostRequest)
        requires
            old(self).wf(),
        ensures
            final(self).reached(old(self)@, standing_at(old(self)@, request_view(request))),
    {
        if self.request.is_none() {
            let mut request = request;
            let ghost before = self@;
            request.calls = Vec::new();
            core::mem::swap(&mut self.call_stack, &mut request.calls);
            assert(call_views(self.call_stack@) =~= Seq::empty());
            assert(request_view(request).calls == before.call_stack);
            self.request = Some(request);
        }
    }

    /// Ask the host something.
    pub(crate) fn ask(
        &mut self,
        ask: Ask,
        name: &str,
        operands: Vec<Dynamic>,
        pos: Position,
    ) -> (out: Result<Answer, Error>)
        requires
            old(self).wf(),
        ensures
            ({
                let (r, m) = asked(old(self)@, question(ask, name@, all_views(operands@), pos));
                answer_outcome(out) == r && final(self).reached(old(self)@, m)
            }),
    {
        match self.next_answer(ask, operands) {
            Ok(answer) => Ok(answer),
            Err(operands) => {
                self.stand_at(
                    Request {
                        ask,
                        name: name.to_owned(),
                        operands,
                        failure: None,
                        scope: None,
                        calls: Vec::new(),
                        pos,
                    },
                );
                Err(raised(FailureKind::ErrorSuspended, pos))
            },
        }
    }

    /// Ask the host something, lending it a scope.
    pub(crate) fn ask_in(
        &mut self,
        scope: &mut Scope,
        ask: Ask,
        name: &str,
        operands: Vec<Dynamic>,
        pos: Position,
    ) -> (out: Result<Answer, Error>)
        requires
            old(self).wf(),
        ensures
            ({
                let (r, m, sc) = asked_in(
                    old(self)@,
                    old(scope)@,
                    question(ask, name@, all_views(operands@), pos),
                );
                answer_outcome(out) == r && final(self).reached(old(self)@, m) && final(scope)@
                    == sc
            }),
    {
        match self.next_answer(ask, operands) {
            Ok(answer) => {
                let mut answer = answer;
                if let Some(changed) = answer.scope.take() {
                    let mut changed = changed;
                    core::mem::swap(scope, &mut changed);
                }
                Ok(answer)
            },
            Err(operands) => {
                let mut lent = Scope::new();
                core::mem::swap(scope, &mut lent);
                self.stand_at(
                    Request {
                        ask,
                        name: name.to_owned(),
                        operands,
                        failure: None,
                        scope: Some(lent),
                        calls: Vec::new(),
                        pos,
                    },
                );
                Err(raised(FailureKind::ErrorSuspended, pos))
            },
        }
    }

    /// Ask the host something, lending it a scope and telling it of a failure.
    pub(crate) fn ask_about(
        &mut self,
        scope: &mut Scope,
        ask: Ask,
        operands: Vec<Dynamic>,
        failure: Option<Error>,
        pos: Position,
    ) -> (out: Result<(Answer, Option<Error>), Error>)
        requires
            old(self).wf(),
        ensures
            ({
                let (r, m, sc) = asked_in(
                    old(self)@,
                    old(scope)@,
                    Request {
                        failure: match failure {
                            Some(err) => Some(err@),
                            None => None,
                        },
                        ..question(ask, ""@, all_views(operands@), pos)
                    },
                );
                &&& match out {
                    Ok((answer, kept)) => r == Ok::<AnswerView, Fail>(answer@) && kept == failure,
                    Err(err) => r == Err::<AnswerView, Fail>(err@),
                }
                &&& final(self).reached(old(self)@, m)
                &&& final(scope)@ == sc
            }),
    {
        match self.next_answer(ask, operands) {
            Ok(answer) => {
                let mut answer = answer;
                if let Some(changed) = answer.scope.take() {
                    let mut changed = changed;
                    core::mem::swap(scope, &mut changed);
                }
                Ok((answer, failure))
            },
            Err(operands) => {
                let mut lent = Scope::new();
                core::mem::swap(scope, &mut lent);
                self.stand_at(
                    Request {
                        ask,
                        name: "".to_owned(),
                        operands,
                        failure,
                        scope: Some(lent),
                        calls: Vec::new(),
                        pos,
                    },
                );
                Err(raised(FailureKind::ErrorSuspended, pos))
            },
        }
    }

    /// Ask the host for the parts of a failure.
    pub(crate) fn ask_describe(&mut self, err: Error) -> (out: Result<
        (Reply<Dynamic, Error>, Error),
        Error,
    >)
        requires
            old(self).wf(),
        ensures
            ({
                let (r, m) = asked(
                    old(self)@,
                    Request {
                        ask: Ask::Describe,
                        name: match old(self)@.source {
                            Some(s) => s,
                            None => ""@,
                        },
                        operands: Seq::empty(),
                        failure: Some(err@),
                        scope: None,
                        calls: Seq::empty(),
                        pos: err.pos,
                    },
                );
                (match out {
                    Ok((reply, kept)) => r matches Ok(a) && a.reply == reply_view(reply) && kept
                        == err,
                    Err(e) => r == Err::<AnswerView, Fail>(e@),
                }) && final(self).reached(old(self)@, m)
            }),
    {
        let none: Vec<Dynamic> = Vec::new();
        assert(all_views(none@) =~= Seq::<Datum>::empty());
        match self.next_answer(Ask::Describe, none) {
            Ok(answer) => Ok((answer.reply, err)),
            Err(operands) => {
                let name = match &self.source {
                    Some(s) => s.clone(),
                    None => "".to_owned(),
                };
                let pos = err.position();
                self.stand_at(
                    Request {
                        ask: Ask::Describe,
                        name,
                        operands,
                        failure: Some(err),
                        scope: None,
                        calls: Vec::new(),
                        pos,
                    },
                );
                Err(raised(FailureKind::ErrorSuspended, pos))
            },
        }
    }

    /// Count an operation, and stop where the host or a limit says so.
    pub(crate) fn track_operation(&mut self, pos: Position) -> (out: Result<(), Error>)
        requires
            old(self).wf(),
        ensures
            ({
                let (r, m) = counted(old(self)@, pos);
                outcome(out) == r && final(self).reached(old(self)@, m)
            }),
            out is Ok ==> final(self)@.regs.operations > old(self)@.regs.operations,
    {
        if self.regs.operations == u64::MAX {
            return Err(raised(FailureKind::ErrorTooManyOperations, pos));
        }
        self.regs.operations = self.regs.operations + 1;
        if self.engine.max_operations > 0 && self.regs.operations > self.engine.max_operations {
            return Err(raised(FailureKind::ErrorTooManyOperations, pos));
        }
        if self.engine.watches_progress {
            let none: Vec<Dynamic> = Vec::new();
            assert(all_views(none@) =~= Seq::<Datum>::empty());
            let answer = self.ask(
                Ask::Progress { operations: self.regs.operations },
                "",
                none,
                pos,
            )?;
            if let Reply::Value(token) = answer.reply {
                return Err(raised(FailureKind::ErrorTerminated(token), pos));
            }
        }
        Ok(())
    }

    /// Note that a frame stopped at an address, as an error leaves it.
    pub(crate) fn record_fault(&mut self, address: usize)
        requires
            old(self).wf(),
        ensures
            final(self).reached(old(self)@, fault_recorded(old(self)@, address)),
    {
        let slot = self.regs.pending_slot.take();
        self.faults.push(Fault { address, slot });
    }

    /// Forget where a run failed, because it did not or has not yet.
    pub(crate) fn clear_faults(&mut self)
        requires
            old(self).wf(),
        ensures
            final(self).reached(old(self)@, faults_cleared(old(self)@)),
    {
        if self.regs.owns_trace {
            self.regs.pending_slot = None;
            self.faults.clear();
        }
    }

    /// Drop operands, down to `depth` of them.
    pub(crate) fn truncate_stack(&mut self, depth: usize)
        requires
            old(self).wf(),
        ensures
            final(self).reached(old(self)@, old(self)@.truncate(depth as int)),
    {
        self.stack.truncate(depth);
    }

    /// An empty scope for a call that starts one of its own: the one given back
    /// last, or a new one where none is left.
    pub(crate) fn take_scope(&mut self) -> (scope: Scope)
        requires
            old(self).wf(),
        ensures
            scope@ == Names::empty(),
            old(self).scopes@.len() > 0 ==> scope == old(self).scopes@.last()
                && final(self).scopes@ == old(self).scopes@.drop_last(),
            old(self).scopes@.len() == 0 ==> final(self).scopes@ == old(self).scopes@,
            final(self).reached(old(self)@, old(self)@),
    {
        match self.scopes.pop() {
            Some(scope) => {
                assert(old(self).scopes@[old(self).scopes@.len() - 1] == scope);
                scope
            },
            None => Scope::new(),
        }
    }

    /// Take a finished call's scope back, emptied, to lend again.
    pub(crate) fn give_scope(&mut self, scope: Scope)
        requires
            old(self).wf(),
        ensures
            final(self).scopes@.len() == old(self).scopes@.len() + 1,
            final(self).scopes@.drop_last() == old(self).scopes@,
            final(self).scopes@.last()@ == Names::empty(),
            final(self).reached(old(self)@, old(self)@),
    {
        let mut scope = scope;
        scope.clear();
        self.scopes.push(scope);
        assert(self.scopes@.drop_last() =~= old(self).scopes@);
    }
}

} // verus!
