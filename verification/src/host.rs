//! What the machine asks of its host, and what the host answers.
//!
//! The machine runs by itself until it needs something only its host can do: a
//! native function, an operator of a host type, a fragment left to be
//! interpreted. It then looks for the answer among those it was given. Where
//! there is one it goes on; where there is none the run stops with
//! [`ErrorSuspended`](crate::error::FailureKind::ErrorSuspended) and the request
//! stands in [`Vm::request`](crate::machine::Vm::request). The host works the
//! answer out, adds it to the answers, and runs again: everything else about a
//! run is decided, so the second run arrives at the same request and passes it.
use vstd::prelude::*;

use crate::arith::BinOpKind;
use crate::debug::{call_views, StackFrame, StackFrameView, Status};
use crate::error::{Error, Fail};
use crate::heap::{CellView, Heap};
use crate::position::Position;
use crate::scope::{Names, Scope};
use crate::value::{all_views, unit, Datum, Dynamic};

verus! {

/// What is asked.
#[derive(Clone, Copy, Debug, PartialEq, Eq, Structural)]
pub enum Ask {
    /// Call the function the request names, with its operands. `captures`
    /// lends it the caller's scope; `site` is what resolving it gave before.
    Dispatch {
        native_only: bool,
        by_reference: bool,
        method: bool,
        captures: bool,
        site: Option<u64>,
    },
    /// What the named call resolves to: a handle, or nothing to remember.
    ResolveSite,
    /// The built-in for the named operator on two operands, if there is one.
    ResolveOperator,
    /// Run a built-in.
    Builtin { handle: u64, context: bool },
    /// Run the built-in operator assignment for two operands, if there is one.
    OpAssign,
    /// Whether there is one: a value, or nothing.
    HasOpAssign,
    /// Floating-point arithmetic on two operands.
    Float { kind: BinOpKind },
    /// The host's own answer for a variable, if it has one.
    ResolveVar,
    /// Interpret a fragment against the scope and the receiver.
    Residual { index: u16, rewind: bool },
    /// The element of a value that is neither an array nor a map.
    Element { add: bool, indexers: bool, bracket: Position },
    /// Put an element of such a value back.
    Propagate,
    /// Read through an indexer.
    IndexerGet,
    /// Write through an indexer.
    IndexerSet,
    /// Call a function pointer the machine has no body for.
    CallPointer { bound: bool },
    /// Answer one of the names the host answers itself.
    Syntactic,
    /// Render a value as text.
    Render,
    /// Start iterating over a value.
    Iterate,
    /// The next item of an iteration.
    NextItem { handle: u64 },
    /// What to say of a failure: a message, or an array of the message and a
    /// map of the failure's other parts.
    Describe,
    /// Whether to go on after this many operations.
    Progress { operations: u64 },
    /// The sizes of a value: array elements, map entries, string bytes.
    Measure,
    /// A statement, which a debugger that waits for this may stop at.
    Statement { status: Status, level: usize },
    /// A function is being left, with its value or its failure.
    FunctionExit { failed: bool },
    /// The run is over.
    End,
}

/// A question, over the types that hold text, values, failures, scopes and
/// calls.
#[derive(Debug)]
#[verifier::ext_equal]
pub struct Request<S, L, E, N, C> {
    pub ask: Ask,
    pub name: S,
    pub operands: L,
    pub failure: Option<E>,
    /// The scope lent to the host, where it is lent one.
    pub scope: Option<N>,
    /// The calls in progress, as a debugger lists them.
    pub calls: C,
    pub pos: Position,
}

/// A question the machine asks.
pub type HostRequest = Request<String, Vec<Dynamic>, Error, Scope, Vec<StackFrame>>;

/// The model of a question.
pub type RequestView = Request<Seq<char>, Seq<Datum>, Fail, Names, Seq<StackFrameView>>;

/// What an answer says.
#[derive(Debug)]
#[verifier::ext_equal]
pub enum Reply<V, E> {
    Value(V),
    Nothing,
    /// Something the host keeps, and whether using it wants the caller's
    /// context.
    Handle(u64, bool),
    /// What a debugger waits for next, and what it waits for once the
    /// statement has ended.
    Debug { status: Status, later: Option<Status> },
    Raised(E),
}

/// An answer: what it says, the operands as the host left them, the scope and
/// the cells where it changed them, and the operations it took.
#[derive(Debug)]
pub struct Answer {
    pub reply: Reply<Dynamic, Error>,
    pub operands: Vec<Dynamic>,
    pub scope: Option<Scope>,
    pub cells: Option<Heap>,
    pub operations: u64,
}

/// The model of an answer.
#[verifier::ext_equal]
pub struct AnswerView {
    pub reply: Reply<Datum, Fail>,
    pub operands: Seq<Datum>,
    pub scope: Option<Names>,
    pub cells: Option<Seq<CellView>>,
    pub operations: u64,
}

pub open spec fn request_view(r: HostRequest) -> RequestView {
    Request {
        ask: r.ask,
        name: r.name@,
        operands: all_views(r.operands@),
        failure: match r.failure {
            Some(err) => Some(err@),
            None => None,
        },
        scope: match r.scope {
            Some(scope) => Some(scope@),
            None => None,
        },
        calls: call_views(r.calls@),
        pos: r.pos,
    }
}

pub open spec fn reply_view(r: Reply<Dynamic, Error>) -> Reply<Datum, Fail> {
    match r {
        Reply::Value(v) => Reply::Value(v@),
        Reply::Nothing => Reply::Nothing,
        Reply::Handle(h, c) => Reply::Handle(h, c),
        Reply::Debug { status, later } => Reply::Debug { status, later },
        Reply::Raised(err) => Reply::Raised(err@),
    }
}

impl Answer {
    pub open spec fn view(self) -> AnswerView {
        AnswerView {
            reply: reply_view(self.reply),
            operands: all_views(self.operands@),
            scope: match self.scope {
                Some(s) => Some(s@),
                None => None,
            },
            cells: match self.cells {
                Some(h) => Some(h@),
                None => None,
            },
            operations: self.operations,
        }
    }

    /// An answer that says this and changes nothing else.
    pub fn plain(reply: Reply<Dynamic, Error>) -> (answer: Answer)
        ensures
            answer.reply == reply,
            answer.operands@.len() == 0,
            answer.scope is None && answer.cells is None,
            answer.operations == 0,
    {
        Answer { reply, operands: Vec::new(), scope: None, cells: None, operations: 0 }
    }
}

pub open spec fn answer_views(answers: Seq<Answer>) -> Seq<AnswerView> {
    Seq::new(answers.len(), |i: int| answers[i]@)
}

/// The value an answer gives: unit where it gives none.
pub open spec fn reply_value(reply: Reply<Datum, Fail>) -> Result<Datum, Fail> {
    match reply {
        Reply::Value(v) => Ok(v),
        Reply::Raised(err) => Err(err),
        _ => Ok(unit()),
    }
}

/// The value an answer gives: unit where it gives none.
pub fn value_of(reply: Reply<Dynamic, Error>) -> (out: Result<Dynamic, Error>)
    ensures
        crate::error::result_view(out) == reply_value(reply_view(reply)),
{
    match reply {
        Reply::Value(v) => Ok(v),
        Reply::Raised(err) => Err(err),
        _ => Ok(Dynamic::unit()),
    }
}

/// The operands of a question as the host left them: as they were, where it
/// did not say what became of each.
pub open spec fn left_with(before: Seq<Datum>, after: Seq<Datum>) -> Seq<Datum> {
    if after.len() == before.len() {
        after
    } else {
        before
    }
}

} // verus!
