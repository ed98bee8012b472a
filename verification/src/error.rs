//! What a run can fail with, and the two control transfers that travel as
//! failures.
use vstd::prelude::*;

use crate::position::Position;
use crate::value::{clone_value, Datum, Dynamic};

verus! {

/// The kinds of failure, over the types that hold values and text.
///
/// `FailureKind<Dynamic, String>` is what the machine raises and
/// `FailureKind<Datum, Seq<char>>` is its model.
#[derive(Debug)]
#[verifier::ext_equal]
pub enum FailureKind<V, S> {
    ErrorRuntime(V),
    ErrorVariableNotFound(S),
    ErrorFunctionNotFound(S),
    /// A failure inside a called function: its name, its source and the
    /// failure.
    ErrorInFunctionCall(S, S, Box<EvalAltResult<V, S>>),
    ErrorUnboundThis,
    ErrorAssignmentToConstant(S),
    ErrorDataRace(S),
    ErrorIndexingType(S),
    ErrorDotExpr(S),
    ErrorPropertyNotFound(S),
    ErrorMismatchDataType(S, S),
    ErrorMismatchOutputType(S, S),
    ErrorArithmetic(S),
    ErrorArrayBounds(usize, i64),
    ErrorFor,
    ErrorStackOverflow,
    ErrorTooManyOperations,
    ErrorTooManyVariables,
    ErrorDataTooLarge(S),
    ErrorTerminated(V),
    /// A word of the language where a name was wanted.
    ErrorParsing(S),
    /// A failure only the host knows of: what it says, and whether it is one no
    /// script may handle.
    ErrorHost(S, bool),
    /// The run stopped to ask its host for something.
    ErrorSuspended,
    /// A loop left or gone on with from outside the code it is in: whether it is
    /// left, and with what value.
    LoopBreak(bool, V),
    Return(V),
    Exit(V),
}

/// A failure and where it is blamed on.
#[derive(Debug)]
#[verifier::ext_equal]
pub struct EvalAltResult<V, S> {
    pub kind: FailureKind<V, S>,
    pub pos: Position,
}

/// What the machine raises.
pub type Error = EvalAltResult<Dynamic, String>;

/// The model of a raised failure.
pub type Fail = EvalAltResult<Datum, Seq<char>>;

/// What running something gives.
pub type VmResult = Result<Dynamic, Error>;

impl<V, S> EvalAltResult<V, S> {
    /// The same failure, blamed on another place.
    pub open spec fn at(self, pos: Position) -> EvalAltResult<V, S> {
        EvalAltResult { kind: self.kind, pos }
    }

    /// The same failure, blamed on this place if it was blamed on none.
    pub open spec fn placed(self, pos: Position) -> EvalAltResult<V, S> {
        if self.pos == crate::position::nowhere() {
            self.at(pos)
        } else {
            self
        }
    }

    /// Failures of the run itself, which no script may handle.
    pub open spec fn system(self) -> bool {
        self.kind is ErrorStackOverflow || self.kind is ErrorTooManyOperations
            || self.kind is ErrorTooManyVariables || self.kind is ErrorDataTooLarge
            || self.kind is ErrorTerminated || self.kind is ErrorParsing
            || self.kind is ErrorSuspended || (
        self.kind matches FailureKind::ErrorHost(_, system) && system)
    }

    /// Failures a `catch` may handle.
    pub open spec fn catchable(self) -> bool {
        !self.system() && !(self.kind is LoopBreak) && !(self.kind is Return) && !(
        self.kind is Exit)
    }

    /// What failed innermost, under any number of function calls.
    pub open spec fn innermost(self) -> EvalAltResult<V, S>
        decreases self,
    {
        match self.kind {
            FailureKind::ErrorInFunctionCall(_, _, inner) => inner.innermost(),
            _ => self,
        }
    }

    /// Where the failure is blamed on.
    pub fn position(&self) -> (pos: Position)
        ensures
            pos == self.pos,
    {
        self.pos
    }

    /// Blame the failure on another place.
    pub fn set_position(&mut self, pos: Position)
        ensures
            *final(self) == old(self).at(pos),
    {
        self.pos = pos;
    }

    /// Whether no script may handle this because it is the run's own.
    pub fn is_system_exception(&self) -> (r: bool)
        ensures
            r == self.system(),
    {
        matches!(
            &self.kind,
            FailureKind::ErrorStackOverflow | FailureKind::ErrorTooManyOperations
            | FailureKind::ErrorTooManyVariables | FailureKind::ErrorDataTooLarge(_)
            | FailureKind::ErrorTerminated(_) | FailureKind::ErrorSuspended
            | FailureKind::ErrorParsing(_) | FailureKind::ErrorHost(_, true)
        )
    }

    /// Whether a `catch` may handle this.
    pub fn is_catchable(&self) -> (r: bool)
        ensures
            r == self.catchable(),
    {
        !self.is_system_exception() && !matches!(
            &self.kind,
            FailureKind::LoopBreak(_, _) | FailureKind::Return(_) | FailureKind::Exit(_)
        )
    }
}

/// The model of a kind of failure.
pub open spec fn kind_view(kind: FailureKind<Dynamic, String>) -> FailureKind<Datum, Seq<char>>
    decreases kind,
{
    match kind {
        FailureKind::ErrorRuntime(v) => FailureKind::ErrorRuntime(v@),
        FailureKind::ErrorVariableNotFound(s) => FailureKind::ErrorVariableNotFound(s@),
        FailureKind::ErrorFunctionNotFound(s) => FailureKind::ErrorFunctionNotFound(s@),
        FailureKind::ErrorInFunctionCall(name, source, inner) => FailureKind::ErrorInFunctionCall(
            name@,
            source@,
            Box::new(EvalAltResult { kind: kind_view(inner.kind), pos: inner.pos }),
        ),
        FailureKind::ErrorUnboundThis => FailureKind::ErrorUnboundThis,
        FailureKind::ErrorAssignmentToConstant(s) => FailureKind::ErrorAssignmentToConstant(s@),
        FailureKind::ErrorDataRace(s) => FailureKind::ErrorDataRace(s@),
        FailureKind::ErrorIndexingType(s) => FailureKind::ErrorIndexingType(s@),
        FailureKind::ErrorDotExpr(s) => FailureKind::ErrorDotExpr(s@),
        FailureKind::ErrorPropertyNotFound(s) => FailureKind::ErrorPropertyNotFound(s@),
        FailureKind::ErrorMismatchDataType(a, b) => FailureKind::ErrorMismatchDataType(a@, b@),
        FailureKind::ErrorMismatchOutputType(a, b) => FailureKind::ErrorMismatchOutputType(a@, b@),
        FailureKind::ErrorArithmetic(s) => FailureKind::ErrorArithmetic(s@),
        FailureKind::ErrorArrayBounds(len, index) => FailureKind::ErrorArrayBounds(len, index),
        FailureKind::ErrorFor => FailureKind::ErrorFor,
        FailureKind::ErrorStackOverflow => FailureKind::ErrorStackOverflow,
        FailureKind::ErrorTooManyOperations => FailureKind::ErrorTooManyOperations,
        FailureKind::ErrorTooManyVariables => FailureKind::ErrorTooManyVariables,
        FailureKind::ErrorDataTooLarge(s) => FailureKind::ErrorDataTooLarge(s@),
        FailureKind::ErrorTerminated(v) => FailureKind::ErrorTerminated(v@),
        FailureKind::ErrorParsing(s) => FailureKind::ErrorParsing(s@),
        FailureKind::ErrorHost(s, system) => FailureKind::ErrorHost(s@, system),
        FailureKind::ErrorSuspended => FailureKind::ErrorSuspended,
        FailureKind::LoopBreak(left, v) => FailureKind::LoopBreak(left, v@),
        FailureKind::Return(v) => FailureKind::Return(v@),
        FailureKind::Exit(v) => FailureKind::Exit(v@),
    }
}

impl Error {
    /// The failure as a mathematical object.
    pub open spec fn view(self) -> Fail {
        EvalAltResult { kind: kind_view(self.kind), pos: self.pos }
    }

    /// The value thrown innermost, if a value was thrown.
    pub fn thrown(&self) -> (value: Option<Dynamic>)
        ensures
            match self@.innermost().kind {
                FailureKind::ErrorRuntime(v) => value is Some
                    && value->0@ == crate::value::copied(v),
                _ => value is None,
            },
        decreases self,
    {
        match &self.kind {
            FailureKind::ErrorInFunctionCall(_, _, inner) => inner.thrown(),
            FailureKind::ErrorRuntime(v) => Some(clone_value(v)),
            _ => None,
        }
    }

    /// Whether a value was raised to repeat the failure being handled.
    pub fn repeats(&self) -> (r: bool)
        ensures
            r == (self@.kind matches FailureKind::ErrorRuntime(v) && v.data is Unit),
    {
        match &self.kind {
            FailureKind::ErrorRuntime(v) => v.is_unit(),
            _ => false,
        }
    }
}

/// The model of a failure blamed on a place.
pub open spec fn fail(kind: FailureKind<Datum, Seq<char>>, pos: Position) -> Fail {
    EvalAltResult { kind, pos }
}

/// A failure blamed on a place.
pub fn raised(kind: FailureKind<Dynamic, String>, pos: Position) -> (err: Error)
    ensures
        err == (EvalAltResult { kind, pos }),
{
    EvalAltResult { kind, pos }
}

/// Stamp a place on a failure.
pub fn reposition(err: Error, pos: Position) -> (out: Error)
    ensures
        out@ == err@.at(pos),
{
    let mut out = err;
    out.set_position(pos);
    out
}

/// Stamp a place on a failure that arrived without one.
pub fn positioned(err: Error, pos: Position) -> (out: Error)
    ensures
        out@ == err@.placed(pos),
{
    if err.position().is_none() {
        reposition(err, pos)
    } else {
        err
    }
}

/// The place a dispatched call's failure is blamed on: the call, unless it
/// brought one of its own.
pub fn dispatch_failure(err: Error, pos: Position) -> (out: Error)
    ensures
        out@ == err@.placed(pos),
{
    positioned(err, pos)
}

/// A program that says something no compiler would have written.
pub open spec fn malformed_fail(detail: Seq<char>) -> Fail {
    EvalAltResult {
        kind: FailureKind::ErrorRuntime(
            crate::value::datum(crate::value::Data::Str("malformed chunk: "@ + detail)),
        ),
        pos: crate::position::nowhere(),
    }
}

/// A program that says something no compiler would have written.
pub fn malformed(detail: String) -> (err: Error)
    ensures
        err@ == malformed_fail(detail@),
{
    let text = "malformed chunk: ".to_owned().concat(detail.as_str());
    raised(FailureKind::ErrorRuntime(Dynamic::from_text(text)), Position::none())
}

/// A program that names something by a number that names nothing.
pub open spec fn unnumbered(before: Seq<char>, n: nat, after: Seq<char>) -> Fail {
    malformed_fail(before + crate::text::decimal_nat(n) + after)
}

/// A program that names something by a number that names nothing.
pub fn malformed_number(before: &str, n: u64, after: &str) -> (err: Error)
    ensures
        err@ == unnumbered(before@, n as nat, after@),
{
    malformed(crate::text::numbered(before, n, after))
}

/// No variable of this name.
pub fn missing(name: &str, pos: Position) -> (err: Error)
    ensures
        err@ == fail(FailureKind::ErrorVariableNotFound(name@), pos),
{
    raised(FailureKind::ErrorVariableNotFound(name.to_owned()), pos)
}

/// What a result is when failures are taken by their models.
pub open spec fn outcome<T>(result: Result<T, Error>) -> Result<T, Fail> {
    match result {
        Ok(value) => Ok(value),
        Err(err) => Err(err@),
    }
}

/// The model of what running something gives.
pub open spec fn result_view(result: VmResult) -> Result<Datum, Fail> {
    match result {
        Ok(value) => Ok(value@),
        Err(err) => Err(err@),
    }
}

/// A `return` and an `exit` taken back as the values they carry.
pub open spec fn unwound(result: Result<Datum, Fail>) -> Result<Datum, Fail> {
    match result {
        Err(EvalAltResult { kind: FailureKind::Return(out), .. }) => Ok(out),
        Err(EvalAltResult { kind: FailureKind::Exit(out), .. }) => Ok(out),
        _ => result,
    }
}

/// Whether something failed: a `return` and an `exit` are no failures.
pub fn is_failure(result: &VmResult) -> (r: bool)
    ensures
        r == (unwound(result_view(*result)) is Err),
{
    match result {
        Err(err) => !matches!(&err.kind, FailureKind::Return(_) | FailureKind::Exit(_)),
        Ok(_) => false,
    }
}

/// Turn the two control transfers back into the values they carry.
pub fn unwind_exit(result: VmResult) -> (out: VmResult)
    ensures
        result_view(out) == unwound(result_view(result)),
{
    match result {
        Err(EvalAltResult { kind: FailureKind::Return(out), .. }) => Ok(out),
        Err(EvalAltResult { kind: FailureKind::Exit(out), .. }) => Ok(out),
        other => other,
    }
}

} // verus!
