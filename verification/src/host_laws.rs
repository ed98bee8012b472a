//! What passes between the machine and its host: failures, the engine's settings,
//! a debugger's steps, the functions handed out and the answers taken in.
use vstd::prelude::*;

use crate::callback::{
    handed_over, kept_back, lent_caches, wrapped, wrappers_of, SearchedView, WarmView,
};
use crate::debug::{
    did_statement, end_reported, exit_reported, listed_call, steps_ended, waits_for_exit,
    PendingStep, Status,
};
use crate::engine::{mapped_from, said_from, Engine};
use crate::error::{unwound, Fail, FailureKind};
use crate::host::{Ask, Reply};
use crate::machine::{Items, Machine};
use crate::memo::{codes_of, packed, pair_code};
use crate::ops::{did_check_size, did_eval_ast, did_iter_init, natural_range};
use crate::position::{nowhere, Position};
use crate::program::{Function, Program};
use crate::scope::Names;
use crate::value::{code_of, copied, Data, Datum};
use crate::vm::{cast_to, Output};

verus! {

// ---------------------------------------------------------------------------
// Failures.

/// A failure keeps the place it already has, and one without a place takes the
/// one it is given; its kind never changes.
pub proof fn failures_keep_their_place(err: Fail, pos: Position)
    ensures
        err.pos != nowhere() ==> err.placed(pos) == err,
        err.pos == nowhere() ==> err.placed(pos).pos == pos,
        err.placed(pos).kind == err.kind,
        err.at(pos).pos == pos && err.at(pos).kind == err.kind,
{
}

/// The innermost failure is under every call it came through, and is no failure
/// of a call itself.
pub proof fn innermost_failures_are_no_calls(err: Fail)
    ensures
        !(err.innermost().kind is ErrorInFunctionCall),
        !(err.kind is ErrorInFunctionCall) ==> err.innermost() == err,
        err.kind matches FailureKind::ErrorInFunctionCall(_, _, inner) ==> err.innermost()
            == inner.innermost(),
    decreases err,
{
    if let FailureKind::ErrorInFunctionCall(_, _, inner) = err.kind {
        innermost_failures_are_no_calls(*inner);
    }
}

/// A script may catch what it raised and what its own code did wrong, but no
/// limit, no end of the run, and nothing that only steers control.
pub proof fn limits_are_not_caught(err: Fail)
    ensures
        err.kind is ErrorStackOverflow || err.kind is ErrorTooManyOperations
            || err.kind is ErrorTooManyVariables || err.kind is ErrorDataTooLarge
            || err.kind is ErrorTerminated || err.kind is ErrorParsing || err.kind is ErrorSuspended
            || err.kind is LoopBreak || err.kind is Return || err.kind is Exit ==> !err.catchable(),
        err.kind matches FailureKind::ErrorHost(_, system) ==> err.catchable() == !system,
        err.kind is ErrorRuntime || err.kind is ErrorVariableNotFound
            || err.kind is ErrorFunctionNotFound || err.kind is ErrorInFunctionCall
            || err.kind is ErrorUnboundThis || err.kind is ErrorAssignmentToConstant
            || err.kind is ErrorDataRace || err.kind is ErrorIndexingType || err.kind is ErrorDotExpr
            || err.kind is ErrorPropertyNotFound || err.kind is ErrorMismatchDataType
            || err.kind is ErrorMismatchOutputType || err.kind is ErrorArithmetic
            || err.kind is ErrorArrayBounds || err.kind is ErrorFor ==> err.catchable(),
{
}

/// A return and an exit end a run with their value, and nothing else does.
pub proof fn returns_end_with_their_value(v: Datum, err: Fail)
    ensures
        unwound(Ok::<Datum, Fail>(v)) == Ok::<Datum, Fail>(v),
        err.kind matches FailureKind::Return(out) ==> unwound(Err::<Datum, Fail>(err)) == Ok::<
            Datum,
            Fail,
        >(out),
        err.kind matches FailureKind::Exit(out) ==> unwound(Err::<Datum, Fail>(err)) == Ok::<
            Datum,
            Fail,
        >(out),
        !(err.kind is Return || err.kind is Exit) ==> unwound(Err::<Datum, Fail>(err)) == Err::<
            Datum,
            Fail,
        >(err),
{
}

/// A result is handed out as it is where it has the kind that was asked for, and
/// is a mismatch otherwise; a failure stays one.
pub proof fn results_are_of_the_kind_asked_for(
    m: Machine,
    v: Datum,
    err: Fail,
    wanted: Output,
)
    requires
        !(v.data is Shared),
    ensures
        cast_to(m, Err::<Datum, Fail>(err), wanted) == Err::<Datum, Fail>(err),
        cast_to(m, Ok::<Datum, Fail>(v), Output::Any) == Ok::<Datum, Fail>(v),
        ({
            let suited = match wanted {
                Output::Any => true,
                Output::Unit => v.data is Unit,
                Output::Bool => v.data is Bool,
                Output::Int => v.data is Int,
                Output::Float => v.data is Float,
                Output::Char => v.data is Char,
                Output::Str => v.data is Str,
                Output::Array => v.data is Array,
                Output::Dict => v.data is Dict,
                Output::FnPtr => v.data is FnPtr,
                Output::Blob => v.data is Blob,
                Output::TimeStamp => v.data is TimeStamp,
                Output::Range => v.data is Range,
            };
            &&& suited ==> cast_to(m, Ok::<Datum, Fail>(v), wanted) == Ok::<Datum, Fail>(v)
            &&& !suited ==> (cast_to(m, Ok::<Datum, Fail>(v), wanted) matches Err(e)
                && e.kind is ErrorMismatchOutputType)
        }),
{
}

// ---------------------------------------------------------------------------
// The engine.

/// A type goes by the first name it was given, and by its own where it was given
/// none.
pub proof fn types_go_by_their_given_name(names: Seq<(String, String)>, name: Seq<char>, from: int)
    requires
        0 <= from <= names.len(),
    ensures
        (forall|i: int| from <= i < names.len() ==> (#[trigger] names[i]).0@ != name)
            ==> mapped_from(names, name, from) == name,
        forall|i: int|
            from <= i < names.len() && (#[trigger] names[i]).0@ == name && (forall|j: int|
                from <= j < i ==> (#[trigger] names[j]).0@ != name) ==> mapped_from(
                names,
                name,
                from,
            ) == names[i].1@,
    decreases names.len() - from,
{
    if from < names.len() && names[from].0@ != name {
        types_go_by_their_given_name(names, name, from + 1);
    }
}

/// The first who says anything decides.
pub proof fn the_first_to_say_decides(said: Seq<Option<bool>>, from: int)
    requires
        0 <= from <= said.len(),
    ensures
        (forall|i: int| from <= i < said.len() ==> (#[trigger] said[i]) is None) ==> said_from(
            said,
            from,
        ) is None,
        forall|i: int|
            from <= i < said.len() && (#[trigger] said[i]) is Some && (forall|j: int|
                from <= j < i ==> (#[trigger] said[j]) is None) ==> said_from(said, from)
                == said[i],
    decreases said.len() - from,
{
    if from < said.len() && said[from] is None {
        the_first_to_say_decides(said, from + 1);
    }
}

/// Whether the machine walks ranges itself is for the engine's own modules to
/// say, then for those imported, then for those the engine shares, and it does
/// not where nobody says so.
pub proof fn ranges_are_walked_where_it_is_said(m: Machine)
    ensures
        said_from(m.engine.ranges@, 0) matches Some(own) ==> natural_range(m) == own,
        said_from(m.engine.ranges@, 0) is None ==> (said_from(m.ranges, 0) matches Some(imported)
            ==> natural_range(m) == imported),
        said_from(m.engine.ranges@, 0) is None && said_from(m.ranges, 0) is None ==> (said_from(
            m.engine.sub_ranges@,
            0,
        ) matches Some(shared) ==> natural_range(m) == shared),
        said_from(m.engine.ranges@, 0) is None && said_from(m.ranges, 0) is None && said_from(
            m.engine.sub_ranges@,
            0,
        ) is None ==> !natural_range(m),
{
}

/// Data is too large where it is over a limit that is set, and a limit of nought
/// is none.
pub proof fn limits_are_kept(e: Engine, arrays: usize, maps: usize, strings: usize)
    ensures
        e.too_large(arrays, maps, strings) is None <==> (e.max_array_size == 0 || arrays
            <= e.max_array_size) && (e.max_map_size == 0 || maps <= e.max_map_size) && (
        e.max_string_size == 0 || strings <= e.max_string_size),
        e.too_large(arrays, maps, strings) matches Some(err) ==> err.kind is ErrorDataTooLarge,
{
}

/// The size of a literal is that of its elements together with the elements
/// themselves, and is refused as soon as it is over a limit.
pub proof fn literals_are_measured(
    m: Machine,
    scope: Names,
    map: bool,
    index: u16,
    pos: Position,
    size: Datum,
    row: Seq<Datum>,
    a: i64,
    b: i64,
    c: i64,
)
    requires
        index > 0,
        m.stack.len() > 0,
        m.sizes.len() > 0,
        m.answers.len() > 0,
        m.answers.last().reply == Reply::<Datum, Fail>::Value(size),
        size.data == Data::Array(row),
        row.len() == 3,
        row[0].data == Data::Int(a),
        row[1].data == Data::Int(b),
        row[2].data == Data::Int(c),
        a >= 0 && b >= 0 && c >= 0,
        m.sizes.last().0 + a + 1 <= usize::MAX,
        m.sizes.last().1 + b + 1 <= usize::MAX,
        m.sizes.last().2 + c <= usize::MAX,
        m.engine.max_array_size > 0,
    ensures
        ({
            let (r, after, left) = did_check_size(m, scope, index, map, pos);
            let total = after.sizes.last();
            &&& left == scope && after.stack == m.stack
            &&& after.sizes.len() == m.sizes.len()
            &&& after.sizes.drop_last() == m.sizes.drop_last()
            &&& !map ==> total.0 == m.sizes.last().0 + a + 1 && total.1 == m.sizes.last().1 + b
            &&& map ==> total.0 == m.sizes.last().0 + a && total.1 == m.sizes.last().1 + b + 1
            &&& total.2 == m.sizes.last().2 + c
            &&& r is Ok <==> m.engine.too_large(total.0, total.1, total.2) is None
            &&& r matches Err(err) ==> err.pos == pos
        }),
{
    let (_, after, _) = did_check_size(m, scope, index, map, pos);
    assert(after.sizes.drop_last() =~= m.sizes.drop_last());
}

// ---------------------------------------------------------------------------
// Questions.

/// What a residual comes to is the host's answer, put on the stack, with the
/// receiver as the host left it; a failure it raises is raised.
pub proof fn residuals_are_the_hosts(
    p: Program,
    m: Machine,
    scope: Names,
    index: u16,
    rewind: bool,
    pos: Position,
)
    requires
        index < p.residuals,
    ensures
        ({
            let (r, after, left) = did_eval_ast(p, m, scope, index, rewind, pos);
            &&& m.answers.len() > 0 ==> match m.answers.last().reply {
                Reply::Value(v) => r is Ok && after.stack == m.stack.push(v),
                Reply::Raised(err) => r == Err::<(), Fail>(err) && after.stack == m.stack,
                _ => r is Ok && after.stack.len() == m.stack.len() + 1,
            }
            &&& m.answers.len() > 0 ==> after.answers == m.answers.drop_last() && (after.this is Some
                == m.this is Some)
            &&& m.answers.len() == 0 ==> (r matches Err(err) && err.kind is ErrorSuspended
                && err.pos == pos)
            &&& m.answers.len() == 0 && m.request is None ==> (after.request matches Some(asked_for)
                && asked_for.ask == (Ask::Residual { index, rewind }) && asked_for.scope == Some(
                scope,
            ) && asked_for.pos == pos && (m.this matches Some(this) ==> asked_for.operands == seq![
                this,
            ]))
        }),
        ({
            let (r, after, left) = did_eval_ast(p, m, scope, p.residuals as u16, rewind, pos);
            p.residuals <= u16::MAX ==> r is Err && after == m && left == scope
        }),
{
}

/// A value the machine does not walk itself is the host's to walk: it is asked
/// for a handle, and the loop is kept under it.
pub proof fn other_values_are_walked_by_the_host(
    m: Machine,
    scope: Names,
    pos: Position,
    under: Seq<Datum>,
    v: Datum,
    handle: u64,
    context: bool,
)
    requires
        m.stack == under.push(v),
        !(v.data is Range) && !(v.data is Shared),
    ensures
        ({
            let (r, after, left) = did_iter_init(m, scope, pos);
            &&& m.answers.len() > 0 && m.answers.last().reply == Reply::<Datum, Fail>::Nothing
                ==> (r matches Err(err) && err.kind is ErrorFor && err.pos == pos)
                && after.iterators == m.iterators
            &&& m.answers.len() > 0 && m.answers.last().reply == Reply::<Datum, Fail>::Handle(
                handle,
                context,
            ) ==> r is Ok && after.iterators.last().items == (Items::Hosted { handle })
                && after.iterators.last().count == -1
            &&& m.answers.len() == 0 && m.request is None ==> (after.request matches Some(asked_for)
                && asked_for.ask is Iterate && asked_for.operands == seq![v])
            &&& r is Ok ==> after.iterators.len() == m.iterators.len() + 1
                && after.iterators.drop_last() == m.iterators && after.stack == under
        }),
{
    assert(m.stack.drop_last() =~= under);
    let (r, after, _) = did_iter_init(m, scope, pos);
    if r is Ok {
        assert(after.iterators.drop_last() =~= m.iterators);
    }
}

// ---------------------------------------------------------------------------
// A debugger.

/// Where no debugger is, a statement, a call and the end of a run are not told of.
pub proof fn nothing_is_told_without_a_debugger(
    m: Machine,
    scope: Names,
    depth: u16,
    pos: Position,
    name: Seq<char>,
    args: Seq<Datum>,
    result: Result<Datum, Fail>,
    calls: int,
)
    requires
        !m.engine.debugger,
    ensures
        did_statement(m, scope, depth, pos) == (Ok::<(), Fail>(()), m, scope),
        listed_call(m, name, args, pos) == m,
        exit_reported(m, scope, result, calls, pos) == (result, m, scope),
        end_reported(m, scope) == (Ok::<(), Fail>(()), m, scope),
{
}

/// A debugger sees each call while it lasts: by its name, its arguments in order
/// and its place, on top of those around it.
pub proof fn calls_are_listed_while_they_last(
    m: Machine,
    name: Seq<char>,
    args: Seq<Datum>,
    pos: Position,
    scope: Names,
    result: Result<Datum, Fail>,
)
    requires
        m.engine.debugger,
        forall|i: int| 0 <= i < args.len() ==> !((#[trigger] args[i]).data is Shared),
    ensures
        ({
            let during = listed_call(m, name, args, pos);
            let frame = during.call_stack.last();
            &&& during.call_stack.len() == m.call_stack.len() + 1
            &&& during.call_stack.drop_last() == m.call_stack
            &&& frame.name == name && frame.pos == pos && frame.source == m.source
            &&& frame.args.len() == args.len()
            &&& forall|i: int| 0 <= i < args.len() ==> #[trigger] frame.args[i] == copied(args[i])
            &&& during.stack == m.stack && during.heap == m.heap
            &&& !waits_for_exit(during.regs.status, during.regs.level) ==> {
                let (r, after, left) = exit_reported(
                    during,
                    scope,
                    result,
                    m.call_stack.len() as int,
                    pos,
                );
                r == result && left == scope && after.call_stack == m.call_stack
            }
        }),
{
    let during = listed_call(m, name, args, pos);
    assert(during.call_stack.drop_last() =~= m.call_stack);
    let (_, after, _) = exit_reported(during, scope, result, m.call_stack.len() as int, pos);
    if !waits_for_exit(during.regs.status, during.regs.level) {
        assert(after.call_stack =~= m.call_stack);
    }
}

/// A debugger that waits for a function's end is told of it with the result,
/// which it can only replace by a failure.
pub proof fn ends_are_told_with_their_result(
    m: Machine,
    scope: Names,
    result: Result<Datum, Fail>,
    calls: int,
    pos: Position,
)
    requires
        m.engine.debugger,
        waits_for_exit(m.regs.status, m.regs.level),
        m.answers.len() > 0,
    ensures
        ({
            let (r, _, left) = exit_reported(m, scope, result, calls, pos);
            &&& m.answers.last().reply matches Reply::Raised(err) ==> r == Err::<Datum, Fail>(err)
            &&& !(m.answers.last().reply is Raised) ==> r == result
            &&& left.len() <= scope.len()
        }),
{
}

/// A debugger waits for the end of the function it asked for or of one further
/// out, and of none further in.
pub proof fn exits_are_waited_for_outwards(level: usize, n: usize, expression: bool, end: bool)
    ensures
        waits_for_exit(Status::FunctionExit(n), level) <==> level <= n,
        waits_for_exit(Status::Next(expression, end), level) == end,
        !waits_for_exit(Status::Init, level),
        !waits_for_exit(Status::Terminate, level),
{
}

/// At a statement a debugger is asked with what it waits for, and waits for what
/// it answers: at once, or once the statement has ended.
pub proof fn statements_are_told(
    m: Machine,
    scope: Names,
    depth: u16,
    pos: Position,
    status: Status,
    later: Option<Status>,
)
    requires
        m.engine.debugger,
        m.pending_steps.len() == 0,
        m.answers.len() > 0,
        m.answers.last().reply == (Reply::<Datum, Fail>::Debug { status, later }),
    ensures
        ({
            let (r, after, _) = did_statement(m, scope, depth, pos);
            &&& r is Ok
            &&& after.regs.status == status
            &&& later is None ==> after.pending_steps.len() == 0
            &&& later matches Some(then_for) ==> after.pending_steps == seq![
                (m.regs.level, depth, then_for),
            ]
            &&& after.stack == m.stack
        }),
{
    let (_, after, _) = did_statement(m, scope, depth, pos);
    if let Some(then_for) = later {
        assert(after.pending_steps =~= seq![(m.regs.level, depth, then_for)]);
    }
}

/// A step put off is taken up at the first statement that is not inside the one
/// it was put off over.
pub proof fn steps_are_taken_up_after_their_statement(
    step: PendingStep,
    status: Status,
    level: usize,
    depth: u16,
)
    ensures
        level > step.0 || (level == step.0 && depth > step.1) ==> steps_ended(
            seq![step],
            status,
            level,
            depth,
        ) == (seq![step], status),
        level < step.0 || (level == step.0 && depth <= step.1) ==> steps_ended(
            seq![step],
            status,
            level,
            depth,
        ) == (Seq::<PendingStep>::empty(), step.2),
{
    reveal_with_fuel(steps_ended, 2);
    assert(seq![step].drop_last() =~= Seq::<PendingStep>::empty());
}

// ---------------------------------------------------------------------------
// Functions handed out.

/// A function is handed out exactly if it needs no receiver, has a name and does
/// not take too many arguments, and those handed out keep their order.
pub proof fn callable_functions_are_handed_out(p: Program, fs: Seq<Function>, f: Function)
    ensures
        wrapped(p, f) ==> {
            let all = wrappers_of(p, fs.push(f));
            &&& all.len() == wrappers_of(p, fs).len() + 1
            &&& all.drop_last() == wrappers_of(p, fs)
            &&& all.last().index == f.name
            &&& Some(all.last().name) == p.name_of(f.name as int)
            &&& all.last().arity == f.param_names@.len()
        },
        !wrapped(p, f) ==> wrappers_of(p, fs.push(f)) == wrappers_of(p, fs),
        f.takes_this || p.name_of(f.name as int) is None ==> !wrapped(p, f),
        wrappers_of(p, Seq::empty()).len() == 0,
{
    assert(fs.push(f).drop_last() =~= fs);
    if wrapped(p, f) {
        let all = wrappers_of(p, fs.push(f));
        assert(all.drop_last() =~= wrappers_of(p, fs));
    }
}

/// Handing arguments over copies the first, which stays with the caller, and
/// takes the others.
pub proof fn the_first_argument_stays_behind(args: Seq<Datum>)
    ensures
        handed_over(args).len() == args.len(),
        kept_back(args).len() == args.len(),
        args.len() > 0 ==> handed_over(args)[0] == copied(args[0]) && kept_back(args)[0] == args[0],
        forall|i: int|
            1 <= i < args.len() ==> #[trigger] handed_over(args)[i] == args[i] && kept_back(
                args,
            )[i].data is Unit,
{
}

/// Lookups are carried over only between runs that search the same engine,
/// libraries and imports.
pub proof fn lookups_are_kept_for_the_same_search(warm: WarmView, wanted: SearchedView)
    ensures
        warm.searched.engine != wanted.engine || warm.searched.lib != wanted.lib
            || warm.searched.imports != wanted.imports ==> lent_caches(warm, wanted) == 0,
        warm.searched == wanted ==> lent_caches(warm, wanted) == warm.caches,
{
}

// ---------------------------------------------------------------------------
// What is remembered of lookups.

/// Two pairs of operands of different kinds are remembered apart.
pub proof fn pairs_are_remembered_apart(a: Data, b: Data, c: Data, d: Data)
    ensures
        pair_code(a, b) == pair_code(c, d) <==> code_of(a) == code_of(c) && code_of(b) == code_of(
            d,
        ),
{
}

/// Every kind the machine knows has a code of its own, and what only the host
/// knows has none.
pub proof fn kinds_have_their_own_codes(a: Data, b: Data)
    ensures
        code_of(a) != 0 && code_of(a) == code_of(b) ==> {
            &&& a is Unit == b is Unit
            &&& a is Bool == b is Bool
            &&& a is Str == b is Str
            &&& a is Char == b is Char
            &&& a is Int == b is Int
            &&& a is Float == b is Float
            &&& a is Array == b is Array
            &&& a is Blob == b is Blob
            &&& a is Dict == b is Dict
            &&& a is FnPtr == b is FnPtr
            &&& a is TimeStamp == b is TimeStamp
        },
        code_of(a) == 0 <==> a is Range || a is Variant || a is Shared,
        code_of(a) < 16,
{
}

/// Calls are remembered only for as many arguments as fit, each of a kind that
/// has a code.
pub proof fn calls_are_remembered_by_their_kinds(args: Seq<Datum>)
    ensures
        args.len() > 8 ==> codes_of(args) is None,
        (exists|i: int| 0 <= i < args.len() && code_of((#[trigger] args[i]).data) == 0)
            ==> codes_of(args) is None,
        args.len() <= 8 && (forall|i: int|
            0 <= i < args.len() ==> code_of((#[trigger] args[i]).data) != 0) ==> codes_of(
            args,
        ) == Some(packed(args) as u32),
        packed(Seq::empty()) == 0,
        forall|first: Datum| #[trigger]
            packed(seq![first] + args) == code_of(first.data) + 16 * packed(args),
{
    assert forall|first: Datum| #[trigger] packed(seq![first] + args) == code_of(first.data) + 16
        * packed(args) by {
        assert((seq![first] + args).skip(1) =~= args);
    }
    if exists|i: int| 0 <= i < args.len() && code_of((#[trigger] args[i]).data) == 0 {
        let i = choose|i: int| 0 <= i < args.len() && code_of((#[trigger] args[i]).data) == 0;
        assert(code_of(args[i].data) == 0);
    }
    if forall|i: int| 0 <= i < args.len() ==> code_of((#[trigger] args[i]).data) != 0 {
        assert forall|i: int| 0 <= i < args.len() implies #[trigger] code_of(args[i].data) != 0 by {
            assert(code_of(args[i].data) != 0);
        }
    }
}

} // verus!
