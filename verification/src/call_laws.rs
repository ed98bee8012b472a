//! What calling comes to: which function is found, what its parameters are bound
//! to, and what its caller gets.
//!
//! A law about a call lets the body be anything, and fixes what it is run on: the
//! variables it starts with, one for each parameter, in order.
use vstd::prelude::*;

use crate::assign::dispatched;
use crate::bytecode::{Op, Operator, Receiver};
use crate::call::{
    attributed, body_called, called, called_by_reference, called_fn_ptr, called_with_this,
    lent_call, lent_this_call, params_bound, pointer_asked, pointer_called, scope_after,
};
use crate::chain::{method_called, Course};
use crate::error::{fail, Fail, FailureKind};
use crate::frame::{stepped, Entry, Runner};
use crate::heap::flat_copy;
use crate::laws::begins_with;
use crate::machine::{Machine, Registers};
use crate::operate::{
    built_in, delivered, fast_answer, operands_pushed, operated, resolved_call, Flow,
};
use crate::ops::{did_curry, did_make_closure};
use crate::position::Position;
use crate::program::{Function, Program};
use crate::scope::Names;
use crate::site::{host_called, syntactic};
use crate::value::{copied, with_mode, AccessMode, Data, Datum, FnPtrType};

verus! {

// ---------------------------------------------------------------------------
// Finding functions.

/// A function found by a name's index is the first with that name and as many
/// parameters that belongs to no type, and none is found only where there is
/// none.
pub proof fn functions_are_found_by_name_and_arity(p: Program, name: u32, argc: int, from: int)
    requires
        0 <= from,
    ensures
        match p.plain_from(name, argc, from) {
            Some(i) => {
                &&& from <= i < p.functions@.len()
                &&& p.functions@[i].name == name
                &&& p.functions@[i].param_names@.len() == argc
                &&& p.functions@[i].this_type is None
                &&& forall|j: int|
                    from <= j < i ==> (#[trigger] p.functions@[j]).name != name
                        || p.functions@[j].param_names@.len() != argc
                        || p.functions@[j].this_type is Some
            },
            None => forall|j: int|
                from <= j < p.functions@.len() ==> (#[trigger] p.functions@[j]).name != name
                    || p.functions@[j].param_names@.len() != argc
                    || p.functions@[j].this_type is Some,
        },
    decreases p.functions@.len() - from,
{
    if from < p.functions@.len() {
        functions_are_found_by_name_and_arity(p, name, argc, from + 1);
    }
}

/// A function found by its text is the first whose name reads so.
pub proof fn functions_are_found_by_text(p: Program, name: Seq<char>, argc: int, from: int)
    requires
        0 <= from,
    ensures
        match p.texted_from(name, argc, from) {
            Some(i) => {
                &&& from <= i < p.functions@.len()
                &&& p.functions@[i].name < p.names@.len()
                &&& p.names@[p.functions@[i].name as int]@ == name
                &&& p.functions@[i].param_names@.len() == argc
                &&& p.functions@[i].this_type is None
                &&& forall|j: int|
                    from <= j < i ==> (#[trigger] p.functions@[j]).name >= p.names@.len()
                        || p.names@[p.functions@[j].name as int]@ != name
                        || p.functions@[j].param_names@.len() != argc
                        || p.functions@[j].this_type is Some
            },
            None => forall|j: int|
                from <= j < p.functions@.len() ==> (#[trigger] p.functions@[j]).name
                    >= p.names@.len() || p.names@[p.functions@[j].name as int]@ != name
                    || p.functions@[j].param_names@.len() != argc
                    || p.functions@[j].this_type is Some,
        },
    decreases p.functions@.len() - from,
{
    if from < p.functions@.len() {
        functions_are_found_by_text(p, name, argc, from + 1);
    }
}

proof fn typed_functions_are_found(
    p: Program,
    name: u32,
    argc: int,
    typed: Seq<char>,
    from: int,
)
    requires
        0 <= from,
    ensures
        match p.typed_from(name, argc, typed, from) {
            Some(i) => {
                &&& from <= i < p.functions@.len()
                &&& p.functions@[i].name == name
                &&& p.functions@[i].param_names@.len() == argc
                &&& p.functions@[i].this_type matches Some(t) && t < p.names@.len()
                    && p.names@[t as int]@ == typed
            },
            None => forall|j: int|
                from <= j < p.functions@.len() ==> (#[trigger] p.functions@[j]).name != name
                    || p.functions@[j].param_names@.len() != argc
                    || !(p.functions@[j].this_type matches Some(t) && t < p.names@.len()
                    && p.names@[t as int]@ == typed),
        },
    decreases p.functions@.len() - from,
{
    if from < p.functions@.len() {
        typed_functions_are_found(p, name, argc, typed, from + 1);
    }
}

/// A method of the receiver's own type is preferred to a function of no type.
pub proof fn methods_of_a_type_come_first(p: Program, name: u32, argc: int, typed: Seq<char>)
    ensures
        (exists|j: int|
            0 <= j < p.functions@.len() && (#[trigger] p.functions@[j]).name == name
                && p.functions@[j].param_names@.len() == argc && (
            p.functions@[j].this_type matches Some(t) && t < p.names@.len() && p.names@[t as int]@
                == typed)) ==> (p.method_of(name, argc, typed) matches Some(i)
            && p.functions@[i].name == name && p.functions@[i].param_names@.len() == argc && (
        p.functions@[i].this_type matches Some(t) && t < p.names@.len() && p.names@[t as int]@
            == typed)),
        (forall|j: int|
            0 <= j < p.functions@.len() ==> (#[trigger] p.functions@[j]).this_type is None)
            ==> p.method_of(name, argc, typed) == p.plain_from(name, argc, 0),
{
    typed_functions_are_found(p, name, argc, typed, 0);
}

// ---------------------------------------------------------------------------
// Binding.

/// Whether nothing but its own failure can keep a call from running its body:
/// there are operations, call levels and variables enough, and no host watches.
pub open spec fn unhindered(m: Machine, f: Function) -> bool {
    &&& m.engine.max_operations == 0
    &&& !m.engine.watches_progress
    &&& !m.engine.debugger
    &&& m.regs.operations < u64::MAX
    &&& m.regs.level < m.engine.max_call_levels
    &&& f.param_names@.len() <= m.engine.max_variables
}

/// The variables a body starts with above those there were: one for each
/// parameter, bound to the argument in its place.
pub open spec fn bound_to(scope: Names, f: Function, args: Seq<Datum>) -> Names {
    scope + Seq::new(
        f.param_names@.len(),
        |i: int| (f.param_names@[i]@, with_mode(args[i], args[i].mode)),
    )
}

/// Whether a body gives a value when it starts with these variables, whatever
/// else it finds, and leaves all of it as it is.
pub open spec fn body_gives(
    k: Runner,
    p: Program,
    f: Function,
    names: Names,
    base: usize,
    v: Datum,
) -> bool {
    forall|inside: Machine|
        ({
            let ran = #[trigger] k(
                Entry { p, m: inside, scope: names, entry: f.chunk.entry, base },
            );
            ran.result == Ok::<Datum, Fail>(v) && ran.m == inside && ran.scope == names
        })
}

proof fn parameters_are_bound_from(
    stack: Seq<Datum>,
    scope: Names,
    f: Function,
    first: int,
    j: int,
)
    requires
        0 <= first,
        0 <= j <= f.param_names@.len(),
        first + f.param_names@.len() <= stack.len(),
    ensures
        ({
            let (enough, left, names) = params_bound(stack, scope, f.param_names@, first, j);
            &&& enough
            &&& left.len() == stack.len()
            &&& forall|i: int| 0 <= i < first + j ==> #[trigger] left[i] == stack[i]
            &&& forall|i: int|
                first + f.param_names@.len() <= i < stack.len() ==> #[trigger] left[i] == stack[i]
            &&& names.len() == scope.len() + f.param_names@.len() - j
            &&& forall|i: int| 0 <= i < scope.len() ==> #[trigger] names[i] == scope[i]
            &&& forall|i: int|
                scope.len() <= i < names.len() ==> #[trigger] names[i] == (
                    f.param_names@[j + i - scope.len()]@,
                    with_mode(
                        stack[first + j + i - scope.len()],
                        stack[first + j + i - scope.len()].mode,
                    ),
                )
        }),
    decreases f.param_names@.len() - j,
{
    if j < f.param_names@.len() {
        let v = stack[first + j];
        let next_stack = stack.update(first + j, crate::value::unit());
        let next_scope = crate::scope::declared(scope, f.param_names@[j]@, v.mode, v);
        parameters_are_bound_from(next_stack, next_scope, f, first, j + 1);
        let (_, _, names) = params_bound(stack, scope, f.param_names@, first, j);
        assert(names == params_bound(next_stack, next_scope, f.param_names@, first, j + 1).2);
        assert(names[scope.len() as int] == next_scope[scope.len() as int]);
        assert forall|i: int| 0 <= i < scope.len() implies #[trigger] names[i] == scope[i] by {
            assert(names[i] == next_scope[i]);
        }
    }
}

/// Each parameter of a called function is bound to the argument in its place on
/// the stack, above the variables there were, and the body's value is the
/// call's.
pub proof fn parameters_take_their_arguments(
    k: Runner,
    p: Program,
    m: Machine,
    scope: Names,
    f: Function,
    name: Seq<char>,
    first: int,
    rewind: bool,
    pos: Position,
    this: Option<Datum>,
    v: Datum,
)
    requires
        unhindered(m, f),
        0 <= first,
        first + f.param_names@.len() <= m.stack.len(),
        scope.len() <= usize::MAX,
        body_gives(
            k,
            p,
            f,
            bound_to(scope, f, m.stack.subrange(first, first + f.param_names@.len())),
            scope.len() as usize,
            v,
        ),
    ensures
        ({
            let c = called_with_this(k, p, m, scope, f, name, first, rewind, pos, this);
            &&& c.result == Ok::<Datum, Fail>(v)
            &&& c.this == this
            &&& c.m.this == m.this
            &&& c.m.regs.level == m.regs.level
            &&& c.m.regs.operations == m.regs.operations + 1
            &&& c.m.heap == m.heap
            &&& c.m.stack.len() == m.stack.len()
            &&& forall|i: int| 0 <= i < first ==> #[trigger] c.m.stack[i] == m.stack[i]
            &&& c.scope == scope
        }),
{
    reveal(called_with_this);
    reveal(body_called);
    let n = f.param_names@.len() as int;
    let args = m.stack.subrange(first, first + n);
    parameters_are_bound_from(m.stack, scope, f, first, 0);
    let (_, stack, names) = params_bound(m.stack, scope, f.param_names@, first, 0);
    assert(names =~= bound_to(scope, f, args));
    let inside = m.with_this(this).with_regs(
        Registers {
            level: (m.regs.level + 1) as usize,
            operations: (m.regs.operations + 1) as u64,
            ..m.regs
        },
    ).with_stack(stack);
    let e = Entry {
        p,
        m: inside,
        scope: names,
        entry: f.chunk.entry,
        base: scope.len() as usize,
    };
    assert(k(e).result == Ok::<Datum, Fail>(v) && k(e).m == inside);
    scopes_are_cut_back(k(e).scope, scope, names, rewind);
    let c = called_with_this(k, p, m, scope, f, name, first, rewind, pos, this);
    assert(c.m.stack == stack);
    assert(c.scope =~= scope);
}

/// A call leaves no parameter of its own behind: cutting the scope back drops
/// everything above where it began, and otherwise only the parameters go.
pub proof fn scopes_are_cut_back(left: Names, scope: Names, names: Names, rewind: bool)
    requires
        names.len() >= scope.len(),
    ensures
        ({
            let after = scope_after(left, scope.len() as int, names.len() as int, rewind);
            &&& rewind && left.len() >= scope.len() ==> after == left.subrange(
                0,
                scope.len() as int,
            )
            &&& left.len() >= names.len() && !rewind ==> {
                &&& after.len() == left.len() - (names.len() - scope.len())
                &&& forall|i: int| 0 <= i < scope.len() ==> #[trigger] after[i] == left[i]
                &&& forall|i: int|
                    scope.len() <= i < after.len() ==> #[trigger] after[i] == left[i + names.len()
                        - scope.len()]
            }
        }),
{
    let after = scope_after(left, scope.len() as int, names.len() as int, rewind);
    if rewind && left.len() >= scope.len() {
        assert(after =~= left.subrange(0, scope.len() as int));
    }
}

/// What a body gives its caller: a `return` is its value, an exit and a failure
/// of the run itself pass through, blamed on the call, and any other failure is
/// kept inside one that names the call.
pub proof fn failures_are_attributed_to_their_call(
    err: Fail,
    v: Datum,
    name: Seq<char>,
    source: Option<Seq<char>>,
    pos: Position,
)
    ensures
        attributed(Ok(v), name, source, pos) == Ok::<Datum, Fail>(v),
        err.kind matches FailureKind::Return(out) ==> attributed(Err(err), name, source, pos)
            == Ok::<Datum, Fail>(out),
        err.kind is Exit || err.kind is ErrorStackOverflow || err.kind is ErrorTooManyOperations
            || err.kind is ErrorTooManyVariables || err.kind is ErrorDataTooLarge
            || err.kind is ErrorTerminated || err.kind is ErrorParsing ==> attributed(
            Err(err),
            name,
            source,
            pos,
        ) == Err::<Datum, Fail>(fail(err.kind, pos)),
        err.kind is ErrorRuntime || err.kind is ErrorVariableNotFound
            || err.kind is ErrorFunctionNotFound || err.kind is ErrorInFunctionCall
            || err.kind is ErrorUnboundThis || err.kind is ErrorAssignmentToConstant
            || err.kind is ErrorArithmetic || err.kind is ErrorArrayBounds || err.kind is LoopBreak
            ==> attributed(Err(err), name, source, pos) == Err::<Datum, Fail>(
            fail(
                FailureKind::ErrorInFunctionCall(
                    name,
                    if source is Some {
                        source->0
                    } else {
                        ""@
                    },
                    Box::new(err),
                ),
                pos,
            ),
        ),
{
}

/// A call by name runs the compiled function of that name on the operands from
/// the first one up, in an empty scope, or in the caller's where it captures.
pub proof fn named_calls_run_their_function(
    k: Runner,
    p: Program,
    m: Machine,
    scope: Names,
    index: u32,
    name: Seq<char>,
    argc: int,
    first: int,
    capture: bool,
    pos: Position,
    i: int,
    v: Datum,
)
    requires
        name != "is_def_var"@,
        name != "is_def_fn"@,
        p.plain_from(index, argc, 0) == Some(i),
        unhindered(m, p.functions@[i]),
        0 <= first,
        first + argc <= m.stack.len(),
        scope.len() <= usize::MAX,
        body_gives(
            k,
            p,
            p.functions@[i],
            bound_to(
                if capture {
                    scope
                } else {
                    Seq::empty()
                },
                p.functions@[i],
                m.stack.subrange(first, first + argc),
            ),
            if capture {
                scope.len() as usize
            } else {
                0
            },
            v,
        ),
    ensures
        ({
            let (r, after, left) = called(k, p, m, scope, index, name, argc, first, capture, pos);
            &&& r == Ok::<Datum, Fail>(v)
            &&& left == scope
            &&& after.this == m.this
            &&& after.stack.len() == m.stack.len()
            &&& forall|j: int| 0 <= j < first ==> #[trigger] after.stack[j] == m.stack[j]
        }),
{
    reveal(called);
    reveal(syntactic);
    functions_are_found_by_name_and_arity(p, index, argc, 0);
    let f = p.functions@[i];
    if capture {
        parameters_take_their_arguments(k, p, m, scope, f, name, first, true, pos, None, v);
    } else {
        parameters_take_their_arguments(
            k,
            p,
            m,
            Names::empty(),
            f,
            name,
            first,
            true,
            pos,
            None,
            v,
        );
    }
}

/// A call instruction replaces its operands by the value of the compiled function
/// it names, run on those operands.
pub proof fn calls_replace_their_operands(
    k: Runner,
    p: Program,
    m: Machine,
    scope: Names,
    base: usize,
    floor: usize,
    pc: usize,
    next: usize,
    o: Operator,
    i: int,
    v: Datum,
)
    requires
        o.shape is Plain,
        o.lhs is Stack && o.rhs is Stack,
        o.token is None && o.branch is None && !o.capture,
        o.name < p.names@.len(),
        p.names@[o.name as int]@ != "is_def_var"@,
        p.names@[o.name as int]@ != "is_def_fn"@,
        o.argc <= m.stack.len(),
        p.plain_from(o.name as u32, o.argc as int, 0) == Some(i),
        unhindered(m, p.functions@[i]),
        body_gives(
            k,
            p,
            p.functions@[i],
            bound_to(
                Seq::empty(),
                p.functions@[i],
                m.stack.subrange(m.stack.len() - o.argc, m.stack.len() as int),
            ),
            0,
            v,
        ),
    ensures
        ({
            let (r, after, left) = stepped(
                k,
                p,
                m,
                scope,
                base,
                floor,
                pc,
                next,
                Op::Operate(o),
            );
            &&& r == Ok::<Flow<Datum>, Fail>(Flow::Next(next))
            &&& left == scope
            &&& after.stack == m.stack.subrange(0, m.stack.len() - o.argc).push(v)
        }),
{
    reveal(stepped);
    reveal(operated);
    reveal(operands_pushed);
    reveal(fast_answer);
    reveal(resolved_call);
    reveal(built_in);
    reveal(delivered);
    let first = m.stack.len() - o.argc;
    let name = p.names@[o.name as int]@;
    let pos = p.pos_of(pc as int);
    let empty_scope: Names = Seq::empty();
    reveal(called);
    reveal(syntactic);
    functions_are_found_by_name_and_arity(p, o.name as u32, o.argc as int, 0);
    parameters_take_their_arguments(
        k,
        p,
        m,
        empty_scope,
        p.functions@[i],
        name,
        first,
        true,
        pos,
        None,
        v,
    );
    let (_, after, _) = stepped(k, p, m, scope, base, floor, pc, next, Op::Operate(o));
    assert(after.stack =~= m.stack.subrange(0, first).push(v));
}

// ---------------------------------------------------------------------------
// Pointers.

/// Calling a pointer runs the compiled function of its name on its curried
/// values followed by the call's own arguments: the first parameters take the
/// curried values and the others the arguments, each in order.
pub proof fn curried_values_go_in_front(
    k: Runner,
    p: Program,
    m: Machine,
    at: int,
    pointer: Datum,
    name: Seq<char>,
    curry: Seq<Datum>,
    typ: FnPtrType,
    bound: Option<Datum>,
    pos: Position,
    i: int,
    v: Datum,
)
    requires
        pointer.data == Data::FnPtr(name, curry, typ),
        0 <= at < m.stack.len(),
        p.texted_from(name, curry.len() + m.stack.len() - at - 1, 0) == Some(i),
        unhindered(m, p.functions@[i]),
        body_gives(
            k,
            p,
            p.functions@[i],
            bound_to(
                Seq::empty(),
                p.functions@[i],
                Seq::new(
                    (curry.len() + m.stack.len() - at - 1) as nat,
                    |j: int|
                        if j < curry.len() {
                            copied(curry[j])
                        } else {
                            m.stack[at + 1 + j - curry.len()]
                        },
                ),
            ),
            0,
            v,
        ),
    ensures
        ({
            let (r, this, after) = pointer_called(k, p, m, at, pointer, bound, pos);
            &&& r == Ok::<Datum, Fail>(v)
            &&& this == bound
            &&& after.this == m.this
            &&& after.stack.len() > at
            &&& forall|j: int| 0 <= j <= at ==> #[trigger] after.stack[j] == m.stack[j]
        }),
{
    reveal(pointer_called);
    let argc = m.stack.len() - at - 1;
    let args = crate::stack::above(m.stack, at + 1);
    functions_are_found_by_text(p, name, curry.len() + argc, 0);
    let f = p.functions@[i];
    let inside = m.truncate(at + 1).push_all(crate::value::all_copied(curry)).push_all(args);
    let row = Seq::new(
        (curry.len() + argc) as nat,
        |j: int|
            if j < curry.len() {
                copied(curry[j])
            } else {
                m.stack[at + 1 + j - curry.len()]
            },
    );
    assert(args.len() == argc);
    assert(inside.stack.subrange(at + 1, at + 1 + f.param_names@.len()) =~= row);
    let empty_scope: Names = Seq::empty();
    parameters_take_their_arguments(
        k,
        p,
        inside,
        empty_scope,
        f,
        name,
        at + 1,
        true,
        pos,
        bound,
        v,
    );
    let (_, _, after) = pointer_called(k, p, m, at, pointer, bound, pos);
    assert forall|j: int| 0 <= j <= at implies #[trigger] after.stack[j] == m.stack[j] by {
        assert(inside.stack[j] == m.stack[j]);
    }
}

/// A pointer call takes the pointer and its arguments off the stack.
pub proof fn pointer_calls_take_the_pointer(
    k: Runner,
    p: Program,
    m: Machine,
    scope: Names,
    base: usize,
    argc: int,
    method: bool,
    receiver: Option<Receiver>,
    pos: Position,
    i: int,
    v: Datum,
    name: Seq<char>,
    curry: Seq<Datum>,
    typ: FnPtrType,
)
    requires
        0 <= argc < m.stack.len(),
        m.stack[m.stack.len() - argc - 1].data == Data::FnPtr(name, curry, typ),
        p.texted_from(name, curry.len() + argc, 0) == Some(i),
        unhindered(m, p.functions@[i]),
        body_gives(
            k,
            p,
            p.functions@[i],
            bound_to(
                Seq::empty(),
                p.functions@[i],
                Seq::new(
                    (curry.len() + argc) as nat,
                    |j: int|
                        if j < curry.len() {
                            copied(curry[j])
                        } else {
                            m.stack[m.stack.len() - argc + j - curry.len()]
                        },
                ),
            ),
            0,
            v,
        ),
    ensures
        ({
            let (r, after, left) = called_fn_ptr(
                k,
                p,
                m,
                scope,
                base,
                argc,
                method,
                receiver,
                pos,
            );
            &&& r == Ok::<Datum, Fail>(v)
            &&& left == scope
            &&& after.stack == m.stack.subrange(0, m.stack.len() - argc - 1)
        }),
{
    broadcast use crate::value::copied_of_composite;

    reveal(called_fn_ptr);
    let at = m.stack.len() - argc - 1;
    let target = flat_copy(m.heap, m.stack[at]);
    let copies = crate::value::all_copied(curry);
    assert(target.data == Data::FnPtr(name, copies, typ));
    let row = Seq::new(
        (curry.len() + argc) as nat,
        |j: int|
            if j < curry.len() {
                copied(curry[j])
            } else {
                m.stack[at + 1 + j - curry.len()]
            },
    );
    let again = Seq::new(
        (copies.len() + m.stack.len() - at - 1) as nat,
        |j: int|
            if j < copies.len() {
                copied(copies[j])
            } else {
                m.stack[at + 1 + j - copies.len()]
            },
    );
    assert forall|j: int| 0 <= j < curry.len() implies copied(#[trigger] copies[j]) == copied(
        curry[j],
    ) by {
        crate::laws::copies_are_writable(curry[j]);
    }
    assert(again =~= row);
    curried_values_go_in_front(
        k,
        p,
        m,
        at,
        target,
        name,
        copies,
        typ,
        None,
        pos,
        i,
        v,
    );
    let (_, _, inside) = pointer_called(k, p, m, at, target, None, pos);
    let (_, after, _) = called_fn_ptr(k, p, m, scope, base, argc, method, receiver, pos);
    assert(after.stack =~= m.stack.subrange(0, at));
}

/// Currying puts the new values behind those already curried, in the order they
/// were pushed, and changes nothing else about the pointer.
pub proof fn currying_adds_behind(
    m: Machine,
    scope: Names,
    argc: u8,
    pos: Position,
    name: Seq<char>,
    curry: Seq<Datum>,
    typ: FnPtrType,
)
    requires
        argc < m.stack.len(),
        m.stack[m.stack.len() - argc - 1].data == Data::FnPtr(name, curry, typ),
    ensures
        ({
            let (r, after, left) = did_curry(m, scope, argc, pos);
            let at = m.stack.len() - argc - 1;
            &&& r is Ok
            &&& left == scope
            &&& after.stack.len() == at + 1
            &&& begins_with(m.stack, after.stack.drop_last())
            &&& after.stack.last().data matches Data::FnPtr(n, c, t) && n == name && t == typ
                && c.len() == curry.len() + argc && (forall|j: int|
                0 <= j < curry.len() ==> #[trigger] c[j] == copied(curry[j])) && (forall|j: int|
                curry.len() <= j < c.len() ==> #[trigger] c[j] == m.stack[at + 1 + j
                    - curry.len()])
        }),
{
    broadcast use crate::value::copied_of_composite;

    let at = m.stack.len() - argc - 1;
    let (_, after, _) = did_curry(m, scope, argc, pos);
    assert(flat_copy(m.heap, m.stack[at]).data == Data::FnPtr(
        name,
        crate::value::all_copied(curry),
        typ,
    ));
    assert(m.stack.subrange(0, at) =~= after.stack.drop_last());
}

/// A closure is a pointer to the function it names, with nothing curried.
pub proof fn closures_point_to_their_function(p: Program, m: Machine, scope: Names, name: u16)
    requires
        name < p.names@.len(),
    ensures
        ({
            let (r, after, left) = did_make_closure(p, m, scope, name);
            &&& r is Ok
            &&& left == scope
            &&& after.stack.drop_last() == m.stack
            &&& after.stack.last().data matches Data::FnPtr(n, c, t) && n
                == p.names@[name as int]@ && c.len() == 0 && (m.callbacks is None ==> t is Normal)
            &&& after.heap == m.heap && after.this == m.this
        }),
{
    let (_, after, _) = did_make_closure(p, m, scope, name);
    assert(after.stack.drop_last() =~= m.stack);
}

// ---------------------------------------------------------------------------
// Receivers.

/// Whether a body gives a value, and leaves something of its receiver, when it
/// starts with these arguments and this receiver.
pub open spec fn method_gives(
    k: Runner,
    p: Program,
    f: Function,
    args: Seq<Datum>,
    this: Datum,
    left: Datum,
    v: Datum,
) -> bool {
    forall|inside: Machine|
        inside.this == Some(this) ==> ({
            let ran = #[trigger] k(
                Entry {
                    p,
                    m: inside,
                    scope: bound_to(Seq::empty(), f, args),
                    entry: f.chunk.entry,
                    base: 0,
                },
            );
            ran.result == Ok::<Datum, Fail>(v) && ran.m == inside.with_this(Some(left))
                && ran.scope == bound_to(Seq::empty(), f, args)
        })
}

/// A method runs with its value as the receiver and its arguments as parameters,
/// and what it leaves of the receiver takes the value's place.
pub proof fn methods_get_their_receiver(
    c: Course,
    m: Machine,
    target: Datum,
    index: u32,
    name: Seq<char>,
    args: Seq<Datum>,
    pos: Position,
    i: int,
    v: Datum,
    left: Datum,
)
    requires
        !(target.data is Shared),
        target.mode == AccessMode::ReadWrite,
        m.stack.len() + args.len() <= usize::MAX,
        c.p.method_of(
            index,
            args.len() as int,
            m.engine.mapped(crate::value::name_of_type(target.data)),
        ) == Some(i),
        0 <= i < c.p.functions@.len(),
        c.p.functions@[i].param_names@.len() == args.len(),
        unhindered(m, c.p.functions@[i]),
        method_gives(c.k, c.p, c.p.functions@[i], args, target, left, v),
    ensures
        ({
            let (r, after, m1) = method_called(c, m, target, index, name, args, pos);
            &&& r == Ok::<Datum, Fail>(v)
            &&& after == left
            &&& m1.this == m.this
            &&& m1.stack == m.stack
        }),
{
    broadcast use crate::value::copied_of_composite;

    reveal(method_called);
    reveal(called_with_this);
    reveal(body_called);
    assert(flat_copy(m.heap, target).data is Array == target.data is Array);
    assert(crate::value::name_of_type(flat_copy(m.heap, target).data)
        == crate::value::name_of_type(target.data));
    let f = c.p.functions@[i];
    let at = m.stack.len() as int;
    let pushed = m.push_all(args);
    parameters_are_bound_from(pushed.stack, Seq::empty(), f, at, 0);
    let (_, stack, names) = params_bound(pushed.stack, Seq::empty(), f.param_names@, at, 0);
    assert(names =~= bound_to(Seq::empty(), f, args));
    let inside = pushed.with_this(Some(target)).with_regs(
        Registers {
            level: (m.regs.level + 1) as usize,
            operations: (m.regs.operations + 1) as u64,
            ..m.regs
        },
    ).with_stack(stack);
    let e = Entry { p: c.p, m: inside, scope: names, entry: f.chunk.entry, base: 0 };
    assert((c.k)(e).result == Ok::<Datum, Fail>(v));
    let (_, _, m1) = method_called(c, m, target, index, name, args, pos);
    assert(m1.stack =~= m.stack);
}

/// A call by reference on a variable hands a copy of it to a compiled function as
/// the first argument, before those on the stack.
pub proof fn references_are_the_first_argument(
    k: Runner,
    p: Program,
    m: Machine,
    scope: Names,
    base: usize,
    index: u32,
    name: Seq<char>,
    argc: int,
    slot: u16,
    capture: bool,
    pos: Position,
    i: int,
    v: Datum,
)
    requires
        name != "is_def_var"@,
        name != "is_def_fn"@,
        !capture,
        1 <= argc,
        argc - 1 <= m.stack.len() < usize::MAX,
        base + slot < scope.len() <= usize::MAX,
        p.plain_from(index, argc, 0) == Some(i),
        unhindered(m, p.functions@[i]),
        body_gives(
            k,
            p,
            p.functions@[i],
            bound_to(
                Seq::empty(),
                p.functions@[i],
                Seq::new(
                    argc as nat,
                    |j: int|
                        if j == 0 {
                            flat_copy(m.heap, scope[base + slot].1)
                        } else {
                            m.stack[m.stack.len() - argc + j]
                        },
                ),
            ),
            0,
            v,
        ),
    ensures
        ({
            let (r, after, left) = called_by_reference(
                k,
                p,
                m,
                scope,
                base,
                index,
                name,
                argc,
                Receiver::Local(slot),
                capture,
                pos,
            );
            &&& r == Ok::<Datum, Fail>(v)
            &&& left == scope
            &&& after.stack == m.stack.subrange(0, m.stack.len() - (argc - 1))
        }),
{
    reveal(called_by_reference);
    functions_are_found_by_name_and_arity(p, index, argc, 0);
    let first = m.stack.len() - (argc - 1);
    let arg = flat_copy(m.heap, scope[base + slot].1);
    let inside = crate::call::with_operand(m, first, arg);
    let row = Seq::new(
        argc as nat,
        |j: int|
            if j == 0 {
                arg
            } else {
                m.stack[m.stack.len() - argc + j]
            },
    );
    assert(inside.stack.subrange(first, first + argc) =~= row);
    named_calls_run_their_function(
        k,
        p,
        inside,
        scope,
        index,
        name,
        argc,
        first,
        false,
        pos,
        i,
        v,
    );
    let (_, after, _) = called_by_reference(
        k,
        p,
        m,
        scope,
        base,
        index,
        name,
        argc,
        Receiver::Local(slot),
        capture,
        pos,
    );
    assert(after.stack =~= m.stack.subrange(0, first));
}

/// A host function called by reference on a variable is asked for with the
/// variable first and the arguments behind it, and what it leaves of the first
/// operand is the variable afterwards.
pub proof fn hosts_write_through_references(
    m: Machine,
    scope: Names,
    i: int,
    index: u32,
    name: Seq<char>,
    rest: int,
    first: int,
    pos: Position,
)
    requires
        0 <= i < scope.len(),
        0 <= first <= rest <= m.stack.len(),
        !crate::text::callable_name(name),
        m.answers.len() > 0,
        m.answers.last().operands.len() == m.stack.len() - rest + 1,
        m.answers.last().reply matches crate::host::Reply::Value(_),
    ensures
        ({
            let (r, after, left) = lent_call(m, scope, i, index, name, rest, first, pos);
            &&& r == Ok::<Datum, Fail>(m.answers.last().reply->Value_0)
            &&& left.len() == scope.len()
            &&& left[i].0 == scope[i].0
            &&& left[i].1 == m.answers.last().operands[0]
            &&& forall|j: int| 0 <= j < scope.len() && j != i ==> #[trigger] left[j] == scope[j]
            &&& after.stack == m.stack.subrange(0, first)
            &&& after.answers == m.answers.drop_last()
        }),
{
    reveal(crate::site::site_of);
    reveal(dispatched);
    let (_, after, _) = lent_call(m, scope, i, index, name, rest, first, pos);
    assert(after.stack =~= m.stack.subrange(0, first));
}

/// A host function is asked for by its name, with the arguments in their order.
pub proof fn hosts_are_asked_in_order(
    m: Machine,
    name: Seq<char>,
    operands: Seq<Datum>,
    by_reference: bool,
    method: bool,
    site: Option<u64>,
    pos: Position,
    pointer: Datum,
    this: Datum,
)
    requires
        m.answers.len() == 0,
        m.request is None,
    ensures
        ({
            let (r, _, after) = dispatched(m, name, operands, by_reference, method, site, pos);
            &&& r is Err && r->Err_0.kind is ErrorSuspended
            &&& after.request matches Some(q) && q.name == name && q.operands == operands && q.pos
                == pos
        }),
        ({
            let (r, _, after) = pointer_asked(m, pointer, None, operands, pos);
            &&& r is Err && r->Err_0.kind is ErrorSuspended
            &&& after.request matches Some(q) && q.operands.len() == operands.len() + 1
                && q.operands[0] == pointer && (forall|j: int|
                0 <= j < operands.len() ==> q.operands[j + 1] == #[trigger] operands[j])
        }),
        ({
            let (r, _, after) = pointer_asked(m, pointer, Some(this), operands, pos);
            &&& r is Err && r->Err_0.kind is ErrorSuspended
            &&& after.request matches Some(q) && q.operands.len() == operands.len() + 2
                && q.operands[0] == pointer && q.operands[1] == this && (forall|j: int|
                0 <= j < operands.len() ==> q.operands[j + 2] == #[trigger] operands[j])
        }),
{
    reveal(dispatched);
}

/// A host function is handed its operands as they stand on the stack, a variable
/// or the receiver it is called on going first; where it captures, the caller's
/// variables go with it.
pub proof fn hosts_get_the_reference_first(
    m: Machine,
    scope: Names,
    i: int,
    index: u32,
    name: Seq<char>,
    first: int,
    this: Datum,
    capture: bool,
    pos: Position,
)
    requires
        0 <= i < scope.len(),
        0 <= first < m.stack.len(),
        !crate::text::callable_name(name),
        m.answers.len() == 0,
        m.request is None,
    ensures
        ({
            let (_, after, _) = lent_call(m, scope, i, index, name, first, first, pos);
            after.request matches Some(q) && q.name == name && q.operands.len() == m.stack.len()
                - first + 1 && q.operands[0] == scope[i].1 && (forall|j: int|
                first <= j < m.stack.len() ==> q.operands[j - first + 1] == #[trigger] m.stack[j])
        }),
        ({
            let (_, after) = lent_this_call(m, this, index, name, first, pos);
            after.request matches Some(q) && q.name == name && q.operands.len() == m.stack.len()
                - first && q.operands[0] == this && (forall|j: int|
                first < j < m.stack.len() ==> q.operands[j - first] == #[trigger] m.stack[j])
        }),
        ({
            let (_, after, _) = host_called(m, scope, index, name, first, capture, pos);
            after.request matches Some(q) && q.name == name && q.operands == m.stack.subrange(
                first,
                m.stack.len() as int,
            ) && (capture ==> q.scope == Some(scope)) && (!capture ==> q.scope is None)
        }),
{
    reveal(crate::site::site_of);
    reveal(host_called);
    reveal(dispatched);
}

/// What a host function leaves of the receiver it was called on is the receiver
/// afterwards.
pub proof fn hosts_write_through_the_receiver(
    m: Machine,
    index: u32,
    name: Seq<char>,
    first: int,
    this: Datum,
    pos: Position,
    v: Datum,
)
    requires
        0 <= first < m.stack.len(),
        !crate::text::callable_name(name),
        m.answers.len() > 0,
        m.answers.last().operands.len() == m.stack.len() - first,
        m.answers.last().reply == crate::host::Reply::<Datum, Fail>::Value(v),
    ensures
        ({
            let (r, after) = lent_this_call(m, this, index, name, first, pos);
            &&& r == Ok::<Datum, Fail>(v)
            &&& after.this == Some(m.answers.last().operands[0])
            &&& after.stack == m.stack.subrange(0, first)
        }),
{
    reveal(crate::site::site_of);
    reveal(dispatched);
    let (_, after) = lent_this_call(m, this, index, name, first, pos);
    assert(after.stack =~= m.stack.subrange(0, first));
}

/// Where a call was found to go is asked for once: the same name with arguments of
/// the same kinds in the same frame goes there again without asking.
pub proof fn calls_are_looked_up_once(
    m: Machine,
    index: u32,
    name: Seq<char>,
    args: Seq<Datum>,
    again: Seq<Datum>,
    pos: Position,
)
    requires
        m.regs.generation != 0,
        m.call_memo.len() == 0 || m.call_memo.len() == crate::memo::CALL_MEMO_SLOTS,
        m.imports.len() <= usize::MAX,
        args.len() <= 8,
        again.len() == args.len(),
        crate::memo::codes_of(args) is Some,
        crate::memo::codes_of(again) == crate::memo::codes_of(args),
    ensures
        ({
            let (found, m1) = crate::site::site_of(m, index, name, args, pos);
            found is Ok ==> crate::site::site_of(m1, index, name, again, pos) == (found, m1)
        }),
{
    reveal(crate::site::site_of);
    let slot = crate::memo::call_slot(index, args.len() as usize);
    let mixed = index as usize ^ (args.len() as usize);
    assert(mixed & 15 < 16) by (bit_vector);
    let (found, m1) = crate::site::site_of(m, index, name, args, pos);
    if found is Ok {
        assert(crate::site::site_table(m1) == m1.call_memo);
    }
}

/// A function pointer called on a value is handed the value as its receiver: a
/// host's pointer gets itself, the value and then the arguments.
pub proof fn pointers_called_on_a_value_get_it(
    k: Runner,
    p: Program,
    m: Machine,
    scope: Names,
    base: usize,
    receiver: Option<Receiver>,
    argc: int,
    pos: Position,
    name: Seq<char>,
    curry: Seq<Datum>,
    typ: FnPtrType,
)
    requires
        1 <= argc < m.stack.len(),
        ({
            let value = m.stack[m.stack.len() - argc - 1];
            !(value.data is FnPtr) && !(value.data is Shared) && value.mode == AccessMode::ReadWrite
        }),
        m.stack[m.stack.len() - argc].data == Data::FnPtr(name, curry, typ),
        p.texted_from(name, (curry.len() + argc - 1) as int, 0) is None,
        m.answers.len() == 0,
        m.request is None,
    ensures
        ({
            let start = m.stack.len() - argc - 1;
            let (_, after, _) = called_fn_ptr(k, p, m, scope, base, argc, true, receiver, pos);
            after.request matches Some(q) && q.operands.len() == argc + 1 && q.operands[1]
                == m.stack[start] && (q.operands[0].data matches Data::FnPtr(n, _, _) && n == name)
                && (forall|j: int|
                start + 1 < j < m.stack.len() ==> q.operands[j - start] == #[trigger] m.stack[j])
        }),
{
    broadcast use crate::value::copied_of_composite;

    reveal(called_fn_ptr);
    reveal(pointer_called);
    let start = m.stack.len() - argc - 1;
    let pointer = flat_copy(m.heap, m.stack[start + 1]);
    assert(pointer.data->FnPtr_1.len() == curry.len());
}

} // verus!
