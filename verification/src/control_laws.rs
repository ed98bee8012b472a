//! Where control goes: regions, loops, switches, branches and returns.
//!
//! The laws speak of what goes in and what comes out: of operands, loops and
//! variables before an instruction and after it, and of what several
//! instructions come to one after another.
use vstd::prelude::*;

use crate::bytecode::Op;
use crate::element::{advanced, turned};
use crate::error::{Fail, FailureKind};
use crate::frame::{catch_value, caught, plain_did, stepped, Runner};
use crate::laws::begins_with;
use crate::machine::{Items, Iteration, Machine};
use crate::operate::{transferred, Flow};
use crate::ops::{did_iter_drop, did_iter_init, did_pop_handler, did_push_handler, natural_range};
use crate::position::{nowhere, Position};
use crate::program::{Program, Switch};
use crate::scope::Names;
use crate::value::{copied, with_mode, Data, Datum};

verus! {

// ---------------------------------------------------------------------------
// Regions.

/// A region entered and a failure in it caught leave exactly what was live when
/// the region was entered: whatever loops, operands and variables were added
/// meanwhile are gone, and none that were there before is. Only the catch
/// variable is new, bound to what was thrown.
pub proof fn regions_give_back_what_was_live(
    k: Runner,
    p: Program,
    m: Machine,
    scope: Names,
    base: usize,
    floor: usize,
    pc: usize,
    next: usize,
    target: u32,
    var: Option<u16>,
    later: Machine,
    names: Names,
    thrown: Datum,
    pos: Position,
)
    requires
        m.stack.len() <= usize::MAX,
        m.iterators.len() <= usize::MAX,
        scope.len() <= usize::MAX,
        scope.len() < m.engine.max_variables,
        var matches Some(i) ==> i < p.names@.len(),
        later.engine == m.engine,
        later.handlers == stepped(
            k,
            p,
            m,
            scope,
            base,
            floor,
            pc,
            next,
            Op::PushHandler { target, var },
        ).1.handlers,
        begins_with(later.stack, m.stack),
        begins_with(later.iterators, m.iterators),
        begins_with(names, scope),
    ensures
        ({
            let entered = stepped(
                k,
                p,
                m,
                scope,
                base,
                floor,
                pc,
                next,
                Op::PushHandler { target, var },
            );
            let failure: Fail = crate::error::EvalAltResult {
                kind: FailureKind::ErrorRuntime(thrown),
                pos,
            };
            let (r, after, left) = caught(p, later, failure, m.handlers.len() as int, names);
            &&& entered.0 == Ok::<Flow<Datum>, Fail>(Flow::Next(next))
            &&& entered.2 == scope
            &&& entered.1 == (Machine { handlers: entered.1.handlers, ..m })
            &&& entered.1.handlers.len() == m.handlers.len() + 1
            &&& begins_with(entered.1.handlers, m.handlers)
            &&& r == Ok::<usize, Fail>(target as usize)
            &&& after.stack == m.stack
            &&& after.iterators == m.iterators
            &&& after.handlers.len() == m.handlers.len() + 1
            &&& begins_with(after.handlers, m.handlers)
            &&& var is None ==> left == scope
            &&& var matches Some(i) ==> left.len() == scope.len() + 1 && begins_with(left, scope)
                && left.last().0 == p.names@[i as int]@ && left.last().1.data == with_mode(
                copied(thrown),
                copied(thrown).mode,
            ).data
        }),
{
    reveal(stepped);
    reveal(plain_did);
    reveal(caught);
    let entered = stepped(
        k,
        p,
        m,
        scope,
        base,
        floor,
        pc,
        next,
        Op::PushHandler { target, var },
    );
    assert(entered.1.handlers.subrange(0, m.handlers.len() as int) =~= m.handlers);
    let failure: Fail = crate::error::EvalAltResult {
        kind: FailureKind::ErrorRuntime(thrown),
        pos,
    };
    let (r, after, left) = caught(p, later, failure, m.handlers.len() as int, names);
    assert(after.stack =~= m.stack);
    assert(after.iterators =~= m.iterators);
    assert(after.handlers.subrange(0, m.handlers.len() as int) =~= m.handlers);
    assert(crate::scope::rewound(names, scope.len() as int) =~= scope);
    assert(left.subrange(0, scope.len() as int) =~= scope);
}

/// Leaving a region undoes entering it.
pub proof fn regions_are_left_as_entered(m: Machine, scope: Names, target: u32, var: Option<u16>)
    ensures
        did_pop_handler(did_push_handler(m, scope, target, var).1, scope) == (
            Ok::<(), Fail>(()),
            m,
            scope,
        ),
{
    let entered = did_push_handler(m, scope, target, var).1;
    assert(entered.handlers.drop_last() =~= m.handlers);
}

/// What is thrown is the operand on top, and it is what a catch variable is
/// bound to, however many calls it came through.
pub proof fn thrown_is_what_is_caught(
    k: Runner,
    p: Program,
    m: Machine,
    scope: Names,
    base: usize,
    floor: usize,
    pc: usize,
    next: usize,
    name: Seq<char>,
    source: Seq<char>,
)
    requires
        m.stack.len() > 0,
        !(m.stack.last().data is Shared),
    ensures
        ({
            let (r, after, left) = stepped(k, p, m, scope, base, floor, pc, next, Op::Throw);
            let wrapped: Fail = crate::error::EvalAltResult {
                kind: FailureKind::ErrorInFunctionCall(name, source, Box::new(r->Err_0)),
                pos: nowhere(),
            };
            &&& r is Err
            &&& r->Err_0.pos == p.pos_of(pc as int)
            &&& r->Err_0.kind == FailureKind::<Datum, Seq<char>>::ErrorRuntime(m.stack.last())
            &&& after == (Machine { stack: m.stack.drop_last(), ..m })
            &&& left == scope
            &&& catch_value(m, r->Err_0, true) == (
                Ok::<(Datum, Fail), Fail>((copied(m.stack.last()), r->Err_0)),
                m,
            )
            &&& catch_value(m, wrapped, true) == (
                Ok::<(Datum, Fail), Fail>((copied(m.stack.last()), wrapped)),
                m,
            )
        }),
{
    reveal(stepped);
    reveal(plain_did);
    reveal_with_fuel(crate::error::EvalAltResult::innermost, 3);
}

// ---------------------------------------------------------------------------
// Loops.

/// A run after so many turns of its innermost loop, with what each turn put on
/// the stack taken off again.
pub open spec fn after_turns(
    p: Program,
    m: Machine,
    scope: Names,
    base: usize,
    indexed: bool,
    pos: Position,
    n: nat,
) -> Machine
    decreases n,
{
    if n == 0 {
        m
    } else {
        let before = after_turns(p, m, scope, base, indexed, pos, (n - 1) as nat);
        let (_, after, _) = advanced(p, before, scope, base, indexed, None, pos);
        Machine { stack: m.stack, room: m.room, ..after }
    }
}

/// A loop over `a..b` hands out `a`, `a + 1` and so on up to `b - 1`, in that
/// order, counted from nought where it counts, and then is over and gone.
pub proof fn ranges_hand_out_their_integers(
    p: Program,
    m: Machine,
    scope: Names,
    base: usize,
    indexed: bool,
    pos: Position,
    a: i64,
    b: i64,
    n: nat,
)
    requires
        m.stack.len() > 0,
        m.stack.last().data == Data::Range(a, b),
        natural_range(m),
        n < i64::MAX,
        n == 0 || a + n <= b,
    ensures
        ({
            let (started, inside, left) = did_iter_init(m, scope, pos);
            let turned = after_turns(p, inside, scope, base, indexed, pos, n);
            let (r, after, names) = advanced(p, turned, scope, base, indexed, None, pos);
            &&& started is Ok
            &&& left == scope
            &&& inside.stack == m.stack.drop_last()
            &&& inside.iterators.len() == m.iterators.len() + 1
            &&& begins_with(inside.iterators, m.iterators)
            &&& names == scope
            &&& turned.stack == inside.stack
            &&& a + n < b ==> {
                &&& r == Ok::<bool, Fail>(true)
                &&& after.stack.last().data == Data::Int((a + n) as i64)
                &&& after.stack.len() == inside.stack.len() + (if indexed {
                    2int
                } else {
                    1
                })
                &&& begins_with(after.stack, inside.stack)
                &&& indexed ==> after.stack[inside.stack.len() as int].data == Data::Int(n as i64)
                &&& after.iterators.len() == m.iterators.len() + 1
                &&& begins_with(after.iterators, m.iterators)
            }
            &&& a + n >= b ==> {
                &&& r == Ok::<bool, Fail>(false)
                &&& after.stack == inside.stack
                &&& after.iterators == m.iterators
            }
        }),
{
    reveal(advanced);
    let (_, inside, _) = did_iter_init(m, scope, pos);
    assert(inside.iterators.subrange(0, m.iterators.len() as int) =~= m.iterators);
    loops_stand_at(p, m, scope, base, indexed, pos, a, b, n);
    let turned = after_turns(p, inside, scope, base, indexed, pos, n);
    assert(turned.iterators.drop_last() =~= m.iterators);
    let (_, after, _) = advanced(p, turned, scope, base, indexed, None, pos);
    if a + n < b {
        assert(after.iterators.subrange(0, m.iterators.len() as int) =~= m.iterators);
        assert(after.stack.subrange(0, inside.stack.len() as int) =~= inside.stack);
    }
}

/// Where a loop over a range stands after so many turns.
proof fn loops_stand_at(
    p: Program,
    m: Machine,
    scope: Names,
    base: usize,
    indexed: bool,
    pos: Position,
    a: i64,
    b: i64,
    n: nat,
)
    requires
        m.stack.len() > 0,
        m.stack.last().data == Data::Range(a, b),
        natural_range(m),
        n < i64::MAX,
        n == 0 || a + n <= b,
    ensures
        ({
            let inside = did_iter_init(m, scope, pos).1;
            let turned = after_turns(p, inside, scope, base, indexed, pos, n);
            turned == (Machine {
                iterators: m.iterators.push(
                    Iteration {
                        items: Items::IntRange { next: (a + n) as i64, end: b },
                        count: (n - 1) as i64,
                    },
                ),
                stack: m.stack.drop_last(),
                ..m
            })
        }),
    decreases n,
{
    reveal(advanced);
    let inside = did_iter_init(m, scope, pos).1;
    if n == 0 {
        assert(inside == after_turns(p, inside, scope, base, indexed, pos, 0));
    } else {
        loops_stand_at(p, m, scope, base, indexed, pos, a, b, (n - 1) as nat);
        let before = after_turns(p, inside, scope, base, indexed, pos, (n - 1) as nat);
        assert(before.iterators.drop_last() =~= m.iterators);
        assert(before.stack == inside.stack && before.room == inside.room);
        let (_, after, _) = advanced(p, before, scope, base, indexed, None, pos);
        assert(after_turns(p, inside, scope, base, indexed, pos, n) == (Machine {
            stack: inside.stack,
            room: inside.room,
            ..after
        }));
    }
}

/// A turn that found an item goes to the loop's body and one that found none
/// goes on behind it.
pub proof fn turns_lead_into_the_body(
    k: Runner,
    p: Program,
    m: Machine,
    scope: Names,
    base: usize,
    floor: usize,
    pc: usize,
    next: usize,
    body: u32,
    indexed: bool,
    store: Option<u16>,
)
    ensures
        ({
            let (found, m1, left) = advanced(
                p,
                m,
                scope,
                base,
                indexed,
                store,
                p.pos_of(pc as int),
            );
            let (r, after, names) = stepped(
                k,
                p,
                m,
                scope,
                base,
                floor,
                pc,
                next,
                Op::IterNext { body, indexed, store },
            );
            &&& found == Ok::<bool, Fail>(false) ==> r == Ok::<Flow<Datum>, Fail>(
                Flow::Next(next),
            ) && after == m1 && names == left
            &&& found == Ok::<bool, Fail>(true) && body > pc ==> r == Ok::<Flow<Datum>, Fail>(
                Flow::Next(body as usize),
            ) && after == m1 && names == left
            &&& found == Ok::<bool, Fail>(true) && body <= pc && r is Ok ==> r == Ok::<
                Flow<Datum>,
                Fail,
            >(Flow::Next(body as usize)) && after.regs.operations > m1.regs.operations
            &&& found matches Err(err) ==> r == Err::<Flow<Datum>, Fail>(err)
        }),
{
    reveal(stepped);
    reveal(turned);
    reveal(transferred);
}

/// A loop given up goes, and the ones around it stay.
pub proof fn loops_are_given_up_one_by_one(m: Machine, scope: Names)
    requires
        m.iterators.len() > 0,
    ensures
        did_iter_drop(m, scope).0 is Ok,
        did_iter_drop(m, scope).1.iterators.len() == m.iterators.len() - 1,
        begins_with(m.iterators, did_iter_drop(m, scope).1.iterators),
        did_iter_drop(m, scope).1 == (Machine {
            iterators: did_iter_drop(m, scope).1.iterators,
            ..m
        }),
        did_iter_drop(m, scope).2 == scope,
{
    assert(m.iterators.subrange(0, m.iterators.len() - 1) =~= m.iterators.drop_last());
}

// ---------------------------------------------------------------------------
// Switches.

proof fn ranges_are_tried_in_order(table: Switch, n: i64, from: int, j: int)
    requires
        0 <= from <= j <= table.ranges@.len(),
        forall|i: int|
            from <= i < j ==> n < (#[trigger] table.ranges@[i]).from || n > table.ranges@[i].to || (
            n == table.ranges@[i].to && !table.ranges@[i].inclusive),
        j < table.ranges@.len() ==> table.ranges@[j].from <= n && (n < table.ranges@[j].to || (n
            == table.ranges@[j].to && table.ranges@[j].inclusive)),
    ensures
        table.ranged(n, from) == (if j < table.ranges@.len() {
            table.ranges@[j].target
        } else {
            table.default
        }),
    decreases j - from,
{
    if from < j {
        assert(n < table.ranges@[from].from || n > table.ranges@[from].to || (n
            == table.ranges@[from].to && !table.ranges@[from].inclusive));
        ranges_are_tried_in_order(table, n, from + 1, j);
    }
}

proof fn literals_are_tried_in_order(table: Switch, subject: Data, from: int, j: int)
    requires
        0 <= from <= j <= table.cases@.len(),
        subject is Unit || subject is Bool || subject is Int || subject is Char || subject is Str,
        forall|i: int| from <= i < j ==> (#[trigger] table.cases@[i]).literal@.data != subject,
        j < table.cases@.len() ==> table.cases@[j].literal@.data == subject,
    ensures
        j < table.cases@.len() ==> table.goes(subject, from) == table.cases@[j].target,
        j == table.cases@.len() ==> table.goes(subject, from) == (match subject {
            Data::Int(n) => table.ranged(n, 0),
            _ => table.default,
        }),
    decreases j - from,
{
    if from < j {
        assert(table.cases@[from].literal@.data != subject);
        literals_are_tried_in_order(table, subject, from + 1, j);
    }
}

/// A switch on a value that some literal is goes to the first such literal's
/// arm.
pub proof fn switches_go_to_their_literal(table: Switch, subject: Data, i: int)
    requires
        subject is Unit || subject is Bool || subject is Int || subject is Char || subject is Str,
        0 <= i < table.cases@.len(),
        table.cases@[i].literal@.data == subject,
        forall|l: int| 0 <= l < i ==> (#[trigger] table.cases@[l]).literal@.data != subject,
    ensures
        table.goes(subject, 0) == table.cases@[i].target,
{
    literals_are_tried_in_order(table, subject, 0, i);
}

/// A switch on an integer that no literal is goes to the arm of the first range
/// that reaches from its lower end to below its upper one, or to that one too
/// where it is inclusive.
pub proof fn switches_go_to_their_range(table: Switch, n: i64, j: int)
    requires
        forall|l: int|
            0 <= l < table.cases@.len() ==> (#[trigger] table.cases@[l]).literal@.data != Data::Int(
                n,
            ),
        0 <= j < table.ranges@.len(),
        table.ranges@[j].from <= n,
        n < table.ranges@[j].to || (n == table.ranges@[j].to && table.ranges@[j].inclusive),
        forall|i: int|
            0 <= i < j ==> n < (#[trigger] table.ranges@[i]).from || n > table.ranges@[i].to || (n
                == table.ranges@[i].to && !table.ranges@[i].inclusive),
    ensures
        table.goes(Data::Int(n), 0) == table.ranges@[j].target,
{
    literals_are_tried_in_order(table, Data::Int(n), 0, table.cases@.len() as int);
    ranges_are_tried_in_order(table, n, 0, j);
}

/// A switch on anything else goes to the default: a value no literal is that is
/// no integer, and an integer below, above or at the open end of every range.
pub proof fn switches_go_to_their_default(table: Switch, subject: Data)
    requires
        subject is Unit || subject is Bool || subject is Int || subject is Char || subject is Str,
        forall|l: int|
            0 <= l < table.cases@.len() ==> (#[trigger] table.cases@[l]).literal@.data != subject,
        subject matches Data::Int(n) ==> forall|i: int|
            0 <= i < table.ranges@.len() ==> n < (#[trigger] table.ranges@[i]).from || n
                > table.ranges@[i].to || (n == table.ranges@[i].to && !table.ranges@[i].inclusive),
    ensures
        table.goes(subject, 0) == table.default,
{
    literals_are_tried_in_order(table, subject, 0, table.cases@.len() as int);
    if let Data::Int(n) = subject {
        ranges_are_tried_in_order(table, n, 0, table.ranges@.len() as int);
    }
}

/// A switch instruction takes the value off the stack and goes where the table
/// says.
pub proof fn switches_take_their_subject(
    k: Runner,
    p: Program,
    m: Machine,
    scope: Names,
    base: usize,
    floor: usize,
    pc: usize,
    next: usize,
    index: u16,
)
    requires
        index < p.switches@.len(),
        m.stack.len() > 0,
        !(m.stack.last().data is Shared),
        p.switches@[index as int].goes(m.stack.last().data, 0) > pc,
    ensures
        stepped(k, p, m, scope, base, floor, pc, next, Op::Switch(index)) == (
            Ok::<Flow<Datum>, Fail>(
                Flow::Next(p.switches@[index as int].goes(m.stack.last().data, 0) as usize),
            ),
            Machine { stack: m.stack.drop_last(), ..m },
            scope,
        ),
{
    reveal(stepped);
    reveal(transferred);
}

// ---------------------------------------------------------------------------
// Branches and returns.

/// A jump goes to its target; a branch takes the boolean off the stack and goes
/// to its target exactly when that is the one it waits for.
pub proof fn branches_go_by_their_boolean(
    k: Runner,
    p: Program,
    m: Machine,
    scope: Names,
    base: usize,
    floor: usize,
    pc: usize,
    next: usize,
    target: u32,
    when: bool,
    b: bool,
)
    requires
        target > pc,
        m.stack.len() > 0,
        m.stack.last().data == Data::Bool(b),
    ensures
        stepped(k, p, m, scope, base, floor, pc, next, Op::Jump(target)) == (
            Ok::<Flow<Datum>, Fail>(Flow::Next(target as usize)),
            m,
            scope,
        ),
        stepped(k, p, m, scope, base, floor, pc, next, Op::JumpIf { target, when }) == (
            Ok::<Flow<Datum>, Fail>(
                Flow::Next(
                    if b == when {
                        target as usize
                    } else {
                        next
                    },
                ),
            ),
            Machine { stack: m.stack.drop_last(), ..m },
            scope,
        ),
{
    reveal(stepped);
    reveal(transferred);
}

/// Coalescing keeps the operand, and skips what follows unless it is unit.
pub proof fn coalescing_keeps_the_operand(
    k: Runner,
    p: Program,
    m: Machine,
    scope: Names,
    base: usize,
    floor: usize,
    pc: usize,
    next: usize,
    target: u32,
)
    requires
        target > pc,
        m.stack.len() > 0,
    ensures
        stepped(k, p, m, scope, base, floor, pc, next, Op::SkipIfNotUnit(target)) == (
            Ok::<Flow<Datum>, Fail>(
                Flow::Next(
                    if m.stack.last().data == Data::Unit {
                        next
                    } else {
                        target as usize
                    },
                ),
            ),
            m,
            scope,
        ),
{
    reveal(stepped);
    reveal(transferred);
}

/// A return gives the operand on top, or unit where the frame has none, and drops
/// the frame's operands and no others.
pub proof fn returns_give_the_top(
    k: Runner,
    p: Program,
    m: Machine,
    scope: Names,
    base: usize,
    floor: usize,
    pc: usize,
    next: usize,
)
    requires
        floor <= m.stack.len(),
        m.stack.len() > floor || floor == 0,
    ensures
        ({
            let (r, after, left) = stepped(k, p, m, scope, base, floor, pc, next, Op::Return);
            &&& m.stack.len() > 0 ==> r == Ok::<Flow<Datum>, Fail>(Flow::Leave(m.stack.last()))
            &&& m.stack.len() == 0 ==> (r matches Ok(Flow::Leave(v)) && v.data is Unit)
            &&& after == (Machine { stack: m.stack.subrange(0, floor as int), ..m })
            &&& left == scope
        }),
{
    reveal(stepped);
    let (_, after, _) = stepped(k, p, m, scope, base, floor, pc, next, Op::Return);
    assert(after.stack =~= m.stack.subrange(0, floor as int));
}

} // verus!
