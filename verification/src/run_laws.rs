//! What a run from outside is: which chunk it enters, with which variables and
//! arguments, and what is left of it afterwards.
use vstd::prelude::*;

use crate::call::{called_with_this, levels_left};
use crate::engine::Engine;
use crate::error::FailureKind;
use crate::frame::{below, executed, Entry};
use crate::machine::{Machine, Registers};
use crate::position::Position;
use crate::program::{Function, Program};
use crate::scope::Names;
use crate::value::Datum;
use crate::vm::{fn_called, found_called, fresh, function_called, main_run, started, Output};

verus! {

/// A run starts at the main chunk's entry, above the variables it was given, with
/// no question and no fault left over from before, and its value is the chunk's.
pub proof fn runs_start_at_the_main_chunk(p: Program, m: Machine, scope: Names)
    requires
        scope.len() <= usize::MAX,
    ensures
        ({
            let clean = started(m);
            let ran = executed(
                levels_left(clean),
                Entry {
                    p,
                    m: clean,
                    scope,
                    entry: p.main.entry,
                    base: scope.len() as usize,
                },
            );
            let (r, _, left) = main_run(p, m, scope);
            &&& r == ran.result && left == ran.scope
            &&& clean.request is None
            &&& clean.pending_steps.len() == 0
            &&& clean.stack == m.stack && clean.heap == m.heap && clean.answers == m.answers
        }),
{
    reveal(main_run);
}

/// A function called from outside finds its arguments on the stack in order,
/// above what was there, at the level it is called at; when it is done the stack
/// and the level are as they were.
pub proof fn outside_calls_push_their_arguments_in_order(
    p: Program,
    m: Machine,
    scope: Names,
    f: Function,
    name: Seq<char>,
    args: Seq<Datum>,
    level: usize,
    rewind: bool,
    pos: Position,
    this: Option<Datum>,
)
    ensures
        ({
            let c = found_called(p, m, scope, f, name, args, level, rewind, pos, this);
            let ready = Machine {
                stack: m.stack + args,
                regs: Registers { level, ..m.regs },
                room: crate::vm::args_pushed(p, m, args).room,
                ..m
            };
            let inner = called_with_this(
                below(levels_left(ready)),
                p,
                ready,
                scope,
                f,
                name,
                m.stack.len() as int,
                rewind,
                pos,
                this,
            );
            &&& c.result == inner.result && c.this == inner.this && c.scope == inner.scope
            &&& c.m.regs.level == m.regs.level
            &&& inner.m.stack.len() >= m.stack.len() ==> c.m.stack == inner.m.stack.subrange(
                0,
                m.stack.len() as int,
            )
            &&& c.m.heap == inner.m.heap && c.m.answers == inner.m.answers
        }),
{
    reveal(found_called);
    reveal(crate::vm::args_pushed);
    let c = found_called(p, m, scope, f, name, args, level, rewind, pos, this);
    let first = m.stack.len() as int;
    let m1 = crate::vm::args_pushed(p, m, args).with_regs(Registers { level, ..m.regs });
    let ready = Machine {
        stack: m.stack + args,
        regs: Registers { level, ..m.regs },
        room: crate::vm::args_pushed(p, m, args).room,
        ..m
    };
    assert(m1 == ready);
    let inner = called_with_this(
        below(levels_left(ready)),
        p,
        ready,
        scope,
        f,
        name,
        first,
        rewind,
        pos,
        this,
    );
    if inner.m.stack.len() >= m.stack.len() {
        assert(c.m.stack =~= inner.m.stack.subrange(0, first));
    }
}

/// A function that is not there is not found, with its name and how many
/// arguments it was called with, and nothing is run.
pub proof fn missing_functions_are_not_found(
    p: Program,
    m: Machine,
    scope: Names,
    name: Seq<char>,
    args: Seq<Datum>,
    level: usize,
    rewind: bool,
    pos: Position,
    this: Option<Datum>,
)
    requires
        p.texted_from(name, args.len() as int, 0) is None,
    ensures
        ({
            let c = function_called(p, m, scope, name, None, args, level, rewind, pos, this);
            &&& c.result matches Err(err)
            &&& err.pos == pos
            &&& err.kind matches FailureKind::ErrorFunctionNotFound(text)
            &&& crate::laws::begins_with(text, name)
            &&& c.m.stack == m.stack && c.m.heap == m.heap && c.scope == scope && c.this == this
        }),
{
    reveal(function_called);
    let text = name + (" ("@ + crate::text::decimal_nat(args.len()) + " args)"@);
    assert(text.subrange(0, name.len() as int) =~= name);
}

/// A call that gives back the scope as it was leaves no more variables than there
/// were; one with a tag of its own runs under it.
pub proof fn calls_that_rewind_leave_no_variables(
    p: Program,
    m: Machine,
    scope: Names,
    name: Seq<char>,
    args: Seq<Datum>,
    eval_ast: bool,
    tag: Option<Datum>,
    this: Option<Datum>,
    wanted: Output,
)
    ensures
        fn_called(p, m, scope, name, args, eval_ast, true, tag, this, wanted).scope.len()
            <= scope.len(),
        tag matches Some(given) ==> fn_called(
            p,
            m,
            scope,
            name,
            args,
            eval_ast,
            true,
            tag,
            this,
            wanted,
        ) == fn_called(
            p,
            Machine { tag: given, ..m },
            scope,
            name,
            args,
            eval_ast,
            true,
            None,
            this,
            wanted,
        ),
{
    reveal(fn_called);
}

/// A fresh machine holds nothing: no operand, loop, handler, cell, answer or call,
/// at no level and with nothing counted.
pub proof fn fresh_machines_hold_nothing(engine: Engine)
    ensures
        ({
            let m = fresh(engine);
            &&& m.engine == engine
            &&& m.stack.len() == 0 && m.iterators.len() == 0 && m.handlers.len() == 0
            &&& m.sizes.len() == 0 && m.faults.len() == 0 && m.heap.len() == 0
            &&& m.answers.len() == 0 && m.call_stack.len() == 0 && m.pending_steps.len() == 0
            &&& m.this is None && m.request is None && m.source is None && m.callbacks is None
            &&& m.regs.level == 0 && m.regs.operations == 0 && m.regs.unwind_floor == 0
            &&& m.regs.generation == 0 && !m.regs.always_search_scope && !m.regs.pooled
        }),
{
}

} // verus!
