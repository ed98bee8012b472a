//! Running a program from outside: evaluating it, calling into it, and the
//! environment it runs in.
use vstd::prelude::*;

use crate::call::{
    bind_this, bound_this, called_with_this, gave, levels_left, unbind_this, unbound_this, Called,
};
use crate::debug::{end_reported, Status};
use crate::engine::Engine;
use crate::error::{
    fail, is_failure, outcome, raised, result_view, unwind_exit, unwound, Error, Fail, FailureKind,
    VmResult,
};
use crate::frame::{below, executed, Entry};
use crate::heap::{flattened, Heap};
use crate::host::{answer_views, request_view, Answer, HostRequest};
use crate::machine::{
    fault_recorded, faults_cleared, opt_view, text_view, Fault, Machine, Registers, Vm,
};
use crate::memo::{empty_operator_memo, OperatorMemo, OPERATOR_MEMO_SLOTS};
use crate::position::{nowhere, Position};
use crate::program::{Function, Program};
use crate::scope::{rewound, Names, Scope};
use crate::site::Gave;
use crate::stack::Stack;
use crate::text::{decimal_nat, numbered};
use crate::value::{all_views, name_of_type, type_text, unit, Data, Datum, Dynamic, Union};

verus! {

/// The numbers of a run that has done nothing yet.
pub open spec fn fresh_registers() -> Registers {
    Registers {
        unwind_floor: 0,
        chain_step: 0,
        pending_slot: None,
        owns_trace: true,
        generation: 0,
        last_generation: 0,
        level: 0,
        operations: 0,
        always_search_scope: false,
        caches: 0,
        pooled: false,
        status: Status::Init,
    }
}

/// A run that has done nothing yet.
pub open spec fn fresh(engine: Engine) -> Machine {
    Machine {
        engine,
        stack: Seq::empty(),
        room: 0,
        this: None,
        iterators: Seq::empty(),
        handlers: Seq::empty(),
        sizes: Seq::empty(),
        faults: Seq::empty(),
        heap: Seq::empty(),
        answers: Seq::empty(),
        request: None,
        operator_memo: Seq::new(OPERATOR_MEMO_SLOTS as nat, |i: int| OperatorMemo::unused()),
        call_memo: Seq::empty(),
        source: None,
        lib: Seq::empty(),
        imports: Seq::empty(),
        resolver: None,
        ranges: Seq::empty(),
        pending_steps: Seq::empty(),
        call_stack: Seq::empty(),
        tag: unit(),
        callbacks: None,
        regs: fresh_registers(),
    }
}

// ---------------------------------------------------------------------------
// What entering a program gives.

/// A run as it is entered: it stands at no question, no step of an earlier run
/// waits, and its trace starts over.
pub open spec fn started(m: Machine) -> Machine {
    faults_cleared(Machine { request: None, pending_steps: Seq::empty(), ..m })
}

/// A run as it ends: where it failed the trace says so, and where it did not it
/// is forgotten.
pub open spec fn traced(
    before: Machine,
    m: Machine,
    result: Result<Datum, Fail>,
    reached: usize,
) -> Machine {
    if unwound(result) is Err {
        fault_recorded(m, reached)
    } else {
        forgotten(before, m)
    }
}

/// A run with its trace cleared, where it was the run's to clear when it began.
pub open spec fn forgotten(before: Machine, m: Machine) -> Machine {
    if before.regs.owns_trace {
        Machine {
            faults: Seq::empty(),
            regs: Registers { pending_slot: None, ..m.regs },
            ..m
        }
    } else {
        m
    }
}

/// The main chunk run, with a failure noted in the trace.
#[verifier::opaque]
pub open spec fn main_run(p: Program, m: Machine, scope: Names) -> Gave {
    let m1 = started(m);
    let r = executed(
        levels_left(m1),
        Entry { p, m: m1, scope, entry: p.main.entry, base: scope.len() as usize },
    );
    (r.result, traced(m1, r.m, r.result, r.reached), r.scope)
}

/// A run with a program's library, resolver and source name in place.
pub open spec fn in_environment(m: Machine, p: Program, wrappers: Option<u64>) -> Machine {
    let lib = match p.lib {
        Some(id) => m.lib.push(id),
        None => m.lib,
    };
    Machine {
        source: text_view(p.source),
        lib: match wrappers {
            Some(id) => lib.push(id),
            None => lib,
        },
        resolver: p.resolver,
        ..m
    }
}

/// A run with the library, resolver and source name it had before.
pub open spec fn out_of_environment(before: Machine, after: Machine) -> Machine {
    Machine {
        source: before.source,
        lib: crate::frame::cut(after.lib, before.lib.len() as int),
        resolver: before.resolver,
        ..after
    }
}

/// A program evaluated in its environment: a top-level `return` and an `exit`
/// are its value.
#[verifier::opaque]
pub open spec fn evaluated(
    p: Program,
    m: Machine,
    scope: Names,
    wrappers: Option<u64>,
) -> Gave {
    let (r, m1, left) = main_run(p, in_environment(m, p, wrappers), scope);
    match unwound(r) {
        Err(err) => (Err(err), out_of_environment(m, m1), left),
        Ok(v) => match end_reported(m1, left) {
            (Ok(_), m2, left2) => (Ok(v), out_of_environment(m, m2), left2),
            (Err(err), m2, left2) => (Err(err), out_of_environment(m, m2), left2),
        },
    }
}

/// A program evaluated with pointers into it able to be called back: it is the
/// program those pointers carry, and where it has functions the host is given
/// wrappers for them and its crossings share what they finish with.
pub open spec fn evaluated_with_callbacks(p: Program, m: Machine, scope: Names) -> Gave {
    let wrappers = if p.functions@.len() > 0 {
        Some(p.id)
    } else {
        None
    };
    let m1 = Machine {
        callbacks: Some(p.id),
        regs: Registers { pooled: wrappers is Some, ..m.regs },
        ..m
    };
    let (r, m2, left) = evaluated(p, m1, scope, wrappers);
    (
        r,
        Machine {
            callbacks: m.callbacks,
            regs: Registers { pooled: m.regs.pooled, ..m2.regs },
            ..m2
        },
        left,
    )
}

/// A call's arguments on the stack, with room for them and for the body.
#[verifier::opaque]
pub open spec fn args_pushed(p: Program, m: Machine, args: Seq<Datum>) -> Machine {
    m.reserve(args.len() + p.max_stack as nat).push_all(args)
}

/// A function called with its arguments evaluated, at a call level of its own.
#[verifier::opaque]
pub open spec fn found_called(
    p: Program,
    m: Machine,
    scope: Names,
    f: Function,
    name: Seq<char>,
    args: Seq<Datum>,
    level: usize,
    rewind: bool,
    pos: Position,
    this: Option<Datum>,
) -> Called {
    let first = m.stack.len() as int;
    let m1 = args_pushed(p, m, args).with_regs(Registers { level, ..m.regs });
    let c = called_with_this(
        below(levels_left(m1)),
        p,
        m1,
        scope,
        f,
        name,
        first,
        rewind,
        pos,
        this,
    );
    let m2 = c.m.with_regs(Registers { level: m.regs.level, ..c.m.regs }).truncate(first);
    Called {
        m: if c.result is Ok {
            forgotten(m, m2)
        } else {
            m2
        },
        ..c
    }
}

/// A function called by name or by its name's index, with its arguments
/// evaluated, against a receiver it owns for the duration.
#[verifier::opaque]
pub open spec fn function_called(
    p: Program,
    m: Machine,
    scope: Names,
    name: Seq<char>,
    index: Option<u32>,
    args: Seq<Datum>,
    level: usize,
    rewind: bool,
    pos: Position,
    this: Option<Datum>,
) -> Called {
    let m1 = started(m);
    let callee = match index {
        Some(index) => p.plain_from(index, args.len() as int, 0),
        None => p.texted_from(name, args.len() as int, 0),
    };
    match callee {
        None => Called {
            result: Err(
                fail(
                    FailureKind::ErrorFunctionNotFound(
                        name + (" ("@ + decimal_nat(args.len()) + " args)"@),
                    ),
                    pos,
                ),
            ),
            this,
            m: m1,
            scope,
        },
        Some(i) => found_called(p, m1, scope, p.functions@[i], name, args, level, rewind, pos, this),
    }
}

/// What a caller wants a value to be.
#[derive(Clone, Copy, Debug, PartialEq, Eq, Structural)]
pub enum Output {
    Any,
    Unit,
    Bool,
    Int,
    Float,
    Char,
    Str,
    Array,
    Dict,
    FnPtr,
    Blob,
    TimeStamp,
    Range,
}

/// Whether a value is what a caller wants.
pub open spec fn suits(wanted: Output, d: Data) -> bool {
    match wanted {
        Output::Any => true,
        Output::Unit => d is Unit,
        Output::Bool => d is Bool,
        Output::Int => d is Int,
        Output::Float => d is Float,
        Output::Char => d is Char,
        Output::Str => d is Str,
        Output::Array => d is Array,
        Output::Dict => d is Dict,
        Output::FnPtr => d is FnPtr,
        Output::Blob => d is Blob,
        Output::TimeStamp => d is TimeStamp,
        Output::Range => d is Range,
    }
}

/// The name of the type a caller wants.
pub open spec fn wanted_name(wanted: Output) -> Seq<char> {
    match wanted {
        Output::Any => "Dynamic"@,
        Output::Unit => "()"@,
        Output::Bool => "bool"@,
        Output::Int => "i64"@,
        Output::Float => "f64"@,
        Output::Char => "char"@,
        Output::Str => "string"@,
        Output::Array => "array"@,
        Output::Dict => "map"@,
        Output::FnPtr => "Fn"@,
        Output::Blob => "blob"@,
        Output::TimeStamp => "timestamp"@,
        Output::Range => "core::ops::range::Range<i64>"@,
    }
}

/// How a function is called from outside.
#[derive(Debug)]
pub struct CallFnOptions {
    /// Whether the program's body runs first.
    pub eval_ast: bool,
    /// Whether the scope is cut back afterwards.
    pub rewind_scope: bool,
    /// The custom state of the evaluation.
    pub tag: Option<Dynamic>,
}

impl CallFnOptions {
    /// The body runs first and the scope is cut back.
    pub fn new() -> (options: CallFnOptions)
        ensures
            options.eval_ast,
            options.rewind_scope,
            options.tag is None,
    {
        CallFnOptions { eval_ast: true, rewind_scope: true, tag: None }
    }
}

/// What calling a function from outside gives: the value, the host's receiver
/// after, the run and the scope.
#[verifier::ext_equal]
pub struct FnCalled {
    pub result: Result<Datum, Fail>,
    pub this: Option<Datum>,
    pub m: Machine,
    pub scope: Names,
}

/// A result as the type a caller wants it to be, read out of any cell it is in.
pub open spec fn cast_to(m: Machine, result: Result<Datum, Fail>, wanted: Output) -> Result<
    Datum,
    Fail,
> {
    match result {
        Err(err) => Err(err),
        Ok(v) => {
            let v = flattened(m.heap, v);
            if suits(wanted, v.data) {
                Ok(v)
            } else {
                Err(
                    fail(
                        FailureKind::ErrorMismatchOutputType(
                            m.engine.mapped(wanted_name(wanted)),
                            m.engine.mapped(name_of_type(v.data)),
                        ),
                        nowhere(),
                    ),
                )
            }
        },
    }
}

/// The body of a call from outside, in the program's environment: the main
/// chunk where it is wanted, then the function where that went well. Whether
/// the main chunk went well comes beside what the call gave.
#[verifier::opaque]
pub open spec fn called_inside(
    p: Program,
    m: Machine,
    scope: Names,
    name: Seq<char>,
    args: Seq<Datum>,
    eval_ast: bool,
    rewind: bool,
    this: Option<Datum>,
) -> (Result<(), Fail>, Called) {
    let (ready, m1, left): (Result<(), Fail>, Machine, Names) = if eval_ast {
        let (r, m1, left) = main_run(p, m, scope);
        (
            match unwound(r) {
                Ok(_) => Ok(()),
                Err(err) => Err(err),
            },
            m1,
            left,
        )
    } else {
        (Ok(()), m, scope)
    };
    let c = match ready {
        Ok(_) => function_called(
            p,
            m1,
            left,
            name,
            None,
            args,
            0,
            rewind,
            nowhere(),
            this,
        ),
        Err(_) => Called { result: Ok(unit()), this, m: m1, scope: left },
    };
    let (ended, m2, left2) = end_reported(c.m, c.scope);
    (
        ready,
        Called {
            result: match ended {
                Ok(_) => c.result,
                Err(err) => Err(err),
            },
            this: c.this,
            m: m2,
            scope: left2,
        },
    )
}

/// A function called from outside. What it writes to the receiver stays
/// written, however the call ends.
pub open spec fn fn_called(
    p: Program,
    m: Machine,
    scope: Names,
    name: Seq<char>,
    args: Seq<Datum>,
    eval_ast: bool,
    rewind: bool,
    tag: Option<Datum>,
    this: Option<Datum>,
    wanted: Output,
) -> FnCalled {
    let m1 = match tag {
        Some(tag) => Machine { tag, ..m },
        None => m,
    };
    let bound = match this {
        Some(receiver) => Some(bound_this(m1.heap, receiver)),
        None => None,
    };
    let (ready, c) = called_inside(
        p,
        in_environment(m1, p, None),
        scope,
        name,
        args,
        eval_ast,
        rewind,
        bound,
    );
    let m2 = out_of_environment(m1, c.m);
    let after = match this {
        Some(receiver) => Some(unbound_this(m1.heap, receiver, c.this)),
        None => None,
    };
    FnCalled {
        result: match ready {
            Err(err) => Err(err),
            Ok(_) => cast_to(m2, c.result, wanted),
        },
        this: after,
        m: m2,
        scope: if rewind {
            rewound(c.scope, scope.len() as int)
        } else {
            c.scope
        },
    }
}

// ---------------------------------------------------------------------------
// The entry points.

fn suits_output(wanted: Output, v: &Dynamic) -> (r: bool)
    ensures
        r == suits(wanted, v@.data),
{
    match wanted {
        Output::Any => true,
        Output::Unit => matches!(v.value, Union::Unit),
        Output::Bool => matches!(v.value, Union::Bool(_)),
        Output::Int => matches!(v.value, Union::Int(_)),
        Output::Float => matches!(v.value, Union::Float(_)),
        Output::Char => matches!(v.value, Union::Char(_)),
        Output::Str => matches!(v.value, Union::Str(_)),
        Output::Array => matches!(v.value, Union::Array(_)),
        Output::Dict => matches!(v.value, Union::Dict(_)),
        Output::FnPtr => matches!(v.value, Union::FnPtr(_)),
        Output::Blob => matches!(v.value, Union::Blob(_)),
        Output::TimeStamp => matches!(v.value, Union::TimeStamp(_)),
        Output::Range => matches!(v.value, Union::Range(_, _)),
    }
}

fn output_name(wanted: Output) -> (name: &'static str)
    ensures
        name@ == wanted_name(wanted),
{
    match wanted {
        Output::Any => "Dynamic",
        Output::Unit => "()",
        Output::Bool => "bool",
        Output::Int => "i64",
        Output::Float => "f64",
        Output::Char => "char",
        Output::Str => "string",
        Output::Array => "array",
        Output::Dict => "map",
        Output::FnPtr => "Fn",
        Output::Blob => "blob",
        Output::TimeStamp => "timestamp",
        Output::Range => "core::ops::range::Range<i64>",
    }
}

fn reversed(answers: Vec<Answer>) -> (out: Vec<Answer>)
    ensures
        answer_views(out@) == answer_views(answers@).reverse(),
{
    let ghost whole = answer_views(answers@);
    let mut rest = answers;
    let mut out: Vec<Answer> = Vec::new();
    while rest.len() > 0
        invariant
            rest@.len() + out@.len() == whole.len(),
            forall|i: int| 0 <= i < rest@.len() ==> (#[trigger] rest@[i])@ == whole[i],
            forall|i: int|
                0 <= i < out@.len() ==> (#[trigger] out@[i])@ == whole[whole.len() - 1 - i],
        decreases rest@.len(),
    {
        if let Some(answer) = rest.pop() {
            out.push(answer);
        }
    }
    assert(answer_views(out@) =~= whole.reverse());
    out
}

impl<'e> Vm<'e> {
    /// A machine that runs against an engine.
    pub fn new(engine: &'e Engine) -> (vm: Vm<'e>)
        requires
            engine.wf(),
        ensures
            vm.wf(),
            vm@ == fresh(*engine),
    {
        let vm = Vm {
            engine,
            stack: Stack::new(),
            this: None,
            iterators: Vec::new(),
            handlers: Vec::new(),
            sizes: Vec::new(),
            faults: Vec::new(),
            heap: Heap::new(),
            answers: Vec::new(),
            request: None,
            operator_memo: empty_operator_memo(),
            call_memo: Vec::new(),
            source: None,
            lib: Vec::new(),
            imports: Vec::new(),
            resolver: None,
            ranges: Vec::new(),
            pending_steps: Vec::new(),
            call_stack: Vec::new(),
            tag: Dynamic::unit(),
            callbacks: None,
            scopes: Vec::new(),
            regs: Registers {
                unwind_floor: 0,
                chain_step: 0,
                pending_slot: None,
                owns_trace: true,
                generation: 0,
                last_generation: 0,
                level: 0,
                operations: 0,
                always_search_scope: false,
                caches: 0,
                pooled: false,
                status: Status::Init,
            },
        };
        proof {
            reveal(crate::memo::memos_stamped);
        }
        assert(vm@ =~= fresh(*engine));
        vm
    }

    /// Give the run its host's answers, the first one first.
    pub fn answer_with(&mut self, answers: Vec<Answer>)
        requires
            old(self).wf(),
        ensures
            final(self).reached(
                old(self)@,
                Machine { answers: answer_views(answers@).reverse(), ..old(self)@ },
            ),
    {
        self.answers = reversed(answers);
    }

    /// What a suspended run is waiting for.
    pub fn take_request(&mut self) -> (request: Option<HostRequest>)
        requires
            old(self).wf(),
        ensures
            (match request {
                Some(r) => Some(request_view(r)),
                None => None,
            }) == old(self)@.request,
            final(self).reached(old(self)@, Machine { request: None, ..old(self)@ }),
    {
        self.request.take()
    }

    /// The cells of the run.
    pub fn heap(&self) -> (heap: &Heap)
        ensures
            heap@ == self@.heap,
    {
        &self.heap
    }

    /// How many operands are on the stack.
    pub fn depth(&self) -> (n: usize)
        requires
            self.wf(),
        ensures
            n == self@.stack.len(),
    {
        self.stack.depth()
    }

    /// How many operands the stack has been given room for.
    pub fn allocated(&self) -> (n: usize)
        requires
            self.wf(),
        ensures
            n == self@.room,
            n >= self@.stack.len(),
    {
        self.stack.allocated()
    }

    /// Where the last run failed, innermost frame first.
    pub fn fault_trace(&self) -> (trace: Vec<Fault>)
        ensures
            trace@ == self@.faults,
    {
        let mut trace: Vec<Fault> = Vec::new();
        let mut i: usize = 0;
        while i < self.faults.len()
            invariant
                i <= self.faults@.len(),
                trace@ == self.faults@.subrange(0, i as int),
            decreases self.faults@.len() - i,
        {
            trace.push(self.faults[i]);
            i = i + 1;
        }
        assert(self.faults@.subrange(0, self.faults@.len() as int) =~= self.faults@);
        trace
    }

    /// Which instruction the last run failed at, if it failed.
    pub fn fault_pc(&self) -> (pc: Option<usize>)
        ensures
            pc == (if self@.faults.len() > 0 {
                Some(self@.faults[0].address)
            } else {
                None
            }),
    {
        if self.faults.len() > 0 {
            Some(self.faults[0].address)
        } else {
            None
        }
    }

    fn start(&mut self)
        requires
            old(self).wf(),
        ensures
            final(self).reached(old(self)@, started(old(self)@)),
    {
        self.request = None;
        self.pending_steps.clear();
        assert(self.pending_steps@ =~= Seq::empty());
        self.clear_faults();
    }

    fn run_main(&mut self, program: &Program, scope: &mut Scope) -> (out: VmResult)
        requires
            old(self).wf(),
        ensures
            gave(
                *final(self),
                old(self)@,
                out,
                final(scope)@,
                main_run(*program, old(self)@, old(scope)@),
            ),
    {
        proof {
            reveal(main_run);
        }
        self.start();
        let mut reached: usize = program.main.entry as usize;
        let base: usize = scope.len();
        let out = self.execute(program, scope, program.main.entry, base, &mut reached);
        if is_failure(&out) {
            self.record_fault(reached);
        } else {
            self.clear_faults();
        }
        out
    }

    /// Put a program's environment in place, and give back what was there: the
    /// source name, the length of the library and the resolver.
    fn enter_environment(&mut self, program: &Program, wrappers: Option<u64>) -> (out: (
        Option<String>,
        usize,
        Option<u64>,
    ))
        requires
            old(self).wf(),
        ensures
            final(self).wf(),
            final(self)@ == in_environment(old(self)@, *program, wrappers),
            text_view(out.0) == old(self)@.source,
            out.1 == old(self)@.lib.len(),
            out.2 == old(self)@.resolver,
    {
        let mut source = match &program.source {
            Some(s) => Some(s.clone()),
            None => None,
        };
        core::mem::swap(&mut self.source, &mut source);
        let len: usize = self.lib.len();
        if let Some(id) = program.lib {
            self.lib.push(id);
        }
        if let Some(id) = wrappers {
            self.lib.push(id);
        }
        let resolver = self.resolver;
        self.resolver = program.resolver;
        (source, len, resolver)
    }

    fn leave_environment(&mut self, saved: (Option<String>, usize, Option<u64>))
        requires
            old(self).wf(),
        ensures
            forall|before: Machine|
                before.source == text_view(saved.0) && before.lib.len() == saved.1
                    && before.resolver == saved.2 ==> #[trigger] out_of_environment(
                    before,
                    old(self)@,
                ) == final(self)@,
            final(self).wf(),
    {
        let ghost after = self@;
        self.source = saved.0;
        self.lib.truncate(saved.1);
        self.resolver = saved.2;
        assert(self.lib@ =~= crate::frame::cut(after.lib, saved.1 as int));
    }

    fn run_with(&mut self, program: &Program, scope: &mut Scope, wrappers: Option<u64>) -> (out:
        VmResult)
        requires
            old(self).wf(),
        ensures
            gave(
                *final(self),
                old(self)@,
                out,
                final(scope)@,
                evaluated(*program, old(self)@, old(scope)@, wrappers),
            ),
            final(self)@.lib == old(self)@.lib,
            out is Ok && old(self)@.regs.owns_trace ==> final(self)@.faults.len() == 0,
    {
        proof {
            reveal(evaluated);
            reveal(main_run);
        }
        let ghost before = self@;
        let saved = self.enter_environment(program, wrappers);
        let out = unwind_exit(self.run_main(program, scope));
        let out = match out {
            Err(err) => Err(err),
            Ok(v) => match self.at_end(scope) {
                Ok(_) => Ok(v),
                Err(err) => Err(err),
            },
        };
        let ghost after = self@;
        self.leave_environment(saved);
        assert(self@ == out_of_environment(before, after));
        assert(self@.lib =~= before.lib);
        out
    }

    /// Evaluate a program's main chunk against a scope.
    ///
    /// What the program declares at the top level is left in the scope, and
    /// what was in it beforehand is visible to the program. A run that is
    /// suspended leaves the scope as far as it got, so whoever runs it again
    /// starts from a copy.
    pub fn eval_with_scope(&mut self, scope: &mut Scope, program: &Program) -> (out: VmResult)
        requires
            old(self).wf(),
        ensures
            gave(
                *final(self),
                old(self)@,
                out,
                final(scope)@,
                evaluated(*program, old(self)@, old(scope)@, None),
            ),
            final(self)@.lib == old(self)@.lib,
            out is Ok && old(self)@.regs.owns_trace ==> final(self)@.faults.len() == 0,
    {
        self.run_with(program, scope, None)
    }

    /// Evaluate a program against a scope of its own.
    pub fn eval(&mut self, program: &Program) -> (out: VmResult)
        requires
            old(self).wf(),
        ensures
            ({
                let (r, m, _) = evaluated(*program, old(self)@, Names::empty(), None);
                result_view(out) == r && final(self).reached(old(self)@, m)
            }),
            final(self)@.lib == old(self)@.lib,
            out is Ok && old(self)@.regs.owns_trace ==> final(self)@.faults.len() == 0,
    {
        let mut scope = Scope::new();
        self.eval_with_scope(&mut scope, program)
    }

    /// Evaluate a program against a scope for its effects.
    pub fn run_with_scope(&mut self, scope: &mut Scope, program: &Program) -> (out: Result<
        (),
        Error,
    >)
        requires
            old(self).wf(),
        ensures
            ({
                let (r, m, sc) = evaluated(*program, old(self)@, old(scope)@, None);
                (match out {
                    Ok(_) => r is Ok,
                    Err(err) => r == Err::<Datum, Fail>(err@),
                }) && final(self).reached(old(self)@, m) && final(scope)@ == sc
            }),
            final(self)@.lib == old(self)@.lib,
            out is Ok && old(self)@.regs.owns_trace ==> final(self)@.faults.len() == 0,
    {
        let _ = self.eval_with_scope(scope, program)?;
        Ok(())
    }

    /// Evaluate a program for its effects against a scope of its own.
    pub fn run(&mut self, program: &Program) -> (out: Result<(), Error>)
        requires
            old(self).wf(),
        ensures
            ({
                let (r, m, _) = evaluated(*program, old(self)@, Names::empty(), None);
                (match out {
                    Ok(_) => r is Ok,
                    Err(err) => r == Err::<Datum, Fail>(err@),
                }) && final(self).reached(old(self)@, m)
            }),
            final(self)@.lib == old(self)@.lib,
            out is Ok && old(self)@.regs.owns_trace ==> final(self)@.faults.len() == 0,
    {
        let mut scope = Scope::new();
        self.run_with_scope(&mut scope, program)
    }

    /// Evaluate a program that hands function pointers to the host.
    pub fn eval_with_callbacks(&mut self, scope: &mut Scope, program: &Program) -> (out: VmResult)
        requires
            old(self).wf(),
        ensures
            gave(
                *final(self),
                old(self)@,
                out,
                final(scope)@,
                evaluated_with_callbacks(*program, old(self)@, old(scope)@),
            ),
            final(self)@.lib == old(self)@.lib,
            out is Ok && old(self)@.regs.owns_trace ==> final(self)@.faults.len() == 0,
    {
        let wrappers = if program.functions.len() > 0 {
            Some(program.id)
        } else {
            None
        };
        let outer = self.callbacks;
        self.callbacks = Some(program.id);
        let outer_pool = self.regs.pooled;
        self.regs.pooled = wrappers.is_some();
        let out = self.run_with(program, scope, wrappers);
        self.regs.pooled = outer_pool;
        self.callbacks = outer;
        out
    }

    /// Put a call's arguments on the stack, with room made for them and for the
    /// body at once.
    fn push_args(&mut self, program: &Program, args: Vec<Dynamic>)
        requires
            old(self).wf(),
        ensures
            final(self).reached(old(self)@, args_pushed(*program, old(self)@, all_views(args@))),
            final(self)@.regs == old(self)@.regs,
    {
        proof {
            reveal(args_pushed);
        }
        let body: usize = program.max_stack as usize;
        let ghost row = all_views(args@);
        if args.len() <= usize::MAX - body {
            self.stack.reserve(args.len() + body);
        }
        assert(self@ == old(self)@.reserve(row.len() + program.max_stack as nat));
        self.stack.push_all(args);
    }

    /// Call a compiled function at a call level of its own.
    fn call_found(
        &mut self,
        program: &Program,
        f: &Function,
        name: &str,
        args: Vec<Dynamic>,
        level: usize,
        scope: &mut Scope,
        rewind: bool,
        pos: Position,
        this: Option<Dynamic>,
    ) -> (out: (VmResult, Option<Dynamic>))
        requires
            old(self).wf(),
        ensures
            ({
                let c = found_called(
                    *program,
                    old(self)@,
                    old(scope)@,
                    *f,
                    name@,
                    all_views(args@),
                    level,
                    rewind,
                    pos,
                    opt_view(this),
                );
                result_view(out.0) == c.result && opt_view(out.1) == c.this && final(self).reached(
                    old(self)@,
                    c.m,
                ) && final(scope)@ == c.scope
            }),
            out.1 is Some == this is Some,
            out.0 is Ok && old(self)@.regs.last_generation < u64::MAX
                ==> final(self)@.regs.last_generation > old(self)@.regs.last_generation,
            out.0 is Ok && old(self)@.regs.owns_trace ==> final(self)@.faults.len() == 0,
    {
        proof {
            reveal(found_called);
        }
        let first: usize = self.stack.depth();
        self.push_args(program, args);
        let restore: usize = self.regs.level;
        self.regs.level = level;
        let out = self.call_compiled_with_this(program, f, name, first, scope, rewind, pos, this);
        self.regs.level = restore;
        self.truncate_stack(first);
        if out.0.is_ok() {
            self.clear_faults();
        }
        out
    }

    /// Call one compiled function by name, or by its name's index where that is
    /// known, against a receiver it owns for the duration.
    pub(crate) fn call_function_with_this(
        &mut self,
        program: &Program,
        name: &str,
        index: Option<u32>,
        args: Vec<Dynamic>,
        level: usize,
        scope: &mut Scope,
        rewind: bool,
        pos: Position,
        this: Option<Dynamic>,
    ) -> (out: (VmResult, Option<Dynamic>))
        requires
            old(self).wf(),
        ensures
            ({
                let c = function_called(
                    *program,
                    old(self)@,
                    old(scope)@,
                    name@,
                    index,
                    all_views(args@),
                    level,
                    rewind,
                    pos,
                    opt_view(this),
                );
                result_view(out.0) == c.result && opt_view(out.1) == c.this && final(self).reached(
                    old(self)@,
                    c.m,
                ) && final(scope)@ == c.scope
            }),
            out.1 is Some == this is Some,
            out.0 is Ok && old(self)@.regs.last_generation < u64::MAX
                ==> final(self)@.regs.last_generation > old(self)@.regs.last_generation,
            out.0 is Ok && old(self)@.regs.owns_trace ==> final(self)@.faults.len() == 0,
    {
        proof {
            reveal(function_called);
        }
        self.start();
        assert(args@.len() == all_views(args@).len());
        let callee = match index {
            Some(index) => program.function(index, args.len()),
            None => program.function_named(name, args.len()),
        };
        match callee {
            None => {
                let mut text = name.to_owned();
                text.append(numbered(" (", args.len() as u64, " args)").as_str());
                (Err(raised(FailureKind::ErrorFunctionNotFound(text), pos)), this)
            },
            Some(i) => {
                let f = &program.functions[i];
                self.call_found(program, f, name, args, level, scope, rewind, pos, this)
            },
        }
    }

    /// Call one compiled function by name, with its arguments evaluated.
    ///
    /// `level` is the caller's call depth, so that the limit on it counts
    /// across a boundary that leaves the machine and comes back.
    pub fn call_function(
        &mut self,
        program: &Program,
        name: &str,
        args: Vec<Dynamic>,
        level: usize,
        pos: Position,
    ) -> (out: VmResult)
        requires
            old(self).wf(),
        ensures
            ({
                let c = function_called(
                    *program,
                    old(self)@,
                    Names::empty(),
                    name@,
                    None,
                    all_views(args@),
                    level,
                    true,
                    pos,
                    None,
                );
                result_view(out) == c.result && final(self).reached(old(self)@, c.m)
            }),
            out is Ok && old(self)@.regs.last_generation < u64::MAX
                ==> final(self)@.regs.last_generation > old(self)@.regs.last_generation,
            out is Ok && old(self)@.regs.owns_trace ==> final(self)@.faults.len() == 0,
    {
        let mut scope = Scope::new();
        let (out, _) = self.call_function_with_this(
            program,
            name,
            None,
            args,
            level,
            &mut scope,
            true,
            pos,
            None,
        );
        out
    }

    /// Call one compiled function by its name's index.
    pub fn call_function_at(
        &mut self,
        program: &Program,
        index: u32,
        name: &str,
        args: Vec<Dynamic>,
        level: usize,
        pos: Position,
    ) -> (out: VmResult)
        requires
            old(self).wf(),
        ensures
            ({
                let c = function_called(
                    *program,
                    old(self)@,
                    Names::empty(),
                    name@,
                    Some(index),
                    all_views(args@),
                    level,
                    true,
                    pos,
                    None,
                );
                result_view(out) == c.result && final(self).reached(old(self)@, c.m)
            }),
            out is Ok && old(self)@.regs.last_generation < u64::MAX
                ==> final(self)@.regs.last_generation > old(self)@.regs.last_generation,
            out is Ok && old(self)@.regs.owns_trace ==> final(self)@.faults.len() == 0,
    {
        let mut detached = self.take_scope();
        let (out, _) = self.call_function_with_this(
            program,
            name,
            Some(index),
            args,
            level,
            &mut detached,
            true,
            pos,
            None,
        );
        self.give_scope(detached);
        out
    }

    fn call_inside(
        &mut self,
        program: &Program,
        scope: &mut Scope,
        name: &str,
        args: Vec<Dynamic>,
        eval_ast: bool,
        rewind: bool,
        this: Option<Dynamic>,
    ) -> (out: (Result<(), Error>, VmResult, Option<Dynamic>))
        requires
            old(self).wf(),
        ensures
            ({
                let (ready, c) = called_inside(
                    *program,
                    old(self)@,
                    old(scope)@,
                    name@,
                    all_views(args@),
                    eval_ast,
                    rewind,
                    opt_view(this),
                );
                &&& outcome(out.0) == ready
                &&& result_view(out.1) == c.result
                &&& opt_view(out.2) == c.this
                &&& final(self).reached(old(self)@, c.m)
                &&& final(scope)@ == c.scope
            }),
            out.0 is Ok && out.1 is Ok && old(self)@.regs.owns_trace ==> final(self)@.faults.len() == 0,
    {
        proof {
            reveal(called_inside);
        }
        let ready: Result<(), Error> = if eval_ast {
            match unwind_exit(self.run_main(program, scope)) {
                Ok(_) => Ok(()),
                Err(err) => Err(err),
            }
        } else {
            Ok(())
        };
        let (result, returned) = if ready.is_ok() {
            self.call_function_with_this(
                program,
                name,
                None,
                args,
                0,
                scope,
                rewind,
                Position::none(),
                this,
            )
        } else {
            (Ok(Dynamic::unit()), this)
        };
        let result = match self.at_end(scope) {
            Ok(_) => result,
            Err(err) => Err(err),
        };
        (ready, result, returned)
    }

    /// Call one compiled function by name, running the program's body first.
    pub fn call_fn(
        &mut self,
        scope: &mut Scope,
        program: &Program,
        name: &str,
        args: Vec<Dynamic>,
        wanted: Output,
    ) -> (out: VmResult)
        requires
            old(self).wf(),
        ensures
            ({
                let c = fn_called(
                    *program,
                    old(self)@,
                    old(scope)@,
                    name@,
                    all_views(args@),
                    true,
                    true,
                    None,
                    None,
                    wanted,
                );
                result_view(out) == c.result && final(self).reached(old(self)@, c.m)
                    && final(scope)@
                    == c.scope
            }),
            final(self)@.lib == old(self)@.lib,
            out is Ok && old(self)@.regs.owns_trace ==> final(self)@.faults.len() == 0,
            final(scope)@.len() <= old(scope)@.len(),
    {
        let mut this_ptr: Option<Dynamic> = None;
        self.call_fn_with_options(
            CallFnOptions::new(),
            &mut this_ptr,
            scope,
            program,
            name,
            args,
            wanted,
        )
    }

    /// The same, saying how: whether the program's body runs first, whether the
    /// scope is cut back afterwards, the evaluation's custom state and the
    /// callee's receiver. A write to the receiver lands in `this_ptr`, whether
    /// or not the call goes on to fail.
    pub fn call_fn_with_options(
        &mut self,
        options: CallFnOptions,
        this_ptr: &mut Option<Dynamic>,
        scope: &mut Scope,
        program: &Program,
        name: &str,
        args: Vec<Dynamic>,
        wanted: Output,
    ) -> (out: VmResult)
        requires
            old(self).wf(),
        ensures
            ({
                let c = fn_called(
                    *program,
                    old(self)@,
                    old(scope)@,
                    name@,
                    all_views(args@),
                    options.eval_ast,
                    options.rewind_scope,
                    opt_view(options.tag),
                    opt_view(*old(this_ptr)),
                    wanted,
                );
                result_view(out) == c.result && opt_view(*final(this_ptr)) == c.this
                    && final(self).reached(
                    old(self)@,
                    c.m,
                ) && final(scope)@ == c.scope
            }),
            final(self)@.lib == old(self)@.lib,
            out is Ok && old(self)@.regs.owns_trace ==> final(self)@.faults.len() == 0,
            options.rewind_scope ==> final(scope)@.len() <= old(scope)@.len(),
    {
        let orig_len: usize = scope.len();
        if let Some(tag) = options.tag {
            self.tag = tag;
        }
        let ghost before = self@;
        let mut held = this_ptr.take();
        let mut bound: Option<Dynamic> = None;
        let mut write_back = false;
        if let Some(receiver) = &mut held {
            let (value, back) = bind_this(&self.heap, receiver);
            bound = Some(value);
            write_back = back;
        }
        let saved = self.enter_environment(program, None);
        let (ready, result, returned) = self.call_inside(
            program,
            scope,
            name,
            args,
            options.eval_ast,
            options.rewind_scope,
            bound,
        );
        let ghost after = self@;
        self.leave_environment(saved);
        assert(self@ == out_of_environment(before, after));
        assert(self@.lib =~= before.lib);
        if let Some(receiver) = &mut held {
            unbind_this(receiver, returned, write_back);
        }
        *this_ptr = held;
        if options.rewind_scope {
            scope.rewind(orig_len);
        }
        ready?;
        let value = self.heap.flatten(result?);
        if suits_output(wanted, &value) {
            Ok(value)
        } else {
            let actual = type_text(&value);
            Err(
                raised(
                    FailureKind::ErrorMismatchOutputType(
                        self.engine.map_type_name(output_name(wanted)),
                        self.engine.map_type_name(actual.as_str()),
                    ),
                    Position::none(),
                ),
            )
        }
    }
}

} // verus!
