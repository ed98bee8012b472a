//! Reaching a compiled function from inside a host function.
//!
//! A host function that is handed a pointer leaves the run in the middle of a
//! call and comes back in through a second machine: a crossing. Everything a
//! machine accumulates would start empty at every crossing, so the crossings of
//! one run share a pool of the parts a finished one can lend to the next.
use vstd::prelude::*;

use crate::debug::{call_views, PendingStep, StackFrame, Status};
use crate::engine::Engine;
use crate::error::{result_view, Error, VmResult};
use crate::heap::Heap;
use crate::host::{answer_views, request_view, Answer, HostRequest};
use crate::machine::{handler_views, text_view, Fault, Handler, Iteration, Machine, Registers, Vm};
use crate::memo::{
    empty_operator_memo, memos_stamped, CallMemo, OperatorMemo, CALL_MEMO_SLOTS,
    OPERATOR_MEMO_SLOTS,
};
use crate::position::Position;
use crate::program::{Function, Program};
use crate::scope::{Names, Scope};
use crate::stack::Stack;
use crate::value::{all_views, clone_value, copied, unit, Datum, Dynamic};
use crate::vm::{fresh_registers, function_called};

verus! {

/// The most parameters a wrapper is registered for.
pub const MAX_PARAMS: usize = 16;

/// What a resolution cache was filled against: an engine, the function
/// libraries and the imported modules.
#[derive(Debug)]
#[verifier::ext_equal]
pub struct Searched<L> {
    pub engine: Option<u64>,
    pub lib: L,
    pub imports: L,
}

pub type SearchedView = Searched<Seq<u64>>;

fn same_ids(a: &Vec<u64>, b: &Vec<u64>) -> (r: bool)
    ensures
        r == (a@ == b@),
{
    if a.len() != b.len() {
        return false;
    }
    let mut i: usize = 0;
    while i < a.len()
        invariant
            i <= a@.len(),
            a@.len() == b@.len(),
            forall|j: int| 0 <= j < i ==> a@[j] == b@[j],
        decreases a@.len() - i,
    {
        if a[i] != b[i] {
            assert(a@[i as int] != b@[i as int]);
            return false;
        }
        i = i + 1;
    }
    assert(a@ =~= b@);
    true
}

impl Searched<Vec<u64>> {
    pub open spec fn view(self) -> SearchedView {
        Searched { engine: self.engine, lib: self.lib@, imports: self.imports@ }
    }

    /// Whether a crossing about to run against this state searches the same.
    pub fn matches(&self, engine: &Engine, lib: &Vec<u64>, imports: &Vec<u64>) -> (r: bool)
        ensures
            r == (self@ == Searched { engine: Some(engine.id), lib: lib@, imports: imports@ }),
    {
        match self.engine {
            None => false,
            Some(id) => id == engine.id && same_ids(&self.lib, lib) && same_ids(
                &self.imports,
                imports,
            ),
        }
    }
}

/// The model of the parts one crossing may hand to the next: what it has
/// resolved, and the number of its last frame.
#[verifier::ext_equal]
pub struct WarmView {
    pub caches: usize,
    pub searched: SearchedView,
    pub room: nat,
    pub operator_memo: Seq<OperatorMemo>,
    pub call_memo: Seq<Option<CallMemo>>,
    pub last_generation: u64,
}

/// The parts of a machine that one crossing may hand to the next.
///
/// The memo tables and the count of frames that stamps them travel together, so
/// no frame of a later crossing has the number of an earlier one's entries.
#[derive(Debug)]
pub struct Warm {
    pub(crate) caches: usize,
    pub(crate) searched: Searched<Vec<u64>>,
    pub(crate) stack: Stack,
    pub(crate) scopes: Vec<Scope>,
    pub(crate) iterators: Vec<Iteration>,
    pub(crate) handlers: Vec<Handler<Error>>,
    pub(crate) sizes: Vec<(usize, usize, usize)>,
    pub(crate) pending_steps: Vec<PendingStep>,
    pub(crate) operator_memo: Vec<OperatorMemo>,
    pub(crate) call_memo: Vec<Option<CallMemo>>,
    pub(crate) last_generation: u64,
}

/// Nothing carried.
pub open spec fn cold() -> WarmView {
    WarmView {
        caches: 0,
        searched: Searched { engine: None, lib: Seq::empty(), imports: Seq::empty() },
        room: 0,
        operator_memo: Seq::new(OPERATOR_MEMO_SLOTS as nat, |i: int| OperatorMemo::unused()),
        call_memo: Seq::empty(),
        last_generation: 0,
    }
}

impl Warm {
    pub open(crate) spec fn view(self) -> WarmView {
        WarmView {
            caches: self.caches,
            searched: self.searched@,
            room: self.stack.room(),
            operator_memo: self.operator_memo@,
            call_memo: self.call_memo@,
            last_generation: self.last_generation,
        }
    }

    /// No value of the crossing that finished is left in it.
    pub open(crate) spec fn wf(self) -> bool {
        &&& self.stack.wf()
        &&& self.stack@.len() == 0
        &&& self.iterators@.len() == 0
        &&& self.handlers@.len() == 0
        &&& self.sizes@.len() == 0
        &&& self.pending_steps@.len() == 0
        &&& self.operator_memo@.len() == OPERATOR_MEMO_SLOTS
        &&& self.call_memo@.len() == 0 || self.call_memo@.len() == CALL_MEMO_SLOTS
        &&& memos_stamped(self.operator_memo@, self.call_memo@, self.last_generation)
        &&& forall|i: int|
            0 <= i < self.scopes@.len() ==> (#[trigger] self.scopes@[i])@ == Names::empty()
    }

    /// Nothing carried, which is what a crossing that inherits nothing gets.
    pub fn new() -> (warm: Warm)
        ensures
            warm.wf(),
            warm@ == cold(),
    {
        proof {
            reveal(memos_stamped);
        }
        let warm = Warm {
            caches: 0,
            searched: Searched { engine: None, lib: Vec::new(), imports: Vec::new() },
            stack: Stack::new(),
            scopes: Vec::new(),
            iterators: Vec::new(),
            handlers: Vec::new(),
            sizes: Vec::new(),
            pending_steps: Vec::new(),
            operator_memo: empty_operator_memo(),
            call_memo: Vec::new(),
            last_generation: 0,
        };
        assert(warm@ =~= cold());
        warm
    }

    /// How many layers the resolution cache has.
    pub fn caches(&self) -> (n: usize)
        ensures
            n == self@.caches,
    {
        self.caches
    }

    /// No slot, loop, region, size, step or scope of the crossing that finished
    /// still holds anything.
    pub open(crate) spec fn vacant(self) -> bool {
        &&& self.stack.vacant()
        &&& self.iterators@.len() == 0
        &&& self.handlers@.len() == 0
        &&& self.sizes@.len() == 0
        &&& self.pending_steps@.len() == 0
        &&& forall|i: int|
            0 <= i < self.scopes@.len() ==> (#[trigger] self.scopes@[i])@ == Names::empty()
    }

    /// Whether nothing a crossing held is still in it. Nothing is, in what a
    /// crossing hands on.
    pub fn holds_nothing(&self) -> (r: bool)
        ensures
            r == self.vacant(),
            self.wf() ==> r,
    {
        self.stack.holds_nothing() && self.iterators.len() == 0 && self.handlers.len() == 0
            && self.sizes.len() == 0 && self.pending_steps.len() == 0 && self.scopes_are_empty()
    }

    fn scopes_are_empty(&self) -> (r: bool)
        ensures
            r == (forall|i: int|
                0 <= i < self.scopes@.len() ==> (#[trigger] self.scopes@[i])@ == Names::empty()),
    {
        let mut i: usize = 0;
        while i < self.scopes.len()
            invariant
                i <= self.scopes@.len(),
                forall|j: int| 0 <= j < i ==> (#[trigger] self.scopes@[j])@ == Names::empty(),
            decreases self.scopes@.len() - i,
        {
            if !self.scopes[i].is_empty() {
                assert(self.scopes@[i as int]@ != Names::empty());
                return false;
            }
            assert(self.scopes@[i as int]@ =~= Names::empty());
            i = i + 1;
        }
        true
    }

    /// Make this fit to be lent to a crossing arriving with this state: a cache
    /// filled against anything else is thrown away.
    fn fit(&mut self, engine: &Engine, lib: &Vec<u64>, imports: &Vec<u64>)
        requires
            old(self).wf(),
        ensures
            final(self).wf(),
            final(self)@ == (WarmView {
                caches: lent_caches(
                    old(self)@,
                    Searched { engine: Some(engine.id), lib: lib@, imports: imports@ },
                ),
                ..old(self)@
            }),
    {
        if !self.searched.matches(engine, lib, imports) {
            self.caches = 0;
        }
    }
}

/// The layers of a cache a crossing that searches `wanted` is lent.
pub open spec fn lent_caches(warm: WarmView, wanted: SearchedView) -> usize {
    if warm.searched == wanted {
        warm.caches
    } else {
        0
    }
}

/// What a host function that calls back hands over: the state of the run it was
/// called from.
#[derive(Debug)]
pub struct Context<'e> {
    pub engine: &'e Engine,
    pub source: Option<String>,
    pub lib: Vec<u64>,
    pub imports: Vec<u64>,
    pub resolver: Option<u64>,
    /// What the imported modules say about ranges.
    pub ranges: Vec<Option<bool>>,
    /// The calls in progress, as a debugger lists them.
    pub call_stack: Vec<StackFrame>,
    /// What a debugger waits for.
    pub status: Status,
    pub tag: Dynamic,
    pub faults: Vec<Fault>,
    pub heap: Heap,
    /// The host's answers, the next one last.
    pub answers: Vec<Answer>,
    pub level: usize,
    pub operations: u64,
    pub always_search_scope: bool,
    /// Whether the run pools what its crossings finish with.
    pub pooled: bool,
    /// Where the run made the call.
    pub pos: Position,
}

impl<'e> Context<'e> {
    /// The context of a run that has done nothing yet.
    pub fn new(engine: &'e Engine, pos: Position) -> (context: Context<'e>)
        ensures
            context.engine == engine,
            context.pos == pos,
            context.source is None && context.resolver is None,
            context.lib@.len() == 0 && context.imports@.len() == 0,
            context.ranges@.len() == 0 && context.call_stack@.len() == 0,
            context.status == Status::Init,
            context.tag@ == unit(),
            context.faults@.len() == 0 && context.heap@.len() == 0 && context.answers@.len() == 0,
            context.level == 0 && context.operations == 0,
            !context.always_search_scope && !context.pooled,
    {
        Context {
            engine,
            source: None,
            lib: Vec::new(),
            imports: Vec::new(),
            resolver: None,
            ranges: Vec::new(),
            call_stack: Vec::new(),
            status: Status::Init,
            tag: Dynamic::unit(),
            faults: Vec::new(),
            heap: Heap::new(),
            answers: Vec::new(),
            level: 0,
            operations: 0,
            always_search_scope: false,
            pooled: false,
            pos,
        }
    }

    /// What a crossing out of this run searches.
    pub open spec fn searched(self) -> SearchedView {
        Searched { engine: Some(self.engine.id), lib: self.lib@, imports: self.imports@ }
    }

    /// A crossing out of this run as it begins, with what it is lent: it has no
    /// receiver and no operands, and the trace is not its to clear.
    pub open spec fn entered(self, warm: WarmView) -> Machine {
        Machine {
            engine: *self.engine,
            stack: Seq::empty(),
            room: warm.room,
            this: None,
            iterators: Seq::empty(),
            handlers: Seq::empty(),
            sizes: Seq::empty(),
            faults: self.faults@,
            heap: self.heap@,
            answers: answer_views(self.answers@),
            request: None,
            operator_memo: warm.operator_memo,
            call_memo: warm.call_memo,
            source: text_view(self.source),
            lib: self.lib@,
            imports: self.imports@,
            resolver: self.resolver,
            ranges: self.ranges@,
            pending_steps: Seq::empty(),
            call_stack: call_views(self.call_stack@),
            tag: self.tag@,
            callbacks: None,
            regs: Registers {
                owns_trace: false,
                last_generation: warm.last_generation,
                level: self.level,
                operations: self.operations,
                always_search_scope: self.always_search_scope,
                caches: lent_caches(warm, self.searched()),
                pooled: self.pooled,
                status: self.status,
                ..fresh_registers()
            },
        }
    }
}

/// What a finished crossing lends: the bottom layer of its cache, and its memo
/// tables with the count of frames they are stamped from.
pub open spec fn cooled(m: Machine) -> WarmView {
    WarmView {
        caches: if m.regs.caches > 1 {
            1
        } else {
            m.regs.caches
        },
        searched: Searched { engine: Some(m.engine.id), lib: m.lib, imports: m.imports },
        room: m.room,
        operator_memo: m.operator_memo,
        call_memo: m.call_memo,
        last_generation: m.regs.last_generation,
    }
}

impl<'e> Vm<'e> {
    /// A machine for a call arriving from inside a host function.
    pub fn reentrant(context: Context<'e>) -> (vm: Vm<'e>)
        requires
            context.engine.wf(),
        ensures
            vm.wf(),
            vm@ == context.entered(cold()),
    {
        Vm::reentrant_from(context, Warm::new())
    }

    /// The same, with the parts an earlier crossing finished with.
    pub fn reentrant_from(context: Context<'e>, warm: Warm) -> (vm: Vm<'e>)
        requires
            context.engine.wf(),
            warm.wf(),
        ensures
            vm.wf(),
            vm@ == context.entered(warm@),
    {
        let ghost lent = warm@;
        let mut warm = warm;
        warm.fit(context.engine, &context.lib, &context.imports);
        let vm = Vm {
            engine: context.engine,
            stack: warm.stack,
            this: None,
            iterators: warm.iterators,
            handlers: warm.handlers,
            sizes: warm.sizes,
            faults: context.faults,
            heap: context.heap,
            answers: context.answers,
            request: None,
            operator_memo: warm.operator_memo,
            call_memo: warm.call_memo,
            source: context.source,
            lib: context.lib,
            imports: context.imports,
            resolver: context.resolver,
            ranges: context.ranges,
            pending_steps: warm.pending_steps,
            call_stack: context.call_stack,
            tag: context.tag,
            callbacks: None,
            scopes: warm.scopes,
            regs: Registers {
                unwind_floor: 0,
                chain_step: 0,
                pending_slot: None,
                owns_trace: false,
                generation: 0,
                last_generation: warm.last_generation,
                level: context.level,
                operations: context.operations,
                always_search_scope: context.always_search_scope,
                caches: warm.caches,
                pooled: context.pooled,
                status: context.status,
            },
        };
        assert(handler_views(vm.handlers@) =~= Seq::empty());
        assert(vm@ =~= context.entered(lent));
        vm
    }

    /// The parts of a finished crossing, for the next one to start from.
    pub fn cool(self) -> (warm: Warm)
        requires
            self.wf(),
        ensures
            warm.wf(),
            warm@ == cooled(self@),
    {
        let mut vm = self;
        vm.truncate_stack(0);
        let caches: usize = if vm.regs.caches > 1 {
            1
        } else {
            vm.regs.caches
        };
        vm.iterators.clear();
        vm.handlers.clear();
        vm.sizes.clear();
        vm.pending_steps.clear();
        Warm {
            caches,
            searched: Searched { engine: Some(vm.engine.id), lib: vm.lib, imports: vm.imports },
            stack: vm.stack,
            scopes: vm.scopes,
            iterators: vm.iterators,
            handlers: vm.handlers,
            sizes: vm.sizes,
            pending_steps: vm.pending_steps,
            operator_memo: vm.operator_memo,
            call_memo: vm.call_memo,
            last_generation: vm.regs.last_generation,
        }
    }

    /// The number of the last frame that ran.
    pub fn last_generation(&self) -> (n: u64)
        ensures
            n == self@.regs.last_generation,
    {
        self.regs.last_generation
    }

    /// How many layers the resolution cache has.
    pub fn caches(&self) -> (n: usize)
        ensures
            n == self@.regs.caches,
    {
        self.regs.caches
    }
}

/// The parts finished crossings of one run left behind, for its next crossing.
///
/// A crossing can be live while another begins, so what is lent is taken out:
/// nothing is ever lent twice.
#[derive(Debug)]
pub struct Crossings {
    pub(crate) warm: Vec<Warm>,
}

/// What a run lends its next crossing, and the pool without it.
pub open spec fn lent(pool: Seq<WarmView>, pooled: bool) -> (WarmView, Seq<WarmView>) {
    if pooled && pool.len() > 0 {
        (pool.last(), pool.drop_last())
    } else {
        (cold(), pool)
    }
}

/// The pool once a crossing gave back what it finished with.
pub open spec fn given_back(pool: Seq<WarmView>, pooled: bool, warm: WarmView) -> Seq<WarmView> {
    if pooled {
        pool.push(warm)
    } else {
        pool
    }
}

impl Crossings {
    pub open(crate) spec fn view(self) -> Seq<WarmView> {
        Seq::new(self.warm@.len(), |i: int| self.warm@[i]@)
    }

    pub open(crate) spec fn wf(self) -> bool {
        forall|i: int| 0 <= i < self.warm@.len() ==> (#[trigger] self.warm@[i]).wf()
    }

    /// A pool with nothing in it.
    pub fn new() -> (pool: Crossings)
        ensures
            pool.wf(),
            pool@ == Seq::<WarmView>::empty(),
    {
        let pool = Crossings { warm: Vec::new() };
        assert(pool@ =~= Seq::<WarmView>::empty());
        pool
    }

    /// Whatever an earlier crossing left, or nothing carried at all.
    pub fn take(&mut self, pooled: bool) -> (warm: Warm)
        requires
            old(self).wf(),
        ensures
            final(self).wf(),
            warm.wf(),
            (warm@, final(self)@) == lent(old(self)@, pooled),
    {
        let ghost before = self@;
        let ghost held = self.warm@;
        if pooled {
            if let Some(warm) = self.warm.pop() {
                assert(warm == held[held.len() - 1]);
                assert(self@ =~= before.drop_last());
                return warm;
            }
        }
        Warm::new()
    }

    /// Put a finished crossing's parts back for the next one.
    pub fn give(&mut self, pooled: bool, warm: Warm)
        requires
            old(self).wf(),
            warm.wf(),
        ensures
            final(self).wf(),
            final(self)@ == given_back(old(self)@, pooled, warm@),
    {
        let ghost before = self@;
        if pooled {
            self.warm.push(warm);
            assert(self@ =~= before.push(warm@));
        }
    }
}

/// A function the host can find by name: its index, its name and how many
/// arguments it takes.
#[derive(Debug)]
#[verifier::ext_equal]
pub struct Wrapper<S> {
    pub index: u32,
    pub name: S,
    pub arity: usize,
}

pub open spec fn wrapper_views(list: Seq<Wrapper<String>>) -> Seq<Wrapper<Seq<char>>> {
    Seq::new(
        list.len(),
        |i: int| Wrapper { index: list[i].index, name: list[i].name@, arity: list[i].arity },
    )
}

/// Whether the host can find a function by name: a body that wants a receiver
/// cannot be reached that way, nor one with more parameters than are searched
/// for.
pub open spec fn wrapped(p: Program, f: Function) -> bool {
    f.param_names@.len() <= MAX_PARAMS && !f.takes_this && p.name_of(f.name as int) is Some
}

/// The wrapper of a function.
pub open spec fn wrapper_of(p: Program, f: Function) -> Wrapper<Seq<char>> {
    Wrapper {
        index: f.name,
        name: p.name_of(f.name as int)->0,
        arity: f.param_names@.len() as usize,
    }
}

/// The wrappers of a program's functions, in their order.
pub open spec fn wrappers_of(p: Program, fs: Seq<Function>) -> Seq<Wrapper<Seq<char>>>
    decreases fs.len(),
{
    if fs.len() == 0 {
        Seq::empty()
    } else {
        let before = wrappers_of(p, fs.drop_last());
        if wrapped(p, fs.last()) {
            before.push(wrapper_of(p, fs.last()))
        } else {
            before
        }
    }
}

/// A wrapper per function the host can find, for the length of a run.
pub fn wrappers(program: &Program) -> (list: Vec<Wrapper<String>>)
    ensures
        wrapper_views(list@) == wrappers_of(*program, program.functions@),
{
    let mut list: Vec<Wrapper<String>> = Vec::new();
    let mut i: usize = 0;
    assert(wrapper_views(list@) =~= wrappers_of(*program, program.functions@.subrange(0, 0)));
    while i < program.functions.len()
        invariant
            i <= program.functions@.len(),
            wrapper_views(list@) == wrappers_of(*program, program.functions@.subrange(0, i as int)),
        decreases program.functions@.len() - i,
    {
        let f = &program.functions[i];
        let ghost before = list@;
        let ghost upto = program.functions@.subrange(0, i + 1);
        assert(upto.drop_last() =~= program.functions@.subrange(0, i as int));
        assert(upto.last() == *f);
        let arity: usize = f.param_names.len();
        if arity <= MAX_PARAMS && !f.takes_this {
            if let Some(name) = program.name(f.name) {
                list.push(Wrapper { index: f.name, name: name.to_owned(), arity });
                assert(wrapper_views(list@) =~= wrapper_views(before).push(
                    wrapper_of(*program, *f),
                ));
            }
        }
        i = i + 1;
    }
    assert(program.functions@.subrange(0, program.functions@.len() as int)
        =~= program.functions@);
    list
}

/// What a crossing leaves with the run it came out of.
#[derive(Debug)]
pub struct Crossed {
    pub result: VmResult,
    pub faults: Vec<Fault>,
    pub heap: Heap,
    pub answers: Vec<Answer>,
    pub request: Option<HostRequest>,
}

/// The call a crossing makes.
pub open spec fn crossing(
    p: Program,
    index: u32,
    name: Seq<char>,
    context: Context<'_>,
    values: Seq<Datum>,
    warm: WarmView,
) -> crate::call::Called {
    function_called(
        p,
        Machine { callbacks: Some(p.id), ..context.entered(warm) },
        Names::empty(),
        name,
        Some(index),
        values,
        context.level,
        true,
        context.pos,
        None,
    )
}

impl Crossed {
    /// Whether this is what a crossing left behind.
    pub open spec fn left_by(self, c: crate::call::Called) -> bool {
        &&& result_view(self.result) == c.result
        &&& self.faults@ == c.m.faults
        &&& self.heap@ == c.m.heap
        &&& answer_views(self.answers@) == c.m.answers
        &&& (match self.request {
            Some(r) => Some(request_view(r)),
            None => None,
        }) == c.m.request
    }
}

/// Run one function for a host function that called back.
///
/// What the crossing finished with goes back to the pool however the call
/// ended.
pub fn invoke(
    program: &Program,
    index: u32,
    name: &str,
    context: Context<'_>,
    values: Vec<Dynamic>,
    pool: &mut Crossings,
) -> (crossed: Crossed)
    requires
        context.engine.wf(),
        old(pool).wf(),
    ensures
        final(pool).wf(),
        ({
            let (warm, rest) = lent(old(pool)@, context.pooled);
            let c = crossing(*program, index, name@, context, all_views(values@), warm);
            &&& crossed.left_by(c)
            &&& final(pool)@ == given_back(rest, context.pooled, cooled(c.m))
            &&& c.m.regs.last_generation >= warm.last_generation
            &&& crossed.result is Ok && warm.last_generation < u64::MAX
                ==> c.m.regs.last_generation > warm.last_generation
        }),
{
    let pooled = context.pooled;
    let level: usize = context.level;
    let pos = context.pos;
    let mut vm = Vm::reentrant_from(context, pool.take(pooled));
    vm.callbacks = Some(program.id);
    let result = vm.call_function_at(program, index, name, values, level, pos);
    let mut faults: Vec<Fault> = Vec::new();
    core::mem::swap(&mut vm.faults, &mut faults);
    let mut heap = Heap::new();
    core::mem::swap(&mut vm.heap, &mut heap);
    let mut answers: Vec<Answer> = Vec::new();
    core::mem::swap(&mut vm.answers, &mut answers);
    let request = vm.request.take();
    pool.give(pooled, vm.cool());
    Crossed { result, faults, heap, answers, request }
}

/// The values a body-carrying pointer hands over: the first is copied, because
/// it may be the host's own, and the rest are taken.
pub open spec fn handed_over(args: Seq<Datum>) -> Seq<Datum> {
    if args.len() == 0 {
        args
    } else {
        args.update(0, copied(args[0]))
    }
}

/// The arguments a body-carrying pointer leaves its caller with.
pub open spec fn kept_back(args: Seq<Datum>) -> Seq<Datum> {
    Seq::new(
        args.len(),
        |i: int|
            if i == 0 {
                args[0]
            } else {
                unit()
            },
    )
}

fn hand_over(args: &mut Vec<Dynamic>) -> (values: Vec<Dynamic>)
    ensures
        all_views(values@) == handed_over(all_views(old(args)@)),
        all_views(final(args)@) == kept_back(all_views(old(args)@)),
{
    let ghost before = all_views(args@);
    let mut values: Vec<Dynamic> = Vec::new();
    let len: usize = args.len();
    let mut i: usize = 0;
    while i < len
        invariant
            i <= len,
            args@.len() == len,
            before.len() == len,
            values@.len() == i,
            forall|j: int| 0 <= j < i ==> (#[trigger] values@[j])@ == handed_over(before)[j],
            forall|j: int| 0 <= j < i ==> (#[trigger] args@[j])@ == kept_back(before)[j],
            forall|j: int| i <= j < len ==> (#[trigger] args@[j])@ == before[j],
        decreases len - i,
    {
        if i == 0 {
            values.push(clone_value(&args[0]));
        } else {
            let mut taken = Dynamic::unit();
            args.set_and_swap(i, &mut taken);
            values.push(taken);
        }
        i = i + 1;
    }
    assert(all_views(values@) =~= handed_over(before));
    assert(all_views(args@) =~= kept_back(before));
    values
}

/// Call a pointer that carries its body.
pub fn call_pointer(
    program: &Program,
    index: u32,
    name: &str,
    context: Context<'_>,
    args: &mut Vec<Dynamic>,
    pool: &mut Crossings,
) -> (crossed: Crossed)
    requires
        context.engine.wf(),
        old(pool).wf(),
    ensures
        final(pool).wf(),
        all_views(final(args)@) == kept_back(all_views(old(args)@)),
        ({
            let (warm, rest) = lent(old(pool)@, context.pooled);
            let c = crossing(
                *program,
                index,
                name@,
                context,
                handed_over(all_views(old(args)@)),
                warm,
            );
            &&& crossed.left_by(c)
            &&& final(pool)@ == given_back(rest, context.pooled, cooled(c.m))
        }),
{
    let values = hand_over(args);
    invoke(program, index, name, context, values, pool)
}

} // verus!
