//! The merge point: where the dispatch loop tells a tracing driver that one
//! iteration has begun.
//!
//! The driver is the host's. What is decided between its answers is here: the
//! host asks what to do, does it, says what came of it, and asks again.
use vstd::prelude::*;

use crate::bytecode::{width, width_of};
use crate::counters::{bumped, walk_noted, Count, Counters, Step};
use crate::error::VmResult;
use crate::jit_state::{address_to_word, word_to_address, Kind};
use crate::machine::{Items, Iteration, Vm};
use crate::program::Program;
use crate::tag;

verus! {

/// How often one merge point enters compiled code again before it gives up.
pub const MAX_HOPS: u32 = 1000000;

/// How many instructions are looked at for the next loop header.
pub const MAX_SEARCH: u32 = 64;

/// How often a loop runs before it is traced.
pub const THRESHOLD: u32 = 1039;

/// The live state belonging to one interpreted call frame, apart from its
/// scope.
#[derive(Debug)]
pub struct GrainFrame {
    pub base: usize,
    pub reached: usize,
    pub stack_base: usize,
    /// Where the dispatch loop goes on, plus one, or zero.
    pub jit_resume_pc_plus_one: usize,
    /// What compiled code returned, where it finished the frame.
    pub jit_finished: Option<VmResult>,
    pub jit_return_kind: i64,
}

/// Where a frame, its machine and its scope are.
#[derive(Clone, Copy, Debug, PartialEq, Eq, Structural)]
pub struct Addresses {
    pub frame: usize,
    pub vm: usize,
    pub scope: usize,
}

/// Whether the values compiled code left with are of this very frame.
pub open spec fn image_of(values: Seq<i64>, here: Addresses) -> bool {
    &&& values.len() >= 6
    &&& values[0] as usize == here.frame
    &&& values[1] as usize == here.vm
    &&& values[2] as usize == here.scope
}

impl GrainFrame {
    /// A frame whose locals start at `base` and whose operands start at
    /// `stack_base`.
    pub fn new(base: usize, reached: usize, stack_base: usize) -> (frame: GrainFrame)
        ensures
            frame == (GrainFrame {
                base,
                reached,
                stack_base,
                jit_resume_pc_plus_one: 0,
                jit_finished: None,
                jit_return_kind: 0,
            }),
    {
        GrainFrame {
            base,
            reached,
            stack_base,
            jit_resume_pc_plus_one: 0,
            jit_finished: None,
            jit_return_kind: 0,
        }
    }

    /// Apply the values compiled code left with. An image of another frame is
    /// ignored.
    pub fn restore_from_jit(&mut self, values: &Vec<i64>, here: Addresses)
        ensures
            *final(self) == (if image_of(values@, here) {
                GrainFrame {
                    base: values@[3] as usize,
                    reached: values@[4] as usize,
                    stack_base: values@[5] as usize,
                    ..*old(self)
                }
            } else {
                *old(self)
            }),
    {
        if values.len() < 6 {
            return;
        }
        if word_to_address(values[0]) != here.frame || word_to_address(values[1]) != here.vm
            || word_to_address(values[2]) != here.scope {
            return;
        }
        self.base = word_to_address(values[3]);
        self.reached = word_to_address(values[4]);
        self.stack_base = word_to_address(values[5]);
    }

    /// The frame's own fields as words, the scope's address first.
    pub fn jit_vable_words(&self, scope: usize) -> (words: Vec<i64>)
        ensures
            words@ == seq![
                scope as i64,
                self.base as i64,
                self.reached as i64,
                self.stack_base as i64,
                self.jit_resume_pc_plus_one as i64,
            ],
    {
        let words = vec![
            address_to_word(scope),
            address_to_word(self.base),
            address_to_word(self.reached),
            address_to_word(self.stack_base),
            address_to_word(self.jit_resume_pc_plus_one),
        ];
        assert(words@ =~= seq![
            scope as i64,
            self.base as i64,
            self.reached as i64,
            self.stack_base as i64,
            self.jit_resume_pc_plus_one as i64,
        ]);
        words
    }
}

/// An image of another frame changes nothing, and applying an image leaves the
/// resume address alone.
pub proof fn other_images_are_ignored(values: Seq<i64>, here: Addresses, there: Addresses)
    requires
        image_of(values, there),
        here != there,
    ensures
        !image_of(values, here),
{
}

// ---------------------------------------------------------------------------
// Whether the driver is asked.

/// What comes of reaching a merge point.
#[derive(Clone, Copy, Debug, PartialEq, Eq, Structural)]
pub enum Door {
    /// Compiled code called this frame: nothing is asked.
    Nested,
    /// The address only went forward: nothing is asked.
    Forward,
    /// The driver is in use further out: nothing is asked.
    Busy,
    /// The driver is asked.
    Open,
}

/// What comes of reaching a merge point, and the step and the counts after.
pub open spec fn knocked(
    step: Step,
    counters: Counters,
    nest: u32,
    pc: usize,
    busy: bool,
) -> (Door, Step, Counters) {
    if nest != 0 {
        (Door::Nested, step, counters)
    } else if pc > step.prev_pc && !step.tracing {
        (
            Door::Forward,
            Step { prev_pc: pc, skipped: (step.skipped + 1) as usize, ..step },
            counters,
        )
    } else if busy {
        (Door::Busy, Step { prev_pc: pc, ..step }, bumped(counters, Count::Reentrant))
    } else {
        (Door::Open, Step { prev_pc: pc, ..step }, bumped(counters, Count::MergePoint))
    }
}

/// The driver the dispatch loop reports to.
#[derive(Clone, Copy, Debug)]
pub struct GrainJitDriver;

impl GrainJitDriver {
    /// A control transfer is about to enter a loop header. The marker itself
    /// does nothing.
    pub fn can_enter_jit(
        &self,
        pc: usize,
        program_identity: u64,
        program: &Program,
        frame: &mut GrainFrame,
        vm: &Vm<'_>,
    )
        ensures
            *final(frame) == *old(frame),
    {
    }

    /// One iteration of the dispatch loop is about to run.
    ///
    /// The driver counts loops, and only a jump can fail to move the address
    /// forward; so it is asked at back edges, and at every instruction while a
    /// trace is open.
    pub fn jit_merge_point(
        &self,
        step: &mut Step,
        counters: &mut Counters,
        nest: u32,
        pc: usize,
        busy: bool,
    ) -> (door: Door)
        requires
            old(counters).roomy(),
            old(step).skipped < usize::MAX,
        ensures
            (door, *final(step), *final(counters)) == knocked(
                *old(step),
                *old(counters),
                nest,
                pc,
                busy,
            ),
    {
        if nest != 0 {
            return Door::Nested;
        }
        let prev: usize = step.prev_pc;
        step.prev_pc = pc;
        if pc > prev && !step.tracing {
            step.skipped = step.skipped + 1;
            return Door::Forward;
        }
        if busy {
            counters.bump_stats(Count::Reentrant);
            return Door::Busy;
        }
        counters.bump_stats(Count::MergePoint);
        Door::Open
    }
}

/// Whether a driver is built: not without lowered code, and not on a thread
/// that does not own it.
pub fn runtime_allowed(lowered: usize, owner: bool, counters: &mut Counters) -> (r: bool)
    requires
        old(counters).roomy(),
    ensures
        r == (lowered > 0 && owner),
        *final(counters) == (if lowered > 0 && !owner {
            bumped(*old(counters), Count::NonOwner)
        } else {
            *old(counters)
        }),
{
    if lowered == 0 {
        return false;
    }
    if !owner {
        counters.bump_stats(Count::NonOwner);
        return false;
    }
    true
}

/// A call out of compiled code begins. Where the driver is in use, the merge
/// points inside the call are nested.
pub fn enter_residual(nest: u32, busy: bool, counters: &mut Counters) -> (out: u32)
    requires
        old(counters).roomy(),
    ensures
        out == (if !busy || nest == u32::MAX {
            nest
        } else {
            (nest + 1) as u32
        }),
        *final(counters) == (if busy {
            bumped(*old(counters), Count::Reentrant)
        } else {
            *old(counters)
        }),
{
    if !busy {
        return nest;
    }
    counters.bump_stats(Count::Reentrant);
    if nest == u32::MAX {
        nest
    } else {
        nest + 1
    }
}

/// A call out of compiled code that was nested ends.
pub fn leave_residual(nest: u32) -> (out: u32)
    ensures
        out == (if nest == 0 {
            0
        } else {
            (nest - 1) as u32
        }),
{
    if nest == 0 {
        0
    } else {
        nest - 1
    }
}

/// The values a loop is known by: where it is jumped to, then the declared
/// greens.
pub fn green_values(pc: usize, program_identity: u64, program: usize) -> (values: Vec<i64>)
    ensures
        values@ == seq![pc as i64, pc as i64, program_identity as i64, program as i64],
{
    let values = vec![
        address_to_word(pc),
        address_to_word(pc),
        identity_word(program_identity),
        address_to_word(program),
    ];
    assert(values@ =~= seq![pc as i64, pc as i64, program_identity as i64, program as i64]);
    values
}

#[verifier::truncate]
fn identity_word(identity: u64) -> (word: i64)
    ensures
        word == identity as i64,
{
    identity as i64
}

/// The types those values have: an integer, then those of the declared greens.
pub fn green_types(declared: &Vec<Kind>) -> (types: Vec<Kind>)
    ensures
        types@ == seq![Kind::Int] + declared@,
{
    let mut types: Vec<Kind> = Vec::new();
    types.push(Kind::Int);
    let mut i: usize = 0;
    assert(types@ =~= seq![Kind::Int] + declared@.subrange(0, 0));
    while i < declared.len()
        invariant
            i <= declared@.len(),
            types@ == seq![Kind::Int] + declared@.subrange(0, i as int),
        decreases declared@.len() - i,
    {
        types.push(declared[i]);
        i = i + 1;
        assert(types@ =~= seq![Kind::Int] + declared@.subrange(0, i as int));
    }
    assert(declared@.subrange(0, declared@.len() as int) =~= declared@);
    types
}

// ---------------------------------------------------------------------------
// One consultation.

/// One consultation of the driver, from its first question to its outcome.
#[derive(Clone, Copy, Debug, PartialEq, Eq, Structural)]
pub struct Visit {
    pub pc: usize,
    /// Whether a trace was open when the driver was asked.
    pub was_tracing: bool,
    /// Whether this consultation opened one.
    pub started: bool,
    /// Whether the first answer came.
    pub answered: bool,
    /// How often compiled code was entered again.
    pub hops: u32,
    /// Where the dispatch loop goes on, if the driver said.
    pub resume: Option<usize>,
}

/// What the driver says to a back edge.
#[derive(Clone, Copy, Debug, PartialEq, Eq, Structural)]
pub struct EdgeReply {
    /// Where to go on.
    pub resume: Option<usize>,
    /// Whether compiled code finished the frame.
    pub finished: bool,
    /// Whether a trace is open now.
    pub tracing: bool,
    /// Whether the loop has compiled code.
    pub compiled: bool,
}

/// What the host does next.
#[derive(Clone, Copy, Debug, PartialEq, Eq, Structural)]
pub enum Act {
    /// Publish the live values and ask the driver at a back edge to here.
    BackEdge { at: usize },
    /// Walk the lowered body, recording a trace.
    Walk,
    /// Take what the walk left.
    Settle,
}

/// Whether compiled code is entered again: it came back to the very address it
/// was entered at, and there is compiled code for it.
pub open spec fn hops_again(visit: Visit, reply: EdgeReply) -> bool {
    visit.hops < MAX_HOPS && reply.resume == Some(visit.pc) && visit.pc != usize::MAX
        && reply.compiled
}

/// A consultation after the driver's answer to a back edge, and what is done
/// next.
pub open spec fn edge_answered(visit: Visit, reply: EdgeReply) -> (Visit, Act) {
    let started = if visit.answered {
        visit.started
    } else {
        !visit.was_tracing && reply.tracing
    };
    let next = Visit {
        started,
        answered: true,
        resume: if reply.finished {
            None
        } else {
            reply.resume
        },
        ..visit
    };
    if !reply.finished && (visit.answered || (!started && !reply.tracing)) && hops_again(
        visit,
        reply,
    ) {
        (Visit { hops: (visit.hops + 1) as u32, ..next }, Act::BackEdge { at: visit.pc })
    } else if reply.tracing {
        (next, Act::Walk)
    } else {
        (next, Act::Settle)
    }
}

/// What a consultation is counted as once the driver has answered.
pub open spec fn counted_as(visit: Visit) -> Count {
    if visit.started {
        Count::Started
    } else if visit.was_tracing {
        Count::AlreadyTracing
    } else {
        Count::Interpret
    }
}

/// What a consultation comes to.
#[derive(Clone, Copy, Debug, PartialEq, Eq, Structural)]
pub struct Settled {
    /// Whether the driver writes its state back.
    pub write_back: bool,
    /// Where the dispatch loop goes on.
    pub resume: Option<usize>,
    /// Whether to report that a trace was started, and whether it is still
    /// open.
    pub report: Option<bool>,
}

/// What a consultation comes to: the address an aborted walk ran on to outranks
/// the one the walk stopped at, and a finished frame goes on nowhere.
pub open spec fn visit_settled(
    visit: Visit,
    outcome: Option<usize>,
    aborted: Option<usize>,
    finished: bool,
    tracing: bool,
) -> Settled {
    let outcome = if aborted is Some {
        aborted
    } else {
        outcome
    };
    Settled {
        write_back: finished || outcome is Some,
        resume: if finished {
            None
        } else if outcome is Some {
            outcome
        } else {
            visit.resume
        },
        report: if visit.started {
            Some(tracing)
        } else {
            None
        },
    }
}

impl Visit {
    /// Begin a consultation.
    pub fn begin(pc: usize, was_tracing: bool) -> (out: (Visit, Act))
        ensures
            out.0 == (Visit {
                pc,
                was_tracing,
                started: false,
                answered: false,
                hops: 0,
                resume: None,
            }),
            out.1 == (Act::BackEdge { at: pc }),
    {
        (
            Visit { pc, was_tracing, started: false, answered: false, hops: 0, resume: None },
            Act::BackEdge { at: pc },
        )
    }

    /// The driver answered a back edge. The consultation is counted when it is
    /// not asked again.
    pub fn answer(&mut self, reply: EdgeReply, counters: &mut Counters) -> (act: Act)
        requires
            old(counters).roomy(),
        ensures
            (*final(self), act) == edge_answered(*old(self), reply),
            *final(counters) == (if act is BackEdge {
                *old(counters)
            } else {
                bumped(*old(counters), counted_as(*final(self)))
            }),
    {
        let first = !self.answered;
        if first {
            self.started = !self.was_tracing && reply.tracing;
            self.answered = true;
        }
        self.resume = if reply.finished {
            None
        } else {
            reply.resume
        };
        if !reply.finished && (!first || (!self.started && !reply.tracing)) && self.hops
            < MAX_HOPS && reply.compiled {
            if let Some(next) = reply.resume {
                if next == self.pc && next != usize::MAX {
                    self.hops = self.hops + 1;
                    return Act::BackEdge { at: next };
                }
            }
        }
        if self.started {
            counters.bump_stats(Count::Started);
        } else if self.was_tracing {
            counters.bump_stats(Count::AlreadyTracing);
        } else {
            counters.bump_stats(Count::Interpret);
        }
        if reply.tracing {
            Act::Walk
        } else {
            Act::Settle
        }
    }

    /// The body was walked: it found `before` operations and left `after`.
    pub fn walked(&self, before: usize, after: usize, counters: &mut Counters) -> (act: Act)
        requires
            old(counters).ops_recorded + after <= usize::MAX,
        ensures
            act == Act::Settle,
            *final(counters) == walk_noted(*old(counters), before, after),
    {
        counters.note_walk(before, after);
        Act::Settle
    }

    /// The consultation is over: where the walk stopped, where an aborted one
    /// ran on to, whether it finished the frame and whether a trace is open.
    pub fn settle(
        &self,
        outcome: Option<usize>,
        aborted: Option<usize>,
        finished: bool,
        tracing: bool,
        step: &mut Step,
    ) -> (settled: Settled)
        ensures
            settled == visit_settled(*self, outcome, aborted, finished, tracing),
            *final(step) == (Step { tracing, ..*old(step) }),
    {
        let outcome = if aborted.is_some() {
            aborted
        } else {
            outcome
        };
        step.tracing = tracing;
        let resume = if finished {
            None
        } else if outcome.is_some() {
            outcome
        } else {
            self.resume
        };
        let report = if self.started {
            Some(tracing)
        } else {
            None
        };
        Settled { write_back: finished || outcome.is_some(), resume, report }
    }
}

/// Compiled code is entered again at most so often: every time it is, the count
/// is one higher, and it stays within its bound.
pub proof fn hops_are_bounded(visit: Visit, reply: EdgeReply)
    requires
        visit.hops <= MAX_HOPS,
    ensures
        edge_answered(visit, reply).0.hops <= MAX_HOPS,
        edge_answered(visit, reply).1 is BackEdge ==> edge_answered(visit, reply).0.hops
            == visit.hops + 1,
        visit.hops == MAX_HOPS ==> !(edge_answered(visit, reply).1 is BackEdge),
{
}

// ---------------------------------------------------------------------------
// Where the dispatch loop goes on.

/// Whether a tag is that of an instruction that takes the next item of a loop.
pub open spec fn takes_item(t: u8) -> bool {
    t == tag::ITER_NEXT || t == tag::ITER_NEXT_INDEXED || t == tag::ITER_NEXT_STORE
}

/// The address of the first instruction from `at` on, `fuel` of them looked at,
/// that takes the next item of a loop.
pub open spec fn iter_header(code: Seq<u8>, at: int, fuel: nat) -> Option<int>
    decreases fuel,
{
    if fuel == 0 || at >= code.len() {
        None
    } else if takes_item(code[at]) {
        Some(at)
    } else {
        match width(code[at]) {
            None => None,
            Some(n) => if at + n > code.len() {
                None
            } else {
                iter_header(code, at + n, (fuel - 1) as nat)
            },
        }
    }
}

/// The address of the next instruction from `from` on that takes the next item
/// of a loop.
pub fn next_iter_header(code: &Vec<u8>, from: usize) -> (out: Option<usize>)
    ensures
        match out {
            Some(at) => iter_header(code@, from as int, MAX_SEARCH as nat) == Some(at as int)
                && at < code@.len(),
            None => iter_header(code@, from as int, MAX_SEARCH as nat) is None,
        },
{
    let mut at: usize = from;
    let mut fuel: u32 = MAX_SEARCH;
    while fuel > 0
        invariant
            fuel <= MAX_SEARCH,
            iter_header(code@, from as int, MAX_SEARCH as nat) == iter_header(
                code@,
                at as int,
                fuel as nat,
            ),
        decreases fuel,
    {
        let len: usize = code.len();
        if at >= len {
            return None;
        }
        let t: u8 = code[at];
        if t == tag::ITER_NEXT || t == tag::ITER_NEXT_INDEXED || t == tag::ITER_NEXT_STORE {
            return Some(at);
        }
        match width_of(t) {
            None => {
                return None;
            },
            Some(n) => {
                if n > len - at {
                    return None;
                }
                at = at + n;
            },
        }
        fuel = fuel - 1;
    }
    None
}

/// Whether the innermost loop has run out of integers.
pub open spec fn exhausted(iterators: Seq<Iteration>) -> bool {
    iterators.len() > 0 && (iterators.last().items matches Items::IntRange { next, end } && next
        >= end)
}

impl Vm<'_> {
    /// Whether the innermost loop is over a range and has run out of it.
    pub fn range_exhausted(&self) -> (r: bool)
        ensures
            r == exhausted(self@.iterators),
    {
        let count: usize = self.iterators.len();
        if count == 0 {
            return false;
        }
        match self.iterators[count - 1].items {
            Items::IntRange { next, end } => next >= end,
            _ => false,
        }
    }
}

/// Where a frame goes on, plus one, once a consultation said where. One that
/// could name no address leaves a loop that ran out at its header, and
/// otherwise changes nothing.
pub open spec fn resumption(
    code: Seq<u8>,
    iterators: Seq<Iteration>,
    pc: usize,
    resume: Option<usize>,
    before: usize,
) -> usize {
    match resume {
        None => before,
        Some(at) => if at != usize::MAX {
            (at + 1) as usize
        } else if exhausted(iterators) {
            match iter_header(code, pc as int, MAX_SEARCH as nat) {
                Some(header) => (header + 1) as usize,
                None => before,
            }
        } else {
            before
        },
    }
}

/// Tell a frame where to go on.
pub fn resume_frame(
    frame: &mut GrainFrame,
    vm: &Vm<'_>,
    program: &Program,
    pc: usize,
    resume: Option<usize>,
)
    ensures
        *final(frame) == (GrainFrame {
            jit_resume_pc_plus_one: resumption(
                program.code@,
                vm@.iterators,
                pc,
                resume,
                old(frame).jit_resume_pc_plus_one,
            ),
            ..*old(frame)
        }),
{
    if let Some(at) = resume {
        if at == usize::MAX {
            if vm.range_exhausted() {
                if let Some(header) = next_iter_header(&program.code, pc) {
                    let len: usize = program.code.len();
                    assert(header < len);
                    frame.jit_resume_pc_plus_one = header + 1;
                }
            }
        } else {
            frame.jit_resume_pc_plus_one = at + 1;
        }
    }
}

/// What a bridge out of a failed guard still needs.
#[derive(Clone, Copy, Debug, PartialEq, Eq, Structural)]
pub struct BridgeSetup {
    /// Its replay of pending writes is marked incomplete.
    pub incomplete: bool,
    /// Only the frame's shape is bound, without values.
    pub shape_only: bool,
}

/// What a bridge still needs, once its pending writes were replayed and the
/// frame's values seeded, or not.
pub fn bridge_setup(replayed: bool, seeded: bool) -> (setup: BridgeSetup)
    ensures
        setup.incomplete == !replayed,
        setup.shape_only == !seeded,
{
    BridgeSetup { incomplete: !replayed, shape_only: !seeded }
}

} // verus!
