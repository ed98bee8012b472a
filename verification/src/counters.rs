//! What the tracing driver did since its counters were last reset.
use vstd::prelude::*;

use crate::text::{append_u64, decimal_nat};

verus! {

/// What the tracing driver did since [`reset_stats`].
#[derive(Debug, PartialEq, Eq)]
pub struct GrainJitStats {
    /// Dispatch-loop markers that reached the driver.
    pub merge_points_consulted: usize,
    /// Consultations that kept interpreting without starting a trace.
    pub entry_door_interpret: usize,
    /// Consultations declined because a trace was already active.
    pub entry_door_already_tracing: usize,
    /// Warm-loop decisions that opened a trace.
    pub traces_started: usize,
    /// Traces abandoned before compilation.
    pub traces_aborted: usize,
    /// Loop traces compiled.
    pub loops_compiled: usize,
    /// Operations appended by walks.
    pub ops_recorded: usize,
    /// The most operations one walk appended.
    pub max_trace_ops: usize,
    /// Entries into compiled code.
    pub compiled_entries: usize,
    /// Compiled artifacts that were refused.
    pub compiled_entries_refused: usize,
    /// Walks stopped before an unbound callee was invoked.
    pub symbolic_residual_aborts: usize,
    /// Steps answered without asking the driver.
    pub forward_steps_skipped: usize,
    /// Nested consultations skipped.
    pub reentrant_consultations_declined: usize,
    /// Consultations skipped because another thread owns the driver.
    pub non_owner_consultations_declined: usize,
    /// Why traces were aborted.
    pub abort_reasons: String,
}

/// The running counts.
#[derive(Clone, Copy, Debug, PartialEq, Eq, Structural)]
pub struct Counters {
    pub merge_points_consulted: usize,
    pub entry_door_interpret: usize,
    pub entry_door_already_tracing: usize,
    pub traces_started: usize,
    pub traces_aborted: usize,
    pub loops_compiled: usize,
    pub ops_recorded: usize,
    pub max_trace_ops: usize,
    pub compiled_entries: usize,
    pub compiled_entries_refused: usize,
    pub reentrant_consultations_declined: usize,
    pub non_owner_consultations_declined: usize,
    /// The driver's count of unbound callees when the counters were reset.
    pub symbolic_residual_aborts_before: u64,
}

/// What the cheap half of a merge point reads before the driver is asked.
#[derive(Clone, Copy, Debug, PartialEq, Eq, Structural)]
pub struct Step {
    /// The address the previous consultation carried.
    pub prev_pc: usize,
    /// Whether the driver was tracing when it was last asked.
    pub tracing: bool,
    /// Consultations answered without asking it.
    pub skipped: usize,
}

/// What is counted one by one.
#[derive(Clone, Copy, Debug, PartialEq, Eq, Structural)]
pub enum Count {
    MergePoint,
    Interpret,
    AlreadyTracing,
    Started,
    Aborted,
    LoopCompiled,
    Entered,
    Refused,
    Reentrant,
    NonOwner,
}

/// The counts with one of them one higher.
pub open spec fn bumped(c: Counters, what: Count) -> Counters {
    match what {
        Count::MergePoint => Counters {
            merge_points_consulted: (c.merge_points_consulted + 1) as usize,
            ..c
        },
        Count::Interpret => Counters {
            entry_door_interpret: (c.entry_door_interpret + 1) as usize,
            ..c
        },
        Count::AlreadyTracing => Counters {
            entry_door_already_tracing: (c.entry_door_already_tracing + 1) as usize,
            ..c
        },
        Count::Started => Counters { traces_started: (c.traces_started + 1) as usize, ..c },
        Count::Aborted => Counters { traces_aborted: (c.traces_aborted + 1) as usize, ..c },
        Count::LoopCompiled => Counters { loops_compiled: (c.loops_compiled + 1) as usize, ..c },
        Count::Entered => Counters { compiled_entries: (c.compiled_entries + 1) as usize, ..c },
        Count::Refused => Counters {
            compiled_entries_refused: (c.compiled_entries_refused + 1) as usize,
            ..c
        },
        Count::Reentrant => Counters {
            reentrant_consultations_declined: (c.reentrant_consultations_declined + 1) as usize,
            ..c
        },
        Count::NonOwner => Counters {
            non_owner_consultations_declined: (c.non_owner_consultations_declined + 1) as usize,
            ..c
        },
    }
}

/// The counts after a walk that found `before` operations and left `after`.
pub open spec fn walk_noted(c: Counters, before: usize, after: usize) -> Counters {
    let recorded = if after > before {
        (after - before) as usize
    } else {
        0
    };
    Counters {
        ops_recorded: (c.ops_recorded + recorded) as usize,
        max_trace_ops: if recorded > c.max_trace_ops {
            recorded
        } else {
            c.max_trace_ops
        },
        ..c
    }
}

impl Counters {
    /// Every count can still go up.
    pub open spec fn roomy(self) -> bool {
        &&& self.merge_points_consulted < usize::MAX
        &&& self.entry_door_interpret < usize::MAX
        &&& self.entry_door_already_tracing < usize::MAX
        &&& self.traces_started < usize::MAX
        &&& self.traces_aborted < usize::MAX
        &&& self.loops_compiled < usize::MAX
        &&& self.compiled_entries < usize::MAX
        &&& self.compiled_entries_refused < usize::MAX
        &&& self.reentrant_consultations_declined < usize::MAX
        &&& self.non_owner_consultations_declined < usize::MAX
    }

    /// Nothing counted, from a driver that has stopped `aborts` walks so far.
    pub open spec fn none(aborts: u64) -> Counters {
        Counters {
            merge_points_consulted: 0,
            entry_door_interpret: 0,
            entry_door_already_tracing: 0,
            traces_started: 0,
            traces_aborted: 0,
            loops_compiled: 0,
            ops_recorded: 0,
            max_trace_ops: 0,
            compiled_entries: 0,
            compiled_entries_refused: 0,
            reentrant_consultations_declined: 0,
            non_owner_consultations_declined: 0,
            symbolic_residual_aborts_before: aborts,
        }
    }

    /// Nothing counted yet.
    pub fn new(aborts: u64) -> (counters: Counters)
        ensures
            counters == Counters::none(aborts),
    {
        Counters {
            merge_points_consulted: 0,
            entry_door_interpret: 0,
            entry_door_already_tracing: 0,
            traces_started: 0,
            traces_aborted: 0,
            loops_compiled: 0,
            ops_recorded: 0,
            max_trace_ops: 0,
            compiled_entries: 0,
            compiled_entries_refused: 0,
            reentrant_consultations_declined: 0,
            non_owner_consultations_declined: 0,
            symbolic_residual_aborts_before: aborts,
        }
    }

    /// Count one more.
    pub fn bump_stats(&mut self, what: Count)
        requires
            old(self).roomy(),
        ensures
            *final(self) == bumped(*old(self), what),
    {
        match what {
            Count::MergePoint => self.merge_points_consulted = self.merge_points_consulted + 1,
            Count::Interpret => self.entry_door_interpret = self.entry_door_interpret + 1,
            Count::AlreadyTracing => self.entry_door_already_tracing =
            self.entry_door_already_tracing + 1,
            Count::Started => self.traces_started = self.traces_started + 1,
            Count::Aborted => self.traces_aborted = self.traces_aborted + 1,
            Count::LoopCompiled => self.loops_compiled = self.loops_compiled + 1,
            Count::Entered => self.compiled_entries = self.compiled_entries + 1,
            Count::Refused => self.compiled_entries_refused = self.compiled_entries_refused + 1,
            Count::Reentrant => self.reentrant_consultations_declined =
            self.reentrant_consultations_declined + 1,
            Count::NonOwner => self.non_owner_consultations_declined =
            self.non_owner_consultations_declined + 1,
        }
    }

    /// Count a compiled artifact that was refused.
    pub fn record_compiled_entry_refusal(&mut self)
        requires
            old(self).roomy(),
        ensures
            *final(self) == bumped(*old(self), Count::Refused),
    {
        self.bump_stats(Count::Refused);
    }

    /// Count the operations a walk appended.
    pub fn note_walk(&mut self, before: usize, after: usize)
        requires
            old(self).ops_recorded + after <= usize::MAX,
        ensures
            *final(self) == walk_noted(*old(self), before, after),
    {
        let recorded: usize = if after > before {
            after - before
        } else {
            0
        };
        self.ops_recorded = self.ops_recorded + recorded;
        if recorded > self.max_trace_ops {
            self.max_trace_ops = recorded;
        }
    }
}

impl Step {
    /// Before the first consultation.
    pub fn new() -> (step: Step)
        ensures
            step == (Step { prev_pc: usize::MAX, tracing: false, skipped: 0 }),
    {
        Step { prev_pc: usize::MAX, tracing: false, skipped: 0 }
    }
}

/// Start a fresh observation window, from a driver that has stopped `aborts`
/// walks so far. Whether it is tracing does not change.
pub fn reset_stats(counters: &mut Counters, step: &mut Step, aborts: u64)
    ensures
        *final(counters) == Counters::none(aborts),
        *final(step) == (Step { prev_pc: usize::MAX, skipped: 0, ..*old(step) }),
{
    step.skipped = 0;
    step.prev_pc = usize::MAX;
    *counters = Counters::new(aborts);
}

/// How many walks the driver stopped since the window began.
pub open spec fn aborts_since(c: Counters, aborts: u64) -> u64 {
    if aborts > c.symbolic_residual_aborts_before {
        (aborts - c.symbolic_residual_aborts_before) as u64
    } else {
        0
    }
}

/// The reasons traces were aborted, with the walks that were stopped last.
pub open spec fn reasons_with(rendered: Seq<char>, stopped: u64) -> Seq<char> {
    if stopped == 0 {
        rendered
    } else {
        (if rendered.len() > 0 {
            rendered + " "@
        } else {
            rendered
        }) + "unbound_symbolic_residual="@ + decimal_nat(stopped as nat)
    }
}

/// A snapshot of the counts. The host renders why its driver aborted since the
/// window began, and says how many walks it has stopped so far.
#[verifier::truncate]
pub fn stats(counters: &Counters, step: &Step, rendered: &str, aborts: u64) -> (stats:
    GrainJitStats)
    ensures
        stats.forward_steps_skipped == step.skipped,
        stats.merge_points_consulted == counters.merge_points_consulted,
        stats.entry_door_interpret == counters.entry_door_interpret,
        stats.entry_door_already_tracing == counters.entry_door_already_tracing,
        stats.traces_started == counters.traces_started,
        stats.traces_aborted == counters.traces_aborted,
        stats.loops_compiled == counters.loops_compiled,
        stats.ops_recorded == counters.ops_recorded,
        stats.max_trace_ops == counters.max_trace_ops,
        stats.compiled_entries == counters.compiled_entries,
        stats.compiled_entries_refused == counters.compiled_entries_refused,
        stats.symbolic_residual_aborts == aborts_since(*counters, aborts) as usize,
        stats.reentrant_consultations_declined == counters.reentrant_consultations_declined,
        stats.non_owner_consultations_declined == counters.non_owner_consultations_declined,
        stats.abort_reasons@ == reasons_with(rendered@, aborts_since(*counters, aborts)),
{
    let stopped: u64 = if aborts > counters.symbolic_residual_aborts_before {
        aborts - counters.symbolic_residual_aborts_before
    } else {
        0
    };
    let mut abort_reasons = rendered.to_owned();
    if stopped > 0 {
        if rendered.unicode_len() > 0 {
            abort_reasons.append(" ");
        }
        abort_reasons.append("unbound_symbolic_residual=");
        append_u64(&mut abort_reasons, stopped);
    }
    GrainJitStats {
        forward_steps_skipped: step.skipped,
        merge_points_consulted: counters.merge_points_consulted,
        entry_door_interpret: counters.entry_door_interpret,
        entry_door_already_tracing: counters.entry_door_already_tracing,
        traces_started: counters.traces_started,
        traces_aborted: counters.traces_aborted,
        loops_compiled: counters.loops_compiled,
        ops_recorded: counters.ops_recorded,
        max_trace_ops: counters.max_trace_ops,
        compiled_entries: counters.compiled_entries,
        compiled_entries_refused: counters.compiled_entries_refused,
        symbolic_residual_aborts: stopped as usize,
        reentrant_consultations_declined: counters.reentrant_consultations_declined,
        non_owner_consultations_declined: counters.non_owner_consultations_declined,
        abort_reasons,
    }
}

// ---------------------------------------------------------------------------
// The driver's own census.

/// Whether a character separates words.
pub open spec fn is_space(c: char) -> bool {
    ('\u{9}' <= c && c <= '\u{d}') || c == ' ' || c == '\u{85}' || c == '\u{a0}' || c == '\u{1680}'
        || ('\u{2000}' <= c && c <= '\u{200a}') || c == '\u{2028}' || c == '\u{2029}' || c
        == '\u{202f}' || c == '\u{205f}' || c == '\u{3000}'
}

fn space(c: char) -> (r: bool)
    ensures
        r == is_space(c),
{
    ('\u{9}' <= c && c <= '\u{d}') || c == ' ' || c == '\u{85}' || c == '\u{a0}' || c == '\u{1680}'
        || ('\u{2000}' <= c && c <= '\u{200a}') || c == '\u{2028}' || c == '\u{2029}' || c
        == '\u{202f}' || c == '\u{205f}' || c == '\u{3000}'
}

/// The last word of a text, up to its end: empty after a space.
pub open spec fn open_word(text: Seq<char>) -> Seq<char>
    decreases text.len(),
{
    if text.len() == 0 || is_space(text.last()) {
        Seq::empty()
    } else {
        open_word(text.drop_last()).push(text.last())
    }
}

/// The words of a text that a space has ended.
pub open spec fn ended_words(text: Seq<char>) -> Seq<Seq<char>>
    decreases text.len(),
{
    if text.len() == 0 {
        Seq::empty()
    } else {
        let before = ended_words(text.drop_last());
        let word = open_word(text.drop_last());
        if is_space(text.last()) && word.len() > 0 {
            before.push(word)
        } else {
            before
        }
    }
}

/// The words of a text: its longest stretches without a space.
pub open spec fn words_of(text: Seq<char>) -> Seq<Seq<char>> {
    if open_word(text).len() > 0 {
        ended_words(text).push(open_word(text))
    } else {
        ended_words(text)
    }
}

/// Whether a `label=count` pair counts nothing.
pub open spec fn counts_nothing(pair: Seq<char>) -> bool {
    pair.len() >= 2 && pair[pair.len() - 2] == '=' && pair[pair.len() - 1] == '0'
}

/// The pairs that count something, with one space between them.
pub open spec fn telling(pairs: Seq<Seq<char>>) -> Seq<char>
    decreases pairs.len(),
{
    if pairs.len() == 0 {
        Seq::empty()
    } else {
        with_pair(telling(pairs.drop_last()), pairs.last())
    }
}

/// A summary with one more pair, where that counts something.
pub open spec fn with_pair(summary: Seq<char>, pair: Seq<char>) -> Seq<char> {
    if counts_nothing(pair) {
        summary
    } else if summary.len() == 0 {
        pair
    } else {
        summary + " "@ + pair
    }
}

fn add_pair(summary: &mut String, pair: &str)
    ensures
        final(summary)@ == with_pair(old(summary)@, pair@),
{
    let len: usize = pair.unicode_len();
    if len >= 2 && pair.get_char(len - 2) == '=' && pair.get_char(len - 1) == '0' {
        return;
    }
    if summary.as_str().unicode_len() > 0 {
        summary.append(" ");
    }
    summary.append(pair);
    assert(old(summary)@.len() == 0 ==> summary@ =~= pair@);
}

/// The driver's census, as `label=count` pairs, without those that count
/// nothing.
pub fn majit_diag_summary(census: &str) -> (summary: String)
    ensures
        summary@ == telling(words_of(census@)),
{
    let mut summary = String::new();
    let len: usize = census.unicode_len();
    let mut start: usize = 0;
    let mut i: usize = 0;
    proof {
        assert(summary@ =~= Seq::<char>::empty());
        assert(census@.subrange(0, 0) =~= open_word(census@.subrange(0, 0)));
    }
    while i < len
        invariant
            start <= i <= len == census@.len(),
            census@.subrange(start as int, i as int) == open_word(census@.subrange(0, i as int)),
            summary@ == telling(ended_words(census@.subrange(0, i as int))),
        decreases len - i,
    {
        let ghost upto = census@.subrange(0, i + 1);
        assert(upto.drop_last() =~= census@.subrange(0, i as int));
        assert(upto.last() == census@[i as int]);
        if space(census.get_char(i)) {
            if i > start {
                let pair = census.substring_char(start, i);
                add_pair(&mut summary, pair);
                proof {
                    let before = ended_words(census@.subrange(0, i as int));
                    assert(before.push(pair@).drop_last() =~= before);
                }
            }
            start = i + 1;
            assert(census@.subrange(i + 1, i + 1) =~= Seq::<char>::empty());
        } else {
            assert(census@.subrange(start as int, i + 1) =~= census@.subrange(
                start as int,
                i as int,
            ).push(census@[i as int]));
        }
        i = i + 1;
    }
    assert(census@.subrange(0, len as int) =~= census@);
    if len > start {
        let pair = census.substring_char(start, len);
        add_pair(&mut summary, pair);
        proof {
            let before = ended_words(census@);
            assert(before.push(pair@).drop_last() =~= before);
        }
    }
    summary
}

} // verus!
