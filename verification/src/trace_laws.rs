//! What tracing is given and leaves: the door of a loop, what is counted, how a
//! guard's values are numbered and where a run goes on.
use vstd::prelude::*;
use vstd::utf8::{decode_utf8, valid_utf8};

use crate::tag;
use crate::bytecode::width;
use crate::counters::{
    aborts_since, bumped, is_space, open_word, reasons_with, telling, walk_noted, words_of, Count,
    Counters, Step,
};
use crate::jit_state::{
    forwarded, inputs_of, jump_fields, merge_point_lists, rebinding, ref_red, reg_named,
    register_lists, reseated, GuardResumeReg, Kind, OpRef, ResumeFrameView, Value,
};
use crate::jitcodes::{
    bound_by, bounds_record, long_at, numbered_texts_at, path_from, record_count, records_of,
    records_read, row_at, text_at, texts_at, texts_with_bytes_at, TableError,
};
use crate::machine::{Items, Iteration};
use crate::merge::{
    counted_as, edge_answered, image_of, iter_header, knocked, resumption, takes_item,
    visit_settled, Act, Addresses, Door, EdgeReply, Visit,
};
use crate::resume::{
    has_frame, is_frame_of, is_numbering, item_at, items_from, own_row, own_values, rebuilt,
    rebuilt_row, reference_row, references, sixteen_bits, unfolded, Rebuilt, RebuiltFrame,
};
use crate::text::decimal_nat;

verus! {

// ---------------------------------------------------------------------------
// The door of a loop.

/// A step in a nested run, and a step forward while nothing is recorded, are let
/// by; a step back is looked into, unless something else is being traced.
pub proof fn only_steps_back_are_looked_into(
    step: Step,
    counters: Counters,
    nest: u32,
    pc: usize,
    busy: bool,
)
    requires
        step.skipped < usize::MAX,
        counters.roomy(),
    ensures
        ({
            let (door, after, counted) = knocked(step, counters, nest, pc, busy);
            let forward = pc > step.prev_pc && !step.tracing;
            &&& nest != 0 <==> door == Door::Nested
            &&& nest == 0 && forward <==> door == Door::Forward
            &&& nest == 0 && !forward && busy <==> door == Door::Busy
            &&& nest == 0 && !forward && !busy <==> door == Door::Open
            &&& nest == 0 ==> after.prev_pc == pc
            &&& nest != 0 ==> after == step
            &&& after.tracing == step.tracing
            &&& after.skipped == step.skipped + if door == Door::Forward {
                1int
            } else {
                0
            }
            &&& door == Door::Open ==> counted.merge_points_consulted
                == counters.merge_points_consulted + 1
            &&& door == Door::Busy ==> counted.reentrant_consultations_declined
                == counters.reentrant_consultations_declined + 1
            &&& door == Door::Nested || door == Door::Forward ==> counted == counters
        }),
{
}

/// A loop goes round again only where it stopped at the same place with code to
/// run there; one that finished goes nowhere.
pub proof fn loops_go_round_at_their_own_place(visit: Visit, reply: EdgeReply)
    requires
        visit.hops < u32::MAX,
    ensures
        ({
            let (after, act) = edge_answered(visit, reply);
            &&& act matches Act::BackEdge { at } ==> at == visit.pc && reply.resume == Some(visit.pc)
                && reply.compiled && !reply.finished && after.hops == visit.hops + 1
            &&& !(act is BackEdge) ==> after.hops == visit.hops
            &&& act is Walk ==> reply.tracing
            &&& act is Settle ==> !reply.tracing
            &&& reply.finished ==> after.resume is None && !(act is BackEdge)
            &&& !reply.finished ==> after.resume == reply.resume
            &&& after.answered && after.pc == visit.pc && after.was_tracing == visit.was_tracing
            &&& !visit.answered ==> after.started == (!visit.was_tracing && reply.tracing)
            &&& visit.answered ==> after.started == visit.started
        }),
{
}

/// A finished run goes on nowhere; an abort decides where one does before what
/// the walk said, and that before what the loop said.
pub proof fn aborts_decide_before_the_walk(
    visit: Visit,
    outcome: Option<usize>,
    aborted: Option<usize>,
    tracing: bool,
)
    ensures
        ({
            let over = visit_settled(visit, outcome, aborted, true, tracing);
            over.resume is None && over.write_back
        }),
        ({
            let s = visit_settled(visit, outcome, aborted, false, tracing);
            &&& aborted is Some ==> s.resume == aborted && s.write_back
            &&& aborted is None && outcome is Some ==> s.resume == outcome && s.write_back
            &&& aborted is None && outcome is None ==> s.resume == visit.resume && !s.write_back
            &&& visit.started ==> s.report == Some(tracing)
            &&& !visit.started ==> s.report is None
        }),
{
}

/// The head of the loop is the first instruction from here on that takes an item,
/// instruction by instruction.
pub proof fn heads_are_found_instruction_by_instruction(code: Seq<u8>, at: int, n: int, fuel: nat)
    requires
        0 <= at < code.len(),
        fuel > 0,
    ensures
        code[at] == tag::ITER_NEXT || code[at] == tag::ITER_NEXT_INDEXED || code[at]
            == tag::ITER_NEXT_STORE ==> iter_header(code, at, fuel) == Some(at),
        !takes_item(code[at]) && width(code[at]) == Some(n) && at + n <= code.len() ==> iter_header(
            code,
            at,
            fuel,
        ) == iter_header(code, at + n, (fuel - 1) as nat),
        width(code[at]) is None ==> iter_header(code, at, fuel) is None,
{
}

/// A run goes on after the place it was given; one given no place goes on at the
/// head of its loop if the range it walked has ended, and where it was otherwise.
pub proof fn runs_go_on_after_their_place(
    code: Seq<u8>,
    iterators: Seq<Iteration>,
    pc: usize,
    at: usize,
    before: usize,
    next: i64,
    end: i64,
)
    requires
        code.len() < usize::MAX,
    ensures
        resumption(code, iterators, pc, None, before) == before,
        at != usize::MAX ==> resumption(code, iterators, pc, Some(at), before) == at + 1,
        iterators.len() == 0 ==> resumption(code, iterators, pc, Some(usize::MAX), before)
            == before,
        iterators.len() > 0 && iterators.last().items == (Items::IntRange { next, end }) && next
            < end ==> resumption(code, iterators, pc, Some(usize::MAX), before) == before,
        iterators.len() > 0 && iterators.last().items == (Items::IntRange { next, end }) && next
            >= end && pc < code.len() && takes_item(code[pc as int]) ==> resumption(
            code,
            iterators,
            pc,
            Some(usize::MAX),
            before,
        ) == pc + 1,
{
    reveal_with_fuel(iter_header, 2);
}

/// An image is of this frame only if it names this frame, this machine and this
/// scope.
pub proof fn images_name_their_frame(values: Seq<i64>, here: Addresses)
    ensures
        image_of(values, here) <==> values.len() >= 6 && values[0] as usize == here.frame
            && values[1] as usize == here.vm && values[2] as usize == here.scope,
{
}

// ---------------------------------------------------------------------------
// What is counted.

/// The counts of everything that happens, in a row.
pub open spec fn counts(c: Counters) -> Seq<usize> {
    seq![
        c.merge_points_consulted,
        c.entry_door_interpret,
        c.entry_door_already_tracing,
        c.traces_started,
        c.traces_aborted,
        c.loops_compiled,
        c.compiled_entries,
        c.compiled_entries_refused,
        c.reentrant_consultations_declined,
        c.non_owner_consultations_declined,
    ]
}

/// Where the count of what happened stands in the row.
pub open spec fn count_place(what: Count) -> int {
    match what {
        Count::MergePoint => 0,
        Count::Interpret => 1,
        Count::AlreadyTracing => 2,
        Count::Started => 3,
        Count::Aborted => 4,
        Count::LoopCompiled => 5,
        Count::Entered => 6,
        Count::Refused => 7,
        Count::Reentrant => 8,
        Count::NonOwner => 9,
    }
}

/// What happens is counted once, and nothing else is.
pub proof fn each_thing_is_counted_once(c: Counters, what: Count)
    requires
        c.roomy(),
    ensures
        counts(bumped(c, what))[count_place(what)] == counts(c)[count_place(what)] + 1,
        forall|i: int|
            0 <= i < 10 && i != count_place(what) ==> #[trigger] counts(bumped(c, what))[i]
                == counts(c)[i],
        bumped(c, what).ops_recorded == c.ops_recorded,
        bumped(c, what).max_trace_ops == c.max_trace_ops,
{
}

/// A walk adds what it recorded, and the longest is the longest so far.
pub proof fn walks_add_what_they_record(c: Counters, before: usize, after: usize)
    requires
        c.ops_recorded + after <= usize::MAX,
    ensures
        after >= before ==> walk_noted(c, before, after).ops_recorded == c.ops_recorded + after
            - before,
        after < before ==> walk_noted(c, before, after) == c,
        walk_noted(c, before, after).max_trace_ops >= c.max_trace_ops,
        walk_noted(c, before, after).max_trace_ops >= after - before,
        walk_noted(c, before, after).max_trace_ops == c.max_trace_ops || walk_noted(
            c,
            before,
            after,
        ).max_trace_ops == after - before,
        counts(walk_noted(c, before, after)) == counts(c),
{
}

proof fn spaceless_words(word: Seq<char>)
    requires
        forall|i: int| 0 <= i < word.len() ==> !is_space(#[trigger] word[i]),
    ensures
        open_word(word) == word,
        crate::counters::ended_words(word).len() == 0,
    decreases word.len(),
{
    if word.len() > 0 {
        spaceless_words(word.drop_last());
        assert(open_word(word) =~= word);
    }
}

/// A text without blanks is one word, a blank behind a text ends its last word,
/// and another character behind a blank starts one.
pub proof fn words_end_at_blanks(text: Seq<char>, word: Seq<char>, blank: char, c: char)
    requires
        is_space(blank),
        !is_space(c),
        word.len() > 0,
        forall|i: int| 0 <= i < word.len() ==> !is_space(#[trigger] word[i]),
    ensures
        words_of(word) == seq![word],
        words_of(text.push(blank)) == words_of(text),
        words_of(text.push(blank).push(c)) == words_of(text).push(seq![c]),
        words_of(Seq::empty()).len() == 0,
{
    reveal_with_fuel(open_word, 3);
    reveal_with_fuel(crate::counters::ended_words, 3);
    spaceless_words(word);
    let blanked = text.push(blank);
    let longer = blanked.push(c);
    assert(blanked.drop_last() =~= text);
    assert(longer.drop_last() =~= blanked);
    assert(open_word(blanked) =~= Seq::empty());
    assert(open_word(longer) =~= seq![c]);
    assert(words_of(word) =~= seq![word]);
    assert(words_of(blanked) =~= words_of(text));
    assert(words_of(longer) =~= words_of(text).push(seq![c]));
}

/// A summary leaves out the pairs that count nothing and joins the others, in
/// order, by blanks.
pub proof fn summaries_leave_out_noughts(pairs: Seq<Seq<char>>, pair: Seq<char>)
    ensures
        telling(Seq::empty()) == Seq::<char>::empty(),
        pair.len() >= 2 && pair[pair.len() - 2] == '=' && pair[pair.len() - 1] == '0' ==> telling(
            pairs.push(pair),
        ) == telling(pairs),
        !(pair.len() >= 2 && pair[pair.len() - 2] == '=' && pair[pair.len() - 1] == '0') ==> telling(
            pairs.push(pair),
        ) == if telling(pairs).len() == 0 {
            pair
        } else {
            telling(pairs) + seq![' '] + pair
        },
{
    assert(pairs.push(pair).drop_last() =~= pairs);
    reveal_strlit(" ");
    assert(" "@ =~= seq![' ']);
}

// ---------------------------------------------------------------------------
// Numberings.

/// A number folded so that small ones of either sign take few bits: the even ones
/// stand for nought and up, the odd ones for below nought.
pub open spec fn folded(n: int) -> int {
    if n >= 0 {
        2 * n
    } else {
        -2 * n - 1
    }
}

/// A number in groups of seven bits, the lowest first, each but the last marked.
pub open spec fn in_sevens(n: int) -> Seq<u8> {
    if n < 128 {
        seq![n as u8]
    } else if n < 16384 {
        seq![(n % 128 + 128) as u8, (n / 128) as u8]
    } else {
        seq![(n % 128 + 128) as u8, (n / 128 % 128 + 128) as u8, (n / 16384) as u8]
    }
}

/// Folding is undone, and a folded number in sevens is read as it was, wherever
/// it stands.
pub proof fn items_are_read_as_written(before: Seq<u8>, after: Seq<u8>, n: int)
    requires
        0 <= folded(n) < 16384 * 256,
    ensures
        unfolded(folded(n)) == n,
        item_at(before + in_sevens(folded(n)) + after, before.len() as int) == Some(
            (n, before.len() + in_sevens(folded(n)).len() as int),
        ),
{
    let f = folded(n);
    let bytes = in_sevens(f);
    let code = before + bytes + after;
    let at: int = before.len() as int;
    assert(code[at] == bytes[0]);
    if f >= 128 {
        assert(code[at + 1] == bytes[1]);
        if f >= 16384 {
            assert(code[at + 2] == bytes[2]);
            assert(f % 128 + 128 * (f / 128 % 128) + 16384 * (f / 16384) == f);
        } else {
            assert(f % 128 + 128 * (f / 128) == f);
        }
    }
}

/// A row of items is read one after the other.
pub proof fn items_are_read_in_order(numb: Seq<u8>, at: int, item: int, next: int)
    requires
        0 <= at < numb.len(),
        item_at(numb, at) == Some((item, next)),
        items_from(numb, next) is Some,
    ensures
        items_from(numb, at) == Some(seq![item] + items_from(numb, next)->0),
        items_from(numb, numb.len() as int) == Some(Seq::<int>::empty()),
{
}

/// An item says in its two lowest bits what it is: a small number, a value the
/// guard kept, a virtual, or a constant of its table. What the guard kept can be
/// counted from the end.
pub proof fn items_say_what_they_are(v: int, failed: int, consts: Seq<(i64, Kind)>)
    requires
        -8192 <= v < 8192,
        0 <= failed < 0x1_0000,
    ensures
        rebuilt(4 * v + 1, failed, consts) == Rebuilt::Int(v as i32),
        v >= 0 ==> rebuilt(4 * v + 2, failed, consts) == Rebuilt::Slot(v as usize),
        v < 0 && v + failed >= 0 ==> rebuilt(4 * v + 2, failed, consts) == Rebuilt::Slot(
            (v + failed) as usize,
        ),
        v >= 0 ==> rebuilt(4 * v + 3, failed, consts) == Rebuilt::Virtual(v as usize),
        0 <= v < consts.len() ==> rebuilt(4 * v, failed, consts) == Rebuilt::Const(
            consts[v].0,
            consts[v].1,
        ),
        v == -1 ==> rebuilt(4 * v, failed, consts) == Rebuilt::Const(0, Kind::Ref),
        v == -2 ==> rebuilt(4 * v, failed, consts) == Rebuilt::Unassigned,
{
    assert(sixteen_bits(4 * v) == 4 * v);
    assert(sixteen_bits(4 * v + 1) == 4 * v + 1);
    assert(sixteen_bits(4 * v + 2) == 4 * v + 2);
    assert(sixteen_bits(4 * v + 3) == 4 * v + 3);
}

/// The sixteen bits of a number are the number where it has no more, and are the
/// same for numbers that differ in the bits above.
pub proof fn sixteen_bits_are_kept(n: int)
    ensures
        -0x8000 <= n < 0x8000 ==> sixteen_bits(n) == n,
        -0x8000 <= sixteen_bits(n) < 0x8000,
        sixteen_bits(n + 0x1_0000) == sixteen_bits(n),
{
}

/// The values of a frame are rebuilt one for one and in order.
pub proof fn values_are_rebuilt_in_order(
    items: Seq<int>,
    consts: Seq<(i64, Kind)>,
    from: int,
    to: int,
)
    requires
        0 <= from <= to <= items.len(),
        items.len() >= 2,
    ensures
        rebuilt_row(items, consts, from, to).len() == to - from,
        forall|i: int|
            0 <= i < to - from ==> #[trigger] rebuilt_row(items, consts, from, to)[i] == rebuilt(
                items[from + i],
                items[1],
                consts,
            ),
{
}

// ---------------------------------------------------------------------------
// Registers.

/// A value goes into a word and comes out again.
pub proof fn words_hold_their_values(n: i64, address: usize)
    ensures
        Value::of_word(Kind::Int, Value::Int(n).word()) == Value::Int(n),
        Value::Int(n).kind() == Kind::Int,
        Value::Void.kind() == Kind::Void && Value::Void.word() == 0,
        address <= i64::MAX ==> Value::of_word(
            Kind::Ref,
            Value::Ref(crate::jit_state::GcRef(address)).word(),
        ) == Value::Ref(crate::jit_state::GcRef(address)),
{
}

/// The references among a row's values are counted past everything else.
pub proof fn references_are_counted_alone(reds: Seq<i64>, kinds: Seq<Kind>, i: int, n: nat)
    requires
        0 <= i < reds.len(),
        reds.len() == kinds.len(),
    ensures
        kinds[i] != Kind::Ref ==> ref_red(reds, kinds, i, n) == ref_red(reds, kinds, i + 1, n),
        kinds[i] == Kind::Ref ==> ref_red(reds, kinds, i, 0) == Some(reds[i]),
        kinds[i] == Kind::Ref ==> ref_red(reds, kinds, i, n + 1) == ref_red(reds, kinds, i + 1, n),
        ref_red(reds, kinds, reds.len() as int, n) is None,
{
}

/// Forwarding touches the references that point where the old one did, and only
/// what they point to.
pub proof fn forwarding_touches_stale_references(reg: GuardResumeReg, stale: i64, live: i64)
    ensures
        reg.bank == Kind::Ref && reg.value == stale ==> forwarded(reg, stale, live).value == live,
        !(reg.bank == Kind::Ref && reg.value == stale) ==> forwarded(reg, stale, live) == reg,
        forwarded(reg, stale, live).bank == reg.bank,
        forwarded(reg, stale, live).index == reg.index,
        forwarded(reg, stale, live).opref == reg.opref,
{
}

/// Reseating touches the one reference register and nothing else in it but what
/// it holds.
pub proof fn reseating_touches_one_register(
    reg: GuardResumeReg,
    index: usize,
    live: i64,
    opref: OpRef,
)
    ensures
        reg.bank == Kind::Ref && reg.index == index ==> reseated(reg, index, live, opref).value
            == live && reseated(reg, index, live, opref).opref == opref,
        !(reg.bank == Kind::Ref && reg.index == index) ==> reseated(reg, index, live, opref) == reg,
        reseated(reg, index, live, opref).bank == reg.bank,
        reseated(reg, index, live, opref).index == reg.index,
{
}

/// The register reserved for the machine is set to the live one unless it already
/// holds it by a symbol of the trace or holds the frame's own reference.
pub proof fn machines_are_rebound_where_stale(
    reds: Seq<i64>,
    kinds: Seq<Kind>,
    header_pc: usize,
    frames: Seq<ResumeFrameView>,
    live: i64,
    lists: Seq<Seq<usize>>,
    slot: GuardResumeReg,
)
    requires
        frames.len() > 0,
        ref_red(reds, kinds, 0, 1) == Some(live),
        merge_point_lists(frames[0].code, header_pc) == Some(lists),
        lists[4].len() > 1,
        reg_named(frames[0].regs, lists[4][1], 0) == Some(slot),
    ensures
        ({
            let kept = (slot.value == live && !slot.opref.constant()) || (reds.len() > 0 && reds[0]
                == slot.value);
            &&& kept ==> rebinding(reds, kinds, Some(header_pc), frames) is None
            &&& !kept ==> (rebinding(reds, kinds, Some(header_pc), frames) matches Some(
                (index, to, _),
            ) && index == lists[4][1] && to == live)
        }),
        rebinding(reds, kinds, None, frames) is None,
        rebinding(reds, kinds, Some(header_pc), Seq::empty()) is None,
{
}

/// A register is found by bank and number, the first first.
pub proof fn registers_are_found_by_number(regs: Seq<GuardResumeReg>, index: usize, i: int)
    requires
        0 <= i < regs.len(),
        regs[i].bank == Kind::Ref,
        regs[i].index == index,
        forall|j: int|
            0 <= j < i ==> !((#[trigger] regs[j]).bank == Kind::Ref && regs[j].index == index),
    ensures
        reg_named(regs, index, 0) == Some(regs[i]),
{
    register_found_from(regs, index, i, 0);
}

proof fn register_found_from(regs: Seq<GuardResumeReg>, index: usize, i: int, from: int)
    requires
        0 <= from <= i < regs.len(),
        regs[i].bank == Kind::Ref,
        regs[i].index == index,
        forall|j: int|
            0 <= j < i ==> !((#[trigger] regs[j]).bank == Kind::Ref && regs[j].index == index),
    ensures
        reg_named(regs, index, from) == Some(regs[i]),
    decreases i - from,
{
    if from < i {
        register_found_from(regs, index, i, from + 1);
    }
}

/// The lists of a merge point stand one behind the other, each behind its length.
pub proof fn lists_stand_behind_their_length(code: Seq<u8>, at: int, n: nat)
    requires
        0 <= at < code.len(),
        n > 0,
    ensures
        at + 1 + code[at] > code.len() ==> register_lists(code, at, n) is None,
        at + 1 + code[at] <= code.len() ==> (register_lists(
            code,
            at + 1 + code[at],
            (n - 1) as nat,
        ) matches Some(rest) ==> (register_lists(code, at, n) matches Some(all) && all.len()
            == rest.len() + 1 && all[0].len() == code[at] && (forall|i: int|
            0 <= i < code[at] ==> #[trigger] all[0][i] == code[at + 1 + i]) && all.skip(1)
            == rest)),
{
    if at + 1 + code[at] <= code.len() {
        if let Some(rest) = register_lists(code, at + 1 + code[at], (n - 1) as nat) {
            let all = register_lists(code, at, n)->0;
            assert(all.skip(1) =~= rest);
        }
    }
}

// ---------------------------------------------------------------------------
// Tables.

/// A record is what stands between two neighbouring offsets, and there is one
/// less than there are offsets.
pub proof fn records_stand_between_offsets(bodies: Seq<u8>, offsets: Seq<u32>, i: int, j: int)
    requires
        offsets.len() > 0,
        0 <= i < offsets.len() - 1,
        offsets[i] <= offsets[i + 1] <= bodies.len(),
        0 <= j < offsets[i + 1] - offsets[i],
    ensures
        record_count(offsets) == offsets.len() - 1,
        records_of(bodies, offsets).len() == offsets.len() - 1,
        records_of(bodies, offsets)[i].len() == offsets[i + 1] - offsets[i],
        records_of(bodies, offsets)[i][j] == bodies[offsets[i] + j],
{
}

/// A function's path is the first one recorded for its address.
pub proof fn paths_are_found_by_address(
    paths: Seq<(i64, Seq<char>)>,
    fnaddr: i64,
    from: int,
    i: int,
)
    requires
        0 <= from <= i < paths.len(),
        paths[i].0 == fnaddr,
        forall|j: int| from <= j < i ==> (#[trigger] paths[j]).0 != fnaddr,
    ensures
        path_from(paths, fnaddr, from) == Some(paths[i].1),
        path_from(paths, fnaddr, paths.len() as int) is None,
    decreases i - from,
{
    if from < i {
        paths_are_found_by_address(paths, fnaddr, from + 1, i);
    }
}

/// A name bound twice keeps the later byte.
pub proof fn later_bindings_win(
    pairs: Seq<(Seq<char>, u8)>,
    name: Seq<char>,
    byte: u8,
    other: Seq<char>,
)
    ensures
        bound_by(pairs.push((name, byte))).contains_key(name),
        bound_by(pairs.push((name, byte)))[name] == byte,
        other != name ==> bound_by(pairs.push((name, byte))).contains_key(other) == bound_by(
            pairs,
        ).contains_key(other),
        other != name && bound_by(pairs).contains_key(other) ==> bound_by(
            pairs.push((name, byte)),
        )[other] == bound_by(pairs)[other],
        !bound_by(Seq::empty()).contains_key(name),
{
    assert(pairs.push((name, byte)).drop_last() =~= pairs);
}

// ---------------------------------------------------------------------------
// Reports.

/// A visit counts as a start where it started a trace, as one more step of a trace
/// already running, or as plain interpretation.
pub proof fn visits_are_counted_as_what_they_are(visit: Visit)
    ensures
        visit.started ==> counted_as(visit) == Count::Started,
        !visit.started && visit.was_tracing ==> counted_as(visit) == Count::AlreadyTracing,
        !visit.started && !visit.was_tracing ==> counted_as(visit) == Count::Interpret,
{
}

/// A fresh set of counters has counted nothing, and aborts are counted from where
/// it began.
pub proof fn counters_start_at_nought(aborts: u64, more: u64)
    requires
        aborts + more <= u64::MAX,
    ensures
        forall|i: int| 0 <= i < 10 ==> #[trigger] counts(Counters::none(aborts))[i] == 0,
        Counters::none(aborts).ops_recorded == 0,
        Counters::none(aborts).max_trace_ops == 0,
        aborts_since(Counters::none(aborts), (aborts + more) as u64) == more,
{
}

/// The reasons are those the host rendered, with the aborts only the machine knows
/// of behind them where there were any.
pub proof fn reasons_name_the_aborts(rendered: Seq<char>, stopped: u64)
    ensures
        reasons_with(rendered, 0) == rendered,
        stopped > 0 && rendered.len() == 0 ==> reasons_with(rendered, stopped)
            == "unbound_symbolic_residual="@ + decimal_nat(stopped as nat),
        stopped > 0 && rendered.len() > 0 ==> reasons_with(rendered, stopped) == rendered + " "@
            + "unbound_symbolic_residual="@ + decimal_nat(stopped as nat),
{
    assert(Seq::<char>::empty() + "unbound_symbolic_residual="@
        =~= "unbound_symbolic_residual="@);
    if rendered.len() == 0 {
        assert(rendered =~= Seq::empty());
    }
}

// ---------------------------------------------------------------------------
// Frames of a guard.

/// A guard's numbering holds how long it is, how many values failed, how many of
/// its own values follow, those, how many pairs of references follow, those, and
/// then the frame: which code it is in, where, and its values.
pub proof fn numberings_hold_their_frame(
    frame: RebuiltFrame,
    own: Seq<int>,
    refs: Seq<int>,
    code: int,
    pc: int,
    values: Seq<int>,
    failed: int,
    consts: Seq<(i64, Kind)>,
    pairs: int,
)
    requires
        0 <= pairs,
        refs.len() == 2 * pairs,
    ensures
        ({
            let size = 6 + own.len() + refs.len() + values.len();
            let items = seq![size as int, failed, own.len() as int] + own + seq![pairs] + refs
                + seq![code, pc] + values;
            &&& items.len() == size
            &&& is_numbering(items)
            &&& own_values(items) == own.len()
            &&& references(items) == refs.len()
            &&& has_frame(items)
            &&& own_row(items, consts).len() == own.len()
            &&& forall|i: int|
                0 <= i < own.len() ==> #[trigger] own_row(items, consts)[i] == rebuilt(
                    own[i],
                    failed,
                    consts,
                )
            &&& reference_row(items, consts).len() == refs.len()
            &&& forall|i: int|
                0 <= i < refs.len() ==> #[trigger] reference_row(items, consts)[i] == rebuilt(
                    refs[i],
                    failed,
                    consts,
                )
            &&& is_frame_of(frame, items, consts) ==> frame.jitcode_index == code && frame.pc == pc
                && frame.values@.len() == values.len() && (forall|i: int|
                0 <= i < values.len() ==> #[trigger] frame.values@[i] == rebuilt(
                    values[i],
                    failed,
                    consts,
                ))
        }),
{
    let size = 6 + own.len() + refs.len() + values.len();
    let items = seq![size as int, failed, own.len() as int] + own + seq![pairs] + refs + seq![
        code,
        pc,
    ] + values;
    assert(items[0] == size && items[1] == failed && items[2] == own.len());
    let from: int = 4 + own.len() + refs.len() as int;
    assert(items[3 + own.len() as int] == pairs);
    assert(items[from] == code);
    assert(items[from + 1] == pc);
    assert forall|i: int| 0 <= i < own.len() implies #[trigger] own_row(items, consts)[i] == rebuilt(
        own[i],
        failed,
        consts,
    ) by {
        assert(items[3 + i] == own[i]);
    }
    assert forall|i: int| 0 <= i < refs.len() implies #[trigger] reference_row(items, consts)[i]
        == rebuilt(refs[i], failed, consts) by {
        assert(items[4 + own.len() + i] == refs[i]);
    }
    let row = rebuilt_row(items, consts, from + 2, items.len() as int);
    assert forall|i: int| 0 <= i < values.len() implies #[trigger] row[i] == rebuilt(
        values[i],
        failed,
        consts,
    ) by {
        assert(items[from + 2 + i] == values[i]);
    }
}

/// What a jump carries is everything but the last, in order; what a trace starts
/// from is numbered as it stands.
pub proof fn jumps_carry_all_but_the_last(
    boxes: Seq<(OpRef, Kind)>,
    last: (OpRef, Kind),
    kinds: Seq<Kind>,
)
    ensures
        jump_fields(boxes.push(last)).len() == boxes.len(),
        forall|i: int|
            0 <= i < boxes.len() ==> #[trigger] jump_fields(boxes.push(last))[i] == boxes[i].0,
        jump_fields(Seq::empty()).len() == 0,
        inputs_of(kinds).len() == kinds.len(),
        kinds.len() <= u32::MAX ==> forall|i: int|
            0 <= i < kinds.len() ==> #[trigger] inputs_of(kinds)[i] == (OpRef::InputArg {
                index: i as u32,
                kind: kinds[i],
            }),
{
}

// ---------------------------------------------------------------------------
// Texts.

/// A text stands behind its length in bytes, and the texts of a row one behind
/// the other.
pub proof fn texts_stand_behind_their_length(bytes: Seq<u8>, at: int, n: nat, left: nat)
    requires
        0 <= at,
        at + 8 + n <= bytes.len(),
        long_at(bytes, at) == n,
        valid_utf8(bytes.subrange(at + 8, at + 8 + n)),
        left > 0,
    ensures
        text_at(bytes, at) == Some(
            (decode_utf8(bytes.subrange(at + 8, at + 8 + n)), at + 8 + n),
        ),
        texts_at(bytes, at + 8 + n, (left - 1) as nat) matches Some((rest, end)) ==> (texts_at(
            bytes,
            at,
            left,
        ) matches Some((all, over)) && over == end && all.len() == rest.len() + 1 && all[0]
            == decode_utf8(bytes.subrange(at + 8, at + 8 + n)) && all.skip(1) == rest),
        texts_at(bytes, at, 0) == Some((Seq::<Seq<char>>::empty(), at)),
{
    if let Some((rest, end)) = texts_at(bytes, at + 8 + n, (left - 1) as nat) {
        let (all, _) = texts_at(bytes, at, left)->0;
        assert(all.skip(1) =~= rest);
    }
}

/// A row of numbers stands behind how many there are, four bytes each.
pub proof fn rows_stand_behind_their_length(bytes: Seq<u8>, at: int, n: nat, i: int)
    requires
        0 <= at,
        at + 8 + 4 * n <= bytes.len(),
        long_at(bytes, at) == n,
        0 <= i < n,
    ensures
        row_at(bytes, at) matches Some(row) && row.len() == n && row[i] == crate::bytecode::dword(
            bytes,
            at + 8 + 4 * i,
        ),
{
}

/// An address and its path, and an instruction's name and its byte, stand together.
pub proof fn pairs_stand_together(bytes: Seq<u8>, at: int, n: nat, left: nat)
    requires
        0 <= at,
        left > 0,
    ensures
        text_at(bytes, at + 8) matches Some((text, next)) ==> (numbered_texts_at(
            bytes,
            next,
            (left - 1) as nat,
        ) matches Some(rest) ==> (at + 8 <= bytes.len() ==> numbered_texts_at(bytes, at, left)
            == Some(seq![((long_at(bytes, at) as u64) as i64, text)] + rest))),
        text_at(bytes, at) matches Some((text, next)) ==> (next < bytes.len() ==> (
        texts_with_bytes_at(bytes, next + 1, (left - 1) as nat) matches Some(rest)
            ==> texts_with_bytes_at(bytes, at, left) == Some(seq![(text, bytes[next])] + rest))),
        numbered_texts_at(bytes, at, 0) == Some(Seq::<(i64, Seq<char>)>::empty()),
        texts_with_bytes_at(bytes, at, 0) == Some(Seq::<(Seq<char>, u8)>::empty()),
{
}

/// A table is refused where its index cannot be read or an offset is outside it;
/// otherwise its records are what stands between the offsets.
pub proof fn tables_are_read_or_refused(bodies: Seq<u8>, offsets: Seq<u32>)
    ensures
        records_read(bodies, None) == Err::<Seq<Seq<u8>>, TableError>(TableError::Undecodable),
        (forall|i: int|
            0 <= i < offsets.len() - 1 ==> #[trigger] bounds_record(offsets, bodies.len(), i))
            ==> records_read(bodies, Some(offsets)) == Ok::<Seq<Seq<u8>>, TableError>(
            records_of(bodies, offsets),
        ),
        (exists|i: int|
            0 <= i < offsets.len() - 1 && !#[trigger] bounds_record(offsets, bodies.len(), i))
            ==> records_read(bodies, Some(offsets)) == Err::<Seq<Seq<u8>>, TableError>(
            TableError::OutOfBounds,
        ),
        forall|i: int| #[trigger]
            bounds_record(offsets, bodies.len(), i) <==> offsets[i] <= offsets[i + 1] && offsets[i
                + 1] <= bodies.len(),
{
}

} // verus!
