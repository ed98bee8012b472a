//! The state a tracing driver reads the machine through: the live values it
//! hands over at a merge point, the symbols that stand for them in a trace, and
//! what comes back when compiled code leaves.
use vstd::prelude::*;

use crate::counters::{bumped, Count, Counters};

verus! {

/// The type of a value in a trace.
#[derive(Clone, Copy, Debug, PartialEq, Eq, Structural)]
pub enum Kind {
    Int,
    Ref,
    Float,
    Void,
}

/// A managed reference, as an address.
#[derive(Clone, Copy, Debug, PartialEq, Eq, Structural)]
pub struct GcRef(pub usize);

/// A value of a trace. A float is its bits.
#[derive(Clone, Copy, Debug, PartialEq, Eq, Structural)]
pub enum Value {
    Int(i64),
    Ref(GcRef),
    Float(u64),
    Void,
}

impl Value {
    pub open spec fn kind(self) -> Kind {
        match self {
            Value::Int(_) => Kind::Int,
            Value::Ref(_) => Kind::Ref,
            Value::Float(_) => Kind::Float,
            Value::Void => Kind::Void,
        }
    }

    /// The type of the value.
    pub fn get_type(&self) -> (kind: Kind)
        ensures
            kind == self.kind(),
    {
        match self {
            Value::Int(_) => Kind::Int,
            Value::Ref(_) => Kind::Ref,
            Value::Float(_) => Kind::Float,
            Value::Void => Kind::Void,
        }
    }

    /// The value as one machine word.
    pub open spec fn word(self) -> i64 {
        match self {
            Value::Int(i) => i,
            Value::Ref(r) => r.0 as i64,
            Value::Float(bits) => bits as i64,
            Value::Void => 0,
        }
    }

    /// The value a machine word is, read as a type.
    pub open spec fn of_word(kind: Kind, word: i64) -> Value {
        match kind {
            Kind::Int => Value::Int(word),
            Kind::Ref => Value::Ref(GcRef(word as usize)),
            Kind::Float => Value::Float(word as u64),
            Kind::Void => Value::Void,
        }
    }
}

/// A symbol of a trace.
#[derive(Clone, Copy, Debug, PartialEq, Eq, Structural)]
pub enum OpRef {
    /// An input of the trace.
    InputArg { index: u32, kind: Kind },
    /// The result of an operation.
    Op { index: u32 },
    ConstInt(i64),
    ConstPtr(GcRef),
    /// A float constant, as its bits.
    ConstFloat(u64),
}

impl OpRef {
    /// The symbol of a trace's input.
    pub fn input_arg_typed(index: u32, kind: Kind) -> (opref: OpRef)
        ensures
            opref == (OpRef::InputArg { index, kind }),
    {
        OpRef::InputArg { index, kind }
    }

    pub open spec fn constant(self) -> bool {
        self is ConstInt || self is ConstPtr || self is ConstFloat
    }

    /// Whether the symbol stands for a value fixed when the trace is compiled.
    pub fn is_constant(&self) -> (r: bool)
        ensures
            r == self.constant(),
    {
        matches!(self, OpRef::ConstInt(_) | OpRef::ConstPtr(_) | OpRef::ConstFloat(_))
    }
}

/// A register as a failed guard left it.
#[derive(Clone, Copy, Debug, PartialEq, Eq, Structural)]
pub struct GuardResumeReg {
    pub bank: Kind,
    pub index: u32,
    pub opref: OpRef,
    pub value: i64,
}

/// A frame as a failed guard left it: the body it runs, where, and its
/// registers. Over the types that hold bytes and registers.
#[derive(Debug)]
#[verifier::ext_equal]
pub struct GuardResumeFrame<C, R> {
    pub code: C,
    pub pc: usize,
    pub regs: R,
}

pub type ResumeFrame = GuardResumeFrame<Vec<u8>, Vec<GuardResumeReg>>;

pub type ResumeFrameView = GuardResumeFrame<Seq<u8>, Seq<GuardResumeReg>>;

impl ResumeFrame {
    pub open spec fn view(self) -> ResumeFrameView {
        GuardResumeFrame { code: self.code@, pc: self.pc, regs: self.regs@ }
    }
}

pub open spec fn frame_views(frames: Seq<ResumeFrame>) -> Seq<ResumeFrameView> {
    Seq::new(frames.len(), |i: int| frames[i]@)
}

// ---------------------------------------------------------------------------
// The registers a merge point names.

/// One list of registers: `len` of them from `at` on.
pub open spec fn register_list(code: Seq<u8>, at: int, len: nat) -> Seq<usize> {
    Seq::new(len, |i: int| code[at + i] as usize)
}

/// `n` lists of registers from `at` on, each written as its length and its
/// registers, or nothing where the bytes run out.
pub open spec fn register_lists(code: Seq<u8>, at: int, n: nat) -> Option<Seq<Seq<usize>>>
    decreases n,
{
    if n == 0 {
        Some(Seq::empty())
    } else if at >= code.len() || at + 1 + code[at] > code.len() {
        None
    } else {
        match register_lists(code, at + 1 + code[at], (n - 1) as nat) {
            None => None,
            Some(rest) => Some(
                seq![register_list(code, at + 1, code[at] as nat)] + rest,
            ),
        }
    }
}

/// The six register lists of a merge point: green integers, references and
/// floats, then the red ones.
pub open spec fn merge_point_lists(code: Seq<u8>, header_pc: usize) -> Option<Seq<Seq<usize>>> {
    register_lists(code, header_pc + 2, 6)
}

pub open spec fn list_views(lists: Seq<Vec<usize>>) -> Seq<Seq<usize>> {
    Seq::new(lists.len(), |i: int| lists[i]@)
}

fn read_list(code: &Vec<u8>, at: usize) -> (regs: Vec<usize>)
    requires
        at < code@.len(),
        at + 1 + code@[at as int] <= code@.len(),
    ensures
        regs@ == register_list(code@, at + 1, code@[at as int] as nat),
{
    let total: usize = code.len();
    let len: usize = code[at] as usize;
    let mut regs: Vec<usize> = Vec::new();
    let mut i: usize = 0;
    while i < len
        invariant
            i <= len,
            at < total == code@.len(),
            len == code@[at as int],
            at + 1 + len <= code@.len(),
            regs@ == register_list(code@, at + 1, i as nat),
        decreases len - i,
    {
        regs.push(code[at + 1 + i] as usize);
        i = i + 1;
        assert(regs@ =~= register_list(code@, at + 1, i as nat));
    }
    regs
}

/// The six register lists of the merge point at `header_pc`.
pub fn merge_point_slot_regs(code: &Vec<u8>, header_pc: usize) -> (out: Option<Vec<Vec<usize>>>)
    ensures
        match out {
            Some(lists) => merge_point_lists(code@, header_pc) == Some(list_views(lists@))
                && lists@.len() == 6,
            None => merge_point_lists(code@, header_pc) is None,
        },
{
    if header_pc > usize::MAX - 2 {
        let total: usize = code.len();
        assert(header_pc + 2 > total);
        return None;
    }
    let mut at: usize = header_pc + 2;
    let mut lists: Vec<Vec<usize>> = Vec::new();
    let mut left: usize = 6;
    while left > 0
        invariant
            left + lists@.len() == 6,
            match register_lists(code@, at as int, left as nat) {
                Some(rest) => merge_point_lists(code@, header_pc) == Some(
                    list_views(lists@) + rest,
                ),
                None => merge_point_lists(code@, header_pc) is None,
            },
        decreases left,
    {
        let total: usize = code.len();
        if at >= total || code[at] as usize > total - at - 1 {
            return None;
        }
        let len: usize = code[at] as usize;
        let regs = read_list(code, at);
        let ghost before = list_views(lists@);
        proof {
            let rest = register_lists(code@, at + 1 + len, (left - 1) as nat);
            if let Some(rest) = rest {
                assert(before + (seq![regs@] + rest) =~= before.push(regs@) + rest);
            }
        }
        lists.push(regs);
        assert(list_views(lists@) =~= before.push(regs@));
        at = at + 1 + len;
        left = left - 1;
    }
    assert(list_views(lists@) + Seq::<Seq<usize>>::empty() =~= list_views(lists@));
    Some(lists)
}

// ---------------------------------------------------------------------------
// Replacing a stale reference.

/// A register with one reference replaced by another.
pub open spec fn forwarded(reg: GuardResumeReg, stale: i64, live: i64) -> GuardResumeReg {
    if reg.bank == Kind::Ref && reg.value == stale {
        GuardResumeReg { value: live, ..reg }
    } else {
        reg
    }
}

/// Replace every reference register that still holds `stale` with `live`.
pub fn forward_ref_bits(frames: &mut Vec<ResumeFrame>, stale: i64, live: i64)
    ensures
        frame_views(final(frames)@) == frame_views(old(frames)@).map_values(
            |f: ResumeFrameView|
                GuardResumeFrame {
                    regs: f.regs.map_values(|r: GuardResumeReg| forwarded(r, stale, live)),
                    ..f
                },
        ),
{
    let ghost before = frame_views(frames@);
    let ghost change = |f: ResumeFrameView|
        GuardResumeFrame {
            regs: f.regs.map_values(|r: GuardResumeReg| forwarded(r, stale, live)),
            ..f
        };
    let count: usize = frames.len();
    let mut i: usize = 0;
    while i < count
        invariant
            i <= count,
            count == frames@.len(),
            before.len() == count,
            change == (|f: ResumeFrameView|
                GuardResumeFrame {
                    regs: f.regs.map_values(|r: GuardResumeReg| forwarded(r, stale, live)),
                    ..f
                }),
            forall|j: int| 0 <= j < i ==> (#[trigger] frames@[j])@ == change(before[j]),
            forall|j: int| i <= j < count ==> (#[trigger] frames@[j])@ == before[j],
        decreases count - i,
    {
        forward_frame(&mut frames[i], stale, live);
        assert(frames@[i as int]@ =~= change(before[i as int]));
        i = i + 1;
    }
    assert(frame_views(frames@) =~= before.map_values(change));
}

fn forward_frame(frame: &mut ResumeFrame, stale: i64, live: i64)
    ensures
        final(frame)@ == (ResumeFrameView {
            regs: old(frame)@.regs.map_values(|r: GuardResumeReg| forwarded(r, stale, live)),
            ..old(frame)@
        }),
{
    let ghost before = frame.regs@;
    let count: usize = frame.regs.len();
    let mut i: usize = 0;
    while i < count
        invariant
            i <= count,
            count == frame.regs@.len(),
            before.len() == count,
            frame.code@ == old(frame).code@,
            frame.pc == old(frame).pc,
            forall|j: int| 0 <= j < i
                ==> #[trigger] frame.regs@[j] == forwarded(before[j], stale, live),
            forall|j: int| i <= j < count ==> #[trigger] frame.regs@[j] == before[j],
        decreases count - i,
    {
        let reg = frame.regs[i];
        if reg.bank == Kind::Ref && reg.value == stale {
            frame.regs.set(i, GuardResumeReg { value: live, ..reg });
        }
        i = i + 1;
    }
    assert(frame.regs@ =~= before.map_values(|r: GuardResumeReg| forwarded(r, stale, live)));
}

// ---------------------------------------------------------------------------
// The state.

/// The shape of the code being traced, captured when tracing starts.
#[derive(Debug)]
pub struct GrainMeta {
    /// The merge point's own offset in the portal body.
    pub header_pc: usize,
    /// One raw word per red, in declaration order.
    pub reds: Vec<i64>,
}

/// One symbol per red, in declaration order.
#[derive(Debug)]
pub struct GrainSym {
    /// The offset the tracer closes the loop back to.
    pub header_pc: usize,
    pub reds: Vec<OpRef>,
}

/// The machine, as a tracing driver reads it.
#[derive(Debug)]
pub struct GrainJitState {
    /// What the last restore was handed.
    pub last_restored: Vec<i64>,
    /// The red image of the consultation now in progress.
    pub reds: Vec<i64>,
    /// The live frame's own fields, in the order they are declared.
    pub vable_statics: Vec<i64>,
}

/// A field of the frame that compiled code may keep in a register.
#[derive(Clone, Copy, Debug, PartialEq, Eq, Structural)]
pub enum FrameField {
    Scope,
    Base,
    Reached,
    StackBase,
    JitResumePcPlusOne,
}

/// The frame's fields that compiled code may keep in registers, in their order.
pub open spec fn frame_field_list() -> Seq<(FrameField, Kind)> {
    seq![
        (FrameField::Scope, Kind::Ref),
        (FrameField::Base, Kind::Int),
        (FrameField::Reached, Kind::Int),
        (FrameField::StackBase, Kind::Int),
        (FrameField::JitResumePcPlusOne, Kind::Int),
    ]
}

/// The frame's fields that compiled code may keep in registers.
pub fn frame_fields() -> (fields: Vec<(FrameField, Kind)>)
    ensures
        fields@ == frame_field_list(),
{
    let fields = vec![
        (FrameField::Scope, Kind::Ref),
        (FrameField::Base, Kind::Int),
        (FrameField::Reached, Kind::Int),
        (FrameField::StackBase, Kind::Int),
        (FrameField::JitResumePcPlusOne, Kind::Int),
    ];
    assert(fields@ =~= frame_field_list());
    fields
}

/// The name a driver knows a field by.
pub fn field_name(field: FrameField) -> (name: &'static str)
    ensures
        name@ == (match field {
            FrameField::Scope => "scope"@,
            FrameField::Base => "base"@,
            FrameField::Reached => "reached"@,
            FrameField::StackBase => "stack_base"@,
            FrameField::JitResumePcPlusOne => "jit_resume_pc_plus_one"@,
        }),
{
    match field {
        FrameField::Scope => "scope",
        FrameField::Base => "base",
        FrameField::Reached => "reached",
        FrameField::StackBase => "stack_base",
        FrameField::JitResumePcPlusOne => "jit_resume_pc_plus_one",
    }
}

/// The `n`th live value among the reds that are references, from `i` on.
pub open spec fn ref_red(reds: Seq<i64>, kinds: Seq<Kind>, i: int, n: nat) -> Option<i64>
    decreases reds.len() - i,
{
    if i < 0 || i >= reds.len() || i >= kinds.len() {
        None
    } else if kinds[i] != Kind::Ref {
        ref_red(reds, kinds, i + 1, n)
    } else if n == 0 {
        Some(reds[i])
    } else {
        ref_red(reds, kinds, i + 1, (n - 1) as nat)
    }
}

/// The first reference register with this index, from `i` on.
pub open spec fn reg_named(
    regs: Seq<GuardResumeReg>,
    index: usize,
    i: int,
) -> Option<GuardResumeReg>
    decreases regs.len() - i,
{
    if i < 0 || i >= regs.len() {
        None
    } else if regs[i].bank == Kind::Ref && regs[i].index == index {
        Some(regs[i])
    } else {
        reg_named(regs, index, i + 1)
    }
}

/// The symbol that stands for a live reference: the first register from `i` on
/// that holds it and is not fixed, or else its address as a constant.
pub open spec fn live_symbol(regs: Seq<GuardResumeReg>, live: i64, i: int) -> OpRef
    decreases regs.len() - i,
{
    if i < 0 || i >= regs.len() {
        OpRef::ConstPtr(GcRef(live as usize))
    } else if regs[i].bank == Kind::Ref && regs[i].value == live && !regs[i].opref.constant() {
        regs[i].opref
    } else {
        live_symbol(regs, live, i + 1)
    }
}

/// A register with the reserved one given another value and symbol.
pub open spec fn reseated(
    reg: GuardResumeReg,
    index: usize,
    live: i64,
    opref: OpRef,
) -> GuardResumeReg {
    if reg.bank == Kind::Ref && reg.index == index {
        GuardResumeReg { value: live, opref, ..reg }
    } else {
        reg
    }
}

/// What the frames of a bridge have to be given: the register reserved for the
/// machine, the machine's live address and the symbol that stands for it. None
/// where there is no such register, where it already is the live machine by a
/// symbol that is not fixed, or where it holds the frame.
pub open spec fn rebinding(
    reds: Seq<i64>,
    kinds: Seq<Kind>,
    header_pc: Option<usize>,
    frames: Seq<ResumeFrameView>,
) -> Option<(usize, i64, OpRef)> {
    match (ref_red(reds, kinds, 0, 1), header_pc) {
        (Some(live), Some(header_pc)) if frames.len() > 0 => match merge_point_lists(
            frames[0].code,
            header_pc,
        ) {
            Some(lists) if lists[4].len() > 1 => {
                let index = lists[4][1];
                match reg_named(frames[0].regs, index, 0) {
                    None => None,
                    Some(slot) => if (slot.value == live && !slot.opref.constant()) || (reds.len()
                        > 0 && reds[0] == slot.value) {
                        None
                    } else {
                        Some((index, live, live_symbol(frames[0].regs, live, 0)))
                    },
                }
            },
            _ => None,
        },
        _ => None,
    }
}

/// The frames of a bridge with the register reserved for the machine bound to
/// the live one. Every other register stays as it is.
pub open spec fn rebound(
    reds: Seq<i64>,
    kinds: Seq<Kind>,
    header_pc: Option<usize>,
    frames: Seq<ResumeFrameView>,
) -> Seq<ResumeFrameView> {
    match rebinding(reds, kinds, header_pc, frames) {
        None => frames,
        Some((index, live, opref)) => frames.map_values(
            |f: ResumeFrameView|
                GuardResumeFrame {
                    regs: f.regs.map_values(
                        |r: GuardResumeReg| reseated(r, index, live, opref),
                    ),
                    ..f
                },
        ),
    }
}

fn find_ref_red(reds: &Vec<i64>, kinds: &Vec<Kind>, skip: usize) -> (out: Option<i64>)
    ensures
        out == ref_red(reds@, kinds@, 0, skip as nat),
{
    let mut left: usize = skip;
    let mut i: usize = 0;
    while i < reds.len() && i < kinds.len()
        invariant
            i <= reds@.len(),
            i <= kinds@.len(),
            ref_red(reds@, kinds@, 0, skip as nat) == ref_red(reds@, kinds@, i as int, left as nat),
        decreases reds@.len() - i,
    {
        if kinds[i] == Kind::Ref {
            if left == 0 {
                return Some(reds[i]);
            }
            left = left - 1;
        }
        i = i + 1;
    }
    None
}

fn find_reg(regs: &Vec<GuardResumeReg>, index: usize) -> (out: Option<GuardResumeReg>)
    ensures
        out == reg_named(regs@, index, 0),
{
    let mut i: usize = 0;
    while i < regs.len()
        invariant
            i <= regs@.len(),
            reg_named(regs@, index, 0) == reg_named(regs@, index, i as int),
        decreases regs@.len() - i,
    {
        let reg = regs[i];
        if reg.bank == Kind::Ref && reg.index as usize == index {
            return Some(reg);
        }
        i = i + 1;
    }
    None
}

fn find_symbol(regs: &Vec<GuardResumeReg>, live: i64) -> (opref: OpRef)
    ensures
        opref == live_symbol(regs@, live, 0),
{
    let mut i: usize = 0;
    while i < regs.len()
        invariant
            i <= regs@.len(),
            live_symbol(regs@, live, 0) == live_symbol(regs@, live, i as int),
        decreases regs@.len() - i,
    {
        let reg = regs[i];
        if reg.bank == Kind::Ref && reg.value == live && !reg.opref.is_constant() {
            return reg.opref;
        }
        i = i + 1;
    }
    OpRef::ConstPtr(GcRef(word_to_address(live)))
}

/// A machine word as an address.
#[verifier::truncate]
pub(crate) fn word_to_address(word: i64) -> (address: usize)
    ensures
        address == word as usize,
{
    word as usize
}

/// An address as a machine word.
#[verifier::truncate]
pub(crate) fn address_to_word(address: usize) -> (word: i64)
    ensures
        word == address as i64,
{
    address as i64
}

#[verifier::truncate]
fn bits_to_word(bits: u64) -> (word: i64)
    ensures
        word == bits as i64,
{
    bits as i64
}

#[verifier::truncate]
fn word_to_bits(word: i64) -> (bits: u64)
    ensures
        bits == word as u64,
{
    word as u64
}

fn reseat_frame(frame: &mut ResumeFrame, index: usize, live: i64, opref: OpRef)
    ensures
        final(frame)@ == (ResumeFrameView {
            regs: old(frame)@.regs.map_values(
                |r: GuardResumeReg| reseated(r, index, live, opref),
            ),
            ..old(frame)@
        }),
{
    let ghost before = frame.regs@;
    let count: usize = frame.regs.len();
    let mut i: usize = 0;
    while i < count
        invariant
            i <= count,
            count == frame.regs@.len(),
            before.len() == count,
            frame.code@ == old(frame).code@,
            frame.pc == old(frame).pc,
            forall|j: int|
                0 <= j < i ==> #[trigger] frame.regs@[j] == reseated(before[j], index, live, opref),
            forall|j: int| i <= j < count ==> #[trigger] frame.regs@[j] == before[j],
        decreases count - i,
    {
        let reg = frame.regs[i];
        if reg.bank == Kind::Ref && reg.index as usize == index {
            frame.regs.set(i, GuardResumeReg { value: live, opref, ..reg });
        }
        i = i + 1;
    }
    assert(frame.regs@ =~= before.map_values(|r: GuardResumeReg| reseated(r, index, live, opref)));
}

/// The words of a row of values.
pub open spec fn words_of(values: Seq<Value>) -> Seq<i64> {
    values.map_values(|v: Value| v.word())
}

/// The inputs of a trace, one per kind.
pub open spec fn inputs_of(kinds: Seq<Kind>) -> Seq<OpRef> {
    Seq::new(kinds.len(), |k: int| OpRef::InputArg { index: k as u32, kind: kinds[k] })
}

fn copy_words(words: &Vec<i64>) -> (out: Vec<i64>)
    ensures
        out@ == words@,
{
    let mut out: Vec<i64> = Vec::new();
    let mut i: usize = 0;
    while i < words.len()
        invariant
            i <= words@.len(),
            out@ == words@.subrange(0, i as int),
        decreases words@.len() - i,
    {
        out.push(words[i]);
        i = i + 1;
    }
    assert(words@.subrange(0, words@.len() as int) =~= words@);
    out
}

impl GrainJitState {
    /// The red image of the consultation now in progress.
    pub open spec fn live(self) -> Seq<i64> {
        self.reds@
    }

    /// The live frame's own fields.
    pub open spec fn statics(self) -> Seq<i64> {
        self.vable_statics@
    }

    /// Nothing published and nothing restored.
    pub fn new() -> (state: GrainJitState)
        ensures
            state.last_restored@.len() == 0,
            state.live().len() == 0,
            state.statics().len() == 0,
    {
        GrainJitState { last_restored: Vec::new(), reds: Vec::new(), vable_statics: Vec::new() }
    }

    /// Take what the last restore was handed.
    pub fn take_restored(&mut self) -> (values: Vec<i64>)
        ensures
            values@ == old(self).last_restored@,
            final(self).last_restored@.len() == 0,
            final(self).live() == old(self).live(),
            final(self).statics() == old(self).statics(),
    {
        let mut values: Vec<i64> = Vec::new();
        core::mem::swap(&mut self.last_restored, &mut values);
        values
    }

    /// Publish the red image and the frame fields the merge point was handed.
    pub fn publish_live(&mut self, env: &Vec<i64>, vable_statics: &Vec<i64>)
        ensures
            final(self).live() == env@,
            final(self).statics() == vable_statics@,
            final(self).last_restored == old(self).last_restored,
    {
        self.reds = copy_words(env);
        self.vable_statics = copy_words(vable_statics);
    }

    /// The live frame, as the first red names it.
    pub fn live_frame(&self) -> (address: Option<usize>)
        ensures
            address == (if self.live().len() > 0 {
                Some(self.live()[0] as usize)
            } else {
                None
            }),
    {
        if self.reds.len() > 0 {
            Some(word_to_address(self.reds[0]))
        } else {
            None
        }
    }

    /// The shape of the code a trace starts in. The merge point passes one
    /// value per declared red.
    pub fn build_meta(&self, header_pc: usize, env: &Vec<i64>, kinds: &Vec<Kind>) -> (meta:
        GrainMeta)
        requires
            env@.len() == kinds@.len(),
        ensures
            meta.header_pc == header_pc,
            meta.reds@ == env@,
    {
        GrainMeta { header_pc, reds: copy_words(env) }
    }

    /// The live values: those of this consultation, whatever the code was
    /// compiled against.
    pub fn extract_live(&self, meta: &GrainMeta) -> (values: Vec<i64>)
        ensures
            values@ == self.live(),
    {
        copy_words(&self.reds)
    }

    /// The live values, each read as its red's type.
    pub fn extract_live_values(&self, meta: &GrainMeta, kinds: &Vec<Kind>) -> (values: Vec<Value>)
        requires
            self.live().len() == kinds@.len(),
        ensures
            values@ == Seq::new(
                kinds@.len(),
                |i: int| Value::of_word(kinds@[i], self.live()[i]),
            ),
    {
        let mut values: Vec<Value> = Vec::new();
        let mut i: usize = 0;
        while i < kinds.len()
            invariant
                i <= kinds@.len(),
                self.reds@.len() == kinds@.len(),
                values@ == Seq::new(
                    i as nat,
                    |j: int| Value::of_word(kinds@[j], self.reds@[j]),
                ),
            decreases kinds@.len() - i,
        {
            let word: i64 = self.reds[i];
            let value = match kinds[i] {
                Kind::Int => Value::Int(word),
                Kind::Ref => Value::Ref(GcRef(word_to_address(word))),
                Kind::Float => Value::Float(word_to_bits(word)),
                Kind::Void => Value::Void,
            };
            values.push(value);
            i = i + 1;
            assert(values@ =~= Seq::new(
                i as nat,
                |j: int| Value::of_word(kinds@[j], self.reds@[j]),
            ));
        }
        values
    }

    /// The symbols a trace starts with: one input per red, in declaration
    /// order.
    pub fn create_sym(header_pc: usize, kinds: &Vec<Kind>) -> (sym: GrainSym)
        requires
            kinds@.len() <= u32::MAX,
        ensures
            sym.header_pc == header_pc,
            sym.reds@ == inputs_of(kinds@),
    {
        let mut reds: Vec<OpRef> = Vec::new();
        let mut k: usize = 0;
        while k < kinds.len()
            invariant
                k <= kinds@.len() <= u32::MAX,
                reds@ == inputs_of(kinds@).subrange(0, k as int),
            decreases kinds@.len() - k,
        {
            reds.push(OpRef::input_arg_typed(k as u32, kinds[k]));
            k = k + 1;
            assert(reds@ =~= inputs_of(kinds@).subrange(0, k as int));
        }
        assert(inputs_of(kinds@).subrange(0, kinds@.len() as int) =~= inputs_of(kinds@));
        GrainSym { header_pc, reds }
    }

    /// Whether compiled code expects as many live values as there are reds. A
    /// refusal is counted.
    pub fn is_compatible(&self, meta: &GrainMeta, kinds: &Vec<Kind>, counters: &mut Counters) -> (r:
        bool)
        requires
            old(counters).roomy(),
        ensures
            r == (meta.reds@.len() == kinds@.len()),
            *final(counters) == (if r {
                *old(counters)
            } else {
                bumped(*old(counters), Count::Refused)
            }),
    {
        let compatible = meta.reds.len() == kinds.len();
        if !compatible {
            counters.record_compiled_entry_refusal();
        }
        compatible
    }

    /// Where the frame is, asked for by its name.
    pub fn virtualizable_heap_ptr(&self, virtualizable: &str) -> (address: Option<usize>)
        ensures
            address == (if virtualizable@ == "frame"@ && self.live().len() > 0 {
                Some(self.live()[0] as usize)
            } else {
                None
            }),
    {
        if crate::text::same_text(virtualizable, "frame") {
            self.live_frame()
        } else {
            None
        }
    }

    /// The frame's own fields for a warm entry, where it is the frame that is
    /// asked for and as many fields are declared as were published. The frame
    /// has no array fields.
    pub fn export_virtualizable_boxes_into(
        &self,
        virtualizable: &str,
        declared: usize,
        statics: &mut Vec<i64>,
        arrays: &mut Vec<Vec<i64>>,
    ) -> (r: bool)
        ensures
            r == (virtualizable@ == "frame"@ && self.statics().len() == declared),
            r ==> final(statics)@ == self.statics() && final(arrays)@.len() == 0,
            !r ==> *final(statics) == *old(statics) && *final(arrays) == *old(arrays),
    {
        if !crate::text::same_text(virtualizable, "frame") || self.vable_statics.len()
            != declared {
            return false;
        }
        *statics = copy_words(&self.vable_statics);
        arrays.clear();
        true
    }

    /// Take the values compiled code left with, as words.
    pub fn restore(&mut self, values: &Vec<i64>)
        ensures
            final(self).last_restored@ == values@,
            final(self).live() == old(self).live(),
            final(self).statics() == old(self).statics(),
    {
        self.last_restored = copy_words(values);
    }

    /// Take the values compiled code left with.
    pub fn restore_values(&mut self, values: &Vec<Value>)
        ensures
            final(self).last_restored@ == words_of(values@),
            final(self).live() == old(self).live(),
            final(self).statics() == old(self).statics(),
    {
        let mut words: Vec<i64> = Vec::new();
        let mut i: usize = 0;
        while i < values.len()
            invariant
                i <= values@.len(),
                words@ == words_of(values@).subrange(0, i as int),
            decreases values@.len() - i,
        {
            let word: i64 = match values[i] {
                Value::Int(value) => value,
                Value::Ref(value) => address_to_word(value.0),
                Value::Float(bits) => bits_to_word(bits),
                Value::Void => 0,
            };
            words.push(word);
            i = i + 1;
            assert(words@ =~= words_of(values@).subrange(0, i as int));
        }
        assert(words_of(values@).subrange(0, values@.len() as int) =~= words_of(values@));
        self.last_restored = words;
    }

    /// Where a failure inside compiled code resumes: out of the frame, with
    /// nothing run twice.
    pub fn deliver_blackhole_exception(&self) -> (pc: Option<usize>)
        ensures
            pc == Some(usize::MAX),
    {
        Some(usize::MAX)
    }

    /// Bind the register reserved for the machine to the live one, in the
    /// frames a bridge starts from.
    pub fn rebind_bridge_reds(
        &self,
        frames: &mut Vec<ResumeFrame>,
        kinds: &Vec<Kind>,
        header_pc: Option<usize>,
    )
        ensures
            frame_views(final(frames)@) == rebound(
                self.live(),
                kinds@,
                header_pc,
                frame_views(old(frames)@),
            ),
    {
        let ghost before = frame_views(frames@);
        let live: i64 = match find_ref_red(&self.reds, kinds, 1) {
            Some(live) => live,
            None => {
                return;
            },
        };
        let header_pc: usize = match header_pc {
            Some(pc) => pc,
            None => {
                return;
            },
        };
        if frames.len() == 0 {
            return;
        }
        assert(before[0] == frames@[0]@);
        let index: usize = match merge_point_slot_regs(&frames[0].code, header_pc) {
            Some(lists) => {
                assert(list_views(lists@)[4] == lists@[4]@);
                if lists[4].len() > 1 {
                    lists[4][1]
                } else {
                    return;
                }
            },
            None => {
                return;
            },
        };
        let slot = match find_reg(&frames[0].regs, index) {
            Some(slot) => slot,
            None => {
                return;
            },
        };
        if slot.value == live && !slot.opref.is_constant() {
            return;
        }
        if self.reds.len() > 0 && self.reds[0] == slot.value {
            return;
        }
        let opref = find_symbol(&frames[0].regs, live);
        let ghost change = |f: ResumeFrameView|
            GuardResumeFrame {
                regs: f.regs.map_values(|r: GuardResumeReg| reseated(r, index, live, opref)),
                ..f
            };
        let count: usize = frames.len();
        let mut i: usize = 0;
        while i < count
            invariant
                i <= count,
                count == frames@.len(),
                before.len() == count,
                change == (|f: ResumeFrameView|
                    GuardResumeFrame {
                        regs: f.regs.map_values(
                            |r: GuardResumeReg| reseated(r, index, live, opref),
                        ),
                        ..f
                    }),
                forall|j: int| 0 <= j < i ==> (#[trigger] frames@[j])@ == change(before[j]),
                forall|j: int| i <= j < count ==> (#[trigger] frames@[j])@ == before[j],
            decreases count - i,
        {
            reseat_frame(&mut frames[i], index, live, opref);
            assert(frames@[i as int]@ =~= change(before[i as int]));
            i = i + 1;
        }
        assert(frame_views(frames@) =~= before.map_values(change));
    }
}

impl GrainSym {
    /// The reds are operands of the merge point, not slots of a field bank.
    pub fn total_slots(&self) -> (n: usize)
        ensures
            n == 0,
    {
        0
    }

    /// Where the loop begins.
    pub fn loop_header_pc(&self) -> (pc: usize)
        ensures
            pc == self.header_pc,
    {
        self.header_pc
    }

    /// The symbols the closing jump carries, each with its type: as many as
    /// there are of both.
    pub fn loop_carried_boxes(&self, kinds: &Vec<Kind>) -> (boxes: Vec<(OpRef, Kind)>)
        ensures
            boxes@ == Seq::new(
                vstd::math::min(self.reds@.len() as int, kinds@.len() as int) as nat,
                |i: int| (self.reds@[i], kinds@[i]),
            ),
    {
        let mut boxes: Vec<(OpRef, Kind)> = Vec::new();
        let mut i: usize = 0;
        while i < self.reds.len() && i < kinds.len()
            invariant
                i <= self.reds@.len(),
                i <= kinds@.len(),
                boxes@ == Seq::new(i as nat, |j: int| (self.reds@[j], kinds@[j])),
            decreases self.reds@.len() - i,
        {
            boxes.push((self.reds[i], kinds[i]));
            i = i + 1;
            assert(boxes@ =~= Seq::new(i as nat, |j: int| (self.reds@[j], kinds@[j])));
        }
        boxes
    }

    /// The symbols a jump carries.
    pub fn collect_jump_args(&self) -> (args: Vec<OpRef>)
        ensures
            args@ == self.reds@,
    {
        let mut args: Vec<OpRef> = Vec::new();
        let mut i: usize = 0;
        while i < self.reds.len()
            invariant
                i <= self.reds@.len(),
                args@ == self.reds@.subrange(0, i as int),
            decreases self.reds@.len() - i,
        {
            args.push(self.reds[i]);
            i = i + 1;
        }
        assert(self.reds@.subrange(0, self.reds@.len() as int) =~= self.reds@);
        args
    }

    /// The symbols a jump carries, with the frame's own fields. The last box
    /// is the frame itself, which a red already names.
    pub fn collect_jump_args_with_boxes(&self, boxes: &Vec<(OpRef, Kind)>) -> (args: Vec<OpRef>)
        ensures
            args@ == self.reds@ + jump_fields(boxes@),
    {
        let mut args = self.collect_jump_args();
        if boxes.len() == 0 {
            assert(args@ =~= self.reds@ + jump_fields(boxes@));
            return args;
        }
        let fields: usize = boxes.len() - 1;
        let mut i: usize = 0;
        assert(args@ =~= self.reds@ + jump_fields(boxes@).subrange(0, 0));
        while i < fields
            invariant
                i <= fields,
                fields == boxes@.len() - 1,
                args@ == self.reds@ + jump_fields(boxes@).subrange(0, i as int),
            decreases fields - i,
        {
            args.push(boxes[i].0);
            i = i + 1;
            assert(args@ =~= self.reds@ + jump_fields(boxes@).subrange(0, i as int));
        }
        assert(args@ =~= self.reds@ + jump_fields(boxes@));
        args
    }

    /// Whether a loop may close: there is a symbol for every red.
    pub fn validate_close(&self, kinds: &Vec<Kind>) -> (r: bool)
        ensures
            r == (self.reds@.len() == kinds@.len()),
    {
        self.reds.len() == kinds.len()
    }
}

/// The symbols of the frame's own fields among its boxes: all but the last.
pub open spec fn jump_fields(boxes: Seq<(OpRef, Kind)>) -> Seq<OpRef> {
    if boxes.len() == 0 {
        Seq::empty()
    } else {
        Seq::new((boxes.len() - 1) as nat, |i: int| boxes[i].0)
    }
}

/// Rebinding touches nothing but the register reserved for the machine.
pub proof fn rebinding_keeps_other_registers(
    reds: Seq<i64>,
    kinds: Seq<Kind>,
    header_pc: Option<usize>,
    frames: Seq<ResumeFrameView>,
    f: int,
    r: int,
)
    requires
        0 <= f < frames.len(),
        0 <= r < frames[f].regs.len(),
    ensures
        rebound(reds, kinds, header_pc, frames).len() == frames.len(),
        rebound(reds, kinds, header_pc, frames)[f].regs.len() == frames[f].regs.len(),
        match rebinding(reds, kinds, header_pc, frames) {
            Some((index, live, opref)) => if frames[f].regs[r].bank == Kind::Ref
                && frames[f].regs[r].index == index {
                rebound(reds, kinds, header_pc, frames)[f].regs[r].value == live
            } else {
                rebound(reds, kinds, header_pc, frames)[f].regs[r] == frames[f].regs[r]
            },
            None => rebound(reds, kinds, header_pc, frames) == frames,
        },
{
}

/// A register that already holds the live machine by a symbol of the trace
/// lends that symbol: no address is compiled into the bridge.
pub proof fn live_symbol_is_kept(regs: Seq<GuardResumeReg>, live: i64, i: int, at: int)
    requires
        0 <= i <= at < regs.len(),
        regs[at].bank == Kind::Ref,
        regs[at].value == live,
        !regs[at].opref.constant(),
    ensures
        !live_symbol(regs, live, i).constant(),
        exists|j: int|
            i <= j < regs.len() && regs[j].value == live && #[trigger] regs[j].opref == live_symbol(
                regs,
                live,
                i,
            ),
    decreases at - i,
{
    if regs[i].bank == Kind::Ref && regs[i].value == live && !regs[i].opref.constant() {
        assert(regs[i].opref == live_symbol(regs, live, i));
    } else {
        live_symbol_is_kept(regs, live, i + 1, at);
        let j = choose|j: int|
            i + 1 <= j < regs.len() && regs[j].value == live && #[trigger] regs[j].opref
                == live_symbol(regs, live, i + 1);
        assert(regs[j].opref == live_symbol(regs, live, i));
    }
}

/// Forwarding a reference twice does what forwarding it once does.
pub proof fn forwarding_settles(reg: GuardResumeReg, stale: i64, live: i64)
    ensures
        forwarded(forwarded(reg, stale, live), stale, live) == forwarded(reg, stale, live),
        forwarded(reg, stale, stale) == reg,
{
}

} // verus!
