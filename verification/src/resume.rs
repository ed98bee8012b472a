//! Rebuilding the frames a failed guard left, from the numbering that was
//! recorded for it.
use vstd::prelude::*;

use crate::jit_state::Kind;

verus! {

/// A type, as `majit_ir` has it.
#[verifier::external_type_specification]
#[verifier::external_body]
pub struct ExMajitType(majit_ir::Type);

/// A rebuilt value, as `majit_ir` has it.
#[verifier::external_type_specification]
#[verifier::external_body]
pub struct ExRebuiltValue(majit_ir::resumedata::RebuiltValue);

/// A value a guard left behind.
#[derive(Clone, Copy, Debug, PartialEq, Eq, Structural)]
pub enum Rebuilt {
    /// What the failing exit left in this slot.
    Slot(usize),
    /// A constant, with its type.
    Const(i64, Kind),
    /// A small integer.
    Int(i32),
    /// A virtual object, by number.
    Virtual(usize),
    /// Nothing was assigned.
    Unassigned,
}

/// A frame a guard left behind: its code, where it stood and its values.
#[derive(Debug)]
pub struct RebuiltFrame {
    pub jitcode_index: i32,
    pub pc: i32,
    pub values: Vec<Rebuilt>,
}

// ---------------------------------------------------------------------------
// Numberings.

/// The number a stored one stands for: even ones are not negative.
pub open spec fn unfolded(n: int) -> int {
    if n % 2 == 0 {
        n / 2
    } else {
        -(n + 1) / 2
    }
}

/// The item written at `at`, in one to three bytes, and where the next one
/// starts. Nothing where the bytes run out.
pub open spec fn item_at(numb: Seq<u8>, at: int) -> Option<(int, int)> {
    if at >= numb.len() {
        None
    } else if numb[at] < 128 {
        Some((unfolded(numb[at] as int), at + 1))
    } else if at + 1 >= numb.len() {
        None
    } else if numb[at + 1] < 128 {
        Some((unfolded(numb[at] - 128 + 128 * numb[at + 1]), at + 2))
    } else if at + 2 >= numb.len() {
        None
    } else {
        Some(
            (
                unfolded(numb[at] - 128 + 128 * (numb[at + 1] - 128) + 16384 * numb[at + 2]),
                at + 3,
            ),
        )
    }
}

/// The items from `at` to the end, or nothing where the last is cut off.
pub open spec fn items_from(numb: Seq<u8>, at: int) -> Option<Seq<int>>
    decreases numb.len() - at,
{
    if at >= numb.len() {
        Some(Seq::empty())
    } else {
        match item_at(numb, at) {
            None => None,
            Some((item, next)) => match items_from(numb, next) {
                None => None,
                Some(rest) => Some(seq![item] + rest),
            },
        }
    }
}

/// The items of bytes that are whole items.
pub open spec fn items_of(numb: Seq<u8>) -> Seq<int> {
    items_from(numb, 0)->0
}

pub open spec fn at_least_none(n: int) -> int {
    if n < 0 {
        0
    } else {
        n
    }
}

/// Whether some items are a numbering: its size, how many arguments failed,
/// a row of the frame's own values and the length of a row of references.
pub open spec fn is_numbering(items: Seq<int>) -> bool {
    items.len() >= 4 && 3 + at_least_none(items[2]) < items.len()
}

/// How many of the frame's own values a numbering holds.
pub open spec fn own_values(items: Seq<int>) -> int {
    at_least_none(items[2])
}

/// How many references it holds: two for each that is announced, or all that
/// are left.
pub open spec fn references(items: Seq<int>) -> int {
    let from = 4 + own_values(items);
    let announced = 2 * at_least_none(items[from - 1]);
    if announced < items.len() - from {
        announced
    } else {
        items.len() - from
    }
}

/// Whether a section for a frame follows within the announced size.
pub open spec fn has_frame(items: Seq<int>) -> bool {
    let read = 4 + own_values(items) + references(items);
    read < items.len() && (items[0] < 0 || read < items[0])
}

/// A number kept in sixteen bits, the top one its sign.
pub open spec fn sixteen_bits(n: int) -> int {
    if n % 0x1_0000 < 0x8000 {
        n % 0x1_0000
    } else {
        n % 0x1_0000 - 0x1_0000
    }
}

/// A number kept in a word without a sign.
pub open spec fn unsigned_word(n: int) -> int {
    if n < 0 {
        n + usize::MAX + 1
    } else {
        n
    }
}

/// The value an item stands for. Its lowest two bits tell what the others are:
/// the index of a constant, a small integer, a slot, which is counted from the
/// end of the failed arguments when negative, or the number of a virtual.
pub open spec fn rebuilt(item: int, failed: int, consts: Seq<(i64, Kind)>) -> Rebuilt {
    let tagged = sixteen_bits(item);
    let value = tagged / 4;
    if tagged % 4 == 1 {
        Rebuilt::Int(value as i32)
    } else if tagged % 4 == 2 {
        Rebuilt::Slot(
            if value < 0 {
                unsigned_word(value + failed) as usize
            } else {
                value as usize
            },
        )
    } else if tagged % 4 == 3 {
        Rebuilt::Virtual(unsigned_word(value) as usize)
    } else if value == -1 {
        Rebuilt::Const(0, Kind::Ref)
    } else if value == -2 {
        Rebuilt::Unassigned
    } else if 0 <= value < consts.len() {
        Rebuilt::Const(consts[value].0, consts[value].1)
    } else {
        Rebuilt::Const(0, Kind::Int)
    }
}

/// The values of the items from `from` up to `to`.
pub open spec fn rebuilt_row(items: Seq<int>, consts: Seq<(i64, Kind)>, from: int, to: int) -> Seq<
    Rebuilt,
> {
    Seq::new(
        if from < to {
            (to - from) as nat
        } else {
            0
        },
        |i: int| rebuilt(items[from + i], items[1], consts),
    )
}

/// The frame's own values.
pub open spec fn own_row(items: Seq<int>, consts: Seq<(i64, Kind)>) -> Seq<Rebuilt> {
    rebuilt_row(items, consts, 3, 3 + own_values(items))
}

/// The references.
pub open spec fn reference_row(items: Seq<int>, consts: Seq<(i64, Kind)>) -> Seq<Rebuilt> {
    let from = 4 + own_values(items);
    rebuilt_row(items, consts, from, from + references(items))
}

/// Where the items of a frame end: at the announced size, or with the items.
pub open spec fn frame_end(items: Seq<int>) -> int {
    if 0 <= items[0] < items.len() {
        items[0]
    } else {
        items.len() as int
    }
}

/// Whether `frame` is the one a numbering holds. Its code and where it stood come
/// first, and no position is the first one.
pub open spec fn is_frame_of(
    frame: RebuiltFrame,
    items: Seq<int>,
    consts: Seq<(i64, Kind)>,
) -> bool {
    let from = 4 + own_values(items) + references(items);
    &&& frame.jitcode_index == items[from]
    &&& frame.pc == (if from + 1 < items.len() {
        items[from + 1]
    } else {
        0
    })
    &&& frame.values@ == rebuilt_row(items, consts, from + 2, frame_end(items))
}

/// `majit_ir::resumedata::rebuild_from_numbering`, on types of this library.
///
/// Claims how many arguments failed; which values of the frame and which
/// references come out, each the one its item stands for; and whether a frame
/// does, and which: there is one where items are left after those rows within
/// the announced size. The call reads past the end of bytes that are no
/// numbering, so those are left out.
#[verifier::external_body]
fn rebuild_from_numbering(numb: &[u8], consts: &[(i64, Kind)]) -> (out: (
    i32,
    Vec<Rebuilt>,
    Vec<Rebuilt>,
    Vec<RebuiltFrame>,
))
    requires
        items_from(numb@, 0) matches Some(items) && is_numbering(items),
    ensures
        out.0 == items_of(numb@)[1],
        out.1@ == own_row(items_of(numb@), consts@),
        out.2@ == reference_row(items_of(numb@), consts@),
        out.3@.len() == (if has_frame(items_of(numb@)) {
            1nat
        } else {
            0
        }),
        has_frame(items_of(numb@)) ==> is_frame_of(out.3@[0], items_of(numb@), consts@),
{
    let consts: Vec<_> = consts.iter().map(|c| (c.0, majit_type(c.1))).collect();
    let (failed, own, references, frames) = majit_ir::resumedata::rebuild_from_numbering(
        numb,
        &consts,
    );
    let frame = |f: majit_ir::resumedata::RebuiltFrame| RebuiltFrame {
        jitcode_index: f.jitcode_index,
        pc: f.pc,
        values: f.values.into_iter().map(rebuilt_value).collect(),
    };
    let own = own.into_iter().map(rebuilt_value).collect();
    let references = references.into_iter().map(rebuilt_value).collect();
    (failed, own, references, frames.into_iter().map(frame).collect())
}

/// `majit_ir::Type`, by its variants. What comes out is opaque, so nothing is
/// said of it.
#[verifier::external_body]
fn majit_type(kind: Kind) -> (out: majit_ir::Type) {
    match kind {
        Kind::Int => majit_ir::Type::Int,
        Kind::Ref => majit_ir::Type::Ref,
        Kind::Float => majit_ir::Type::Float,
        Kind::Void => majit_ir::Type::Void,
    }
}

/// The variants of `majit_ir::Type`, as types of this library. What goes in is
/// opaque, so nothing is said of the result.
#[verifier::external_body]
fn kind_of(tp: majit_ir::Type) -> (out: Kind) {
    match tp {
        majit_ir::Type::Int => Kind::Int,
        majit_ir::Type::Ref => Kind::Ref,
        majit_ir::Type::Float => Kind::Float,
        majit_ir::Type::Void => Kind::Void,
    }
}

/// The variants of `majit_ir::resumedata::RebuiltValue`, as values of this
/// library. What goes in is opaque, so nothing is said of the result.
#[verifier::external_body]
fn rebuilt_value(value: majit_ir::resumedata::RebuiltValue) -> (out: Rebuilt) {
    match value {
        majit_ir::resumedata::RebuiltValue::Box(slot) => Rebuilt::Slot(slot),
        majit_ir::resumedata::RebuiltValue::Const(word, tp) => Rebuilt::Const(word, kind_of(tp)),
        majit_ir::resumedata::RebuiltValue::Int(n) => Rebuilt::Int(n),
        majit_ir::resumedata::RebuiltValue::Virtual(number) => Rebuilt::Virtual(number),
        majit_ir::resumedata::RebuiltValue::Unassigned => Rebuilt::Unassigned,
    }
}

/// What a guard recorded: its numbering and its constants.
#[derive(Debug)]
pub struct ResumeStorage {
    pub rd_numb: Vec<u8>,
    pub rd_consts: Vec<(i64, Kind)>,
}

impl ResumeStorage {
    /// Whether the numbering can be read.
    pub open spec fn readable(self) -> bool {
        items_from(self.rd_numb@, 0) matches Some(items) && is_numbering(items)
    }

    /// Whether the numbering can be read.
    pub fn is_readable(&self) -> (r: bool)
        ensures
            r == self.readable(),
    {
        match read_items(&self.rd_numb) {
            None => false,
            Some(items) => {
                if items.len() < 4 {
                    return false;
                }
                let own: i64 = items[2];
                own < 0 || (own as u64) < (items.len() - 3) as u64
            },
        }
    }
}

/// What a guard left, rebuilt: how many arguments failed, the frame's own
/// values, the references and the frames, with the types of the arguments.
pub struct ResumeData {
    pub num_failargs: i32,
    pub virtualizable_values: Vec<Rebuilt>,
    pub virtualref_values: Vec<Rebuilt>,
    pub frames: Vec<RebuiltFrame>,
    pub fail_arg_types: Vec<Kind>,
}

pub open spec fn item_views(items: Seq<i64>) -> Seq<int> {
    Seq::new(items.len(), |i: int| items[i] as int)
}

fn unfold(n: i64) -> (out: i64)
    requires
        0 <= n < 0x100_0000,
    ensures
        out == unfolded(n as int),
{
    if n % 2 == 0 {
        n / 2
    } else {
        -((n + 1) / 2)
    }
}

/// The items of a numbering.
fn read_items(numb: &Vec<u8>) -> (out: Option<Vec<i64>>)
    ensures
        (match out {
            Some(items) => Some(item_views(items@)),
            None => None,
        }) == items_from(numb@, 0),
{
    let mut items: Vec<i64> = Vec::new();
    let mut at: usize = 0;
    let len: usize = numb.len();
    assert(items_from(numb@, 0) == prefixed(item_views(items@), items_from(numb@, 0))) by {
        if let Some(rest) = items_from(numb@, 0) {
            assert(item_views(items@) + rest =~= rest);
        }
    }
    while at < len
        invariant
            at <= len == numb@.len(),
            items_from(numb@, 0) == prefixed(item_views(items@), items_from(numb@, at as int)),
        decreases len - at,
    {
        let ghost before = item_views(items@);
        let ghost start = at as int;
        let first: i64 = numb[at] as i64;
        let item: i64;
        if first < 128 {
            item = unfold(first);
            at = at + 1;
        } else {
            if len - at < 2 {
                return None;
            }
            let second: i64 = numb[at + 1] as i64;
            if second < 128 {
                item = unfold(first - 128 + 128 * second);
                at = at + 2;
            } else {
                if len - at < 3 {
                    return None;
                }
                let third: i64 = numb[at + 2] as i64;
                item = unfold(first - 128 + 128 * (second - 128) + 16384 * third);
                at = at + 3;
            }
        }
        assert(item_at(numb@, start) == Some((item as int, at as int)));
        items.push(item);
        proof {
            assert(item_views(items@) =~= before.push(item as int));
            if let Some(rest) = items_from(numb@, at as int) {
                assert(before + (seq![item as int] + rest) =~= before.push(item as int) + rest);
            }
        }
    }
    assert(item_views(items@) + Seq::<int>::empty() =~= item_views(items@));
    Some(items)
}

/// Items put before the rest, if there is a rest.
spec fn prefixed(items: Seq<int>, rest: Option<Seq<int>>) -> Option<Seq<int>> {
    match rest {
        Some(rest) => Some(items + rest),
        None => None,
    }
}

fn copy_kinds(kinds: &Vec<Kind>) -> (out: Vec<Kind>)
    ensures
        out@ == kinds@,
{
    let mut out: Vec<Kind> = Vec::new();
    let mut i: usize = 0;
    while i < kinds.len()
        invariant
            i <= kinds@.len(),
            out@ == kinds@.subrange(0, i as int),
        decreases kinds@.len() - i,
    {
        out.push(kinds[i]);
        i = i + 1;
    }
    assert(kinds@.subrange(0, kinds@.len() as int) =~= kinds@);
    out
}

/// What a guard left, rebuilt, where it recorded anything and a frame comes out
/// of it.
pub fn rebuild_from_resumedata(storage: Option<&ResumeStorage>, fail_arg_types: &Vec<Kind>) -> (out:
    Option<ResumeData>)
    requires
        storage matches Some(storage) ==> storage.readable(),
    ensures
        match storage {
            None => out is None,
            Some(storage) => {
                let items = items_of(storage.rd_numb@);
                let consts = storage.rd_consts@;
                &&& out is Some == has_frame(items)
                &&& out matches Some(data) ==> {
                    &&& data.num_failargs == items[1]
                    &&& data.virtualizable_values@ == own_row(items, consts)
                    &&& data.virtualref_values@ == reference_row(items, consts)
                    &&& data.frames@.len() == 1
                    &&& is_frame_of(data.frames@[0], items, consts)
                    &&& data.fail_arg_types@ == fail_arg_types@
                }
            },
        },
{
    match storage {
        None => None,
        Some(storage) => {
            let (num_failargs, virtualizable_values, virtualref_values, frames) =
                rebuild_from_numbering(storage.rd_numb.as_slice(), storage.rd_consts.as_slice());
            if frames.len() == 0 {
                return None;
            }
            Some(
                ResumeData {
                    num_failargs,
                    virtualizable_values,
                    virtualref_values,
                    frames,
                    fail_arg_types: copy_kinds(fail_arg_types),
                },
            )
        },
    }
}

} // verus!
