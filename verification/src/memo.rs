//! What operator and call sites resolved to, the last time they ran.
//!
//! A site that ran once will most likely run again on operands of the same
//! kinds. An entry is readable only by the frame that wrote it and only for
//! the site and the kinds it was written for, so an entry left by another
//! frame can never be mistaken for a hit.
use vstd::prelude::*;

use crate::value::{code_of, type_code, Data, Datum, Dynamic};

verus! {

/// How many operator sites the memo holds at once.
pub const OPERATOR_MEMO_SLOTS: usize = 16;

/// How many call sites the memo holds at once.
pub const CALL_MEMO_SLOTS: usize = 16;

/// A built-in the host keeps, and whether it wants the caller's context.
#[derive(Clone, Copy, Debug, PartialEq, Eq, Structural)]
pub struct BuiltinFn {
    pub handle: u64,
    pub context: bool,
}

/// What an operator site resolved to.
#[derive(Clone, Copy, Debug, PartialEq, Eq, Structural)]
pub struct OperatorMemo {
    /// Which frame wrote it.
    pub generation: u64,
    /// The instruction's address.
    pub at: u32,
    /// The kinds of the operand pair it was resolved against.
    pub operands: u16,
    /// The built-in's handle, or that there is none.
    pub resolved: Option<BuiltinFn>,
}

/// What a call site resolved to.
#[derive(Clone, Copy, Debug, PartialEq, Eq, Structural)]
pub struct CallMemo {
    /// Which frame made it.
    pub generation: u64,
    /// The name pool index of its site, and that site's argument count.
    pub name: u32,
    pub argc: u8,
    /// The argument kinds it resolved against.
    pub args: u32,
    /// How many modules were imported.
    pub imports: usize,
    /// What the resolution gave, or that the site goes the ordinary way.
    pub resolved: Option<u64>,
}
impl OperatorMemo {
    /// An entry no lookup can hit: no frame has the number zero.
    pub open spec fn unused() -> OperatorMemo {
        OperatorMemo { generation: 0, at: 0, operands: 0, resolved: None }
    }

    /// An entry no lookup can hit.
    pub fn empty() -> (memo: OperatorMemo)
        ensures
            memo == OperatorMemo::unused(),
    {
        OperatorMemo { generation: 0, at: 0, operands: 0, resolved: None }
    }

    /// Whether this entry is the one a lookup is asking for.
    pub open spec fn hit(self, generation: u64, at: usize, operands: u16) -> bool {
        generation != 0 && self.generation == generation && self.at == at && self.operands
            == operands
    }

    /// Whether this entry is the one a lookup is asking for.
    pub fn answers(&self, generation: u64, at: usize, operands: u16) -> (r: bool)
        ensures
            r == self.hit(generation, at, operands),
    {
        generation != 0 && self.generation == generation && self.at as usize == at && self.operands
            == operands
    }
}

impl CallMemo {
    /// Whether this entry is the one a lookup is asking for.
    pub open spec fn hit(
        self,
        generation: u64,
        name: u32,
        argc: int,
        args: u32,
        imports: int,
    ) -> bool {
        generation != 0 && self.generation == generation && self.name == name && self.argc == argc
            && self.args == args && self.imports == imports
    }

    /// Whether this entry is the one a lookup is asking for.
    pub fn answers(
        &self,
        generation: u64,
        name: u32,
        argc: usize,
        args: u32,
        imports: usize,
    ) -> (r: bool)
        ensures
            r == self.hit(generation, name, argc as int, args, imports as int),
    {
        generation != 0 && self.generation == generation && self.name == name && self.argc as usize
            == argc && self.args == args && self.imports == imports
    }
}

/// Whether every entry was written by a frame numbered no higher than `last`.
#[verifier::opaque]
pub open spec fn memos_stamped(
    operators: Seq<OperatorMemo>,
    calls: Seq<Option<CallMemo>>,
    last: u64,
) -> bool {
    &&& forall|i: int|
        0 <= i < operators.len() ==> (#[trigger] operators[i]).generation <= last
    &&& forall|i: int|
        0 <= i < calls.len() ==> ((#[trigger] calls[i]) matches Some(memo) ==> memo.generation
            <= last)
}

/// An empty table of operator sites.
pub fn empty_operator_memo() -> (table: Vec<OperatorMemo>)
    ensures
        table@ == Seq::new(OPERATOR_MEMO_SLOTS as nat, |i: int| OperatorMemo::unused()),
{
    let mut table: Vec<OperatorMemo> = Vec::new();
    while table.len() < OPERATOR_MEMO_SLOTS
        invariant
            table@.len() <= OPERATOR_MEMO_SLOTS,
            forall|i: int| 0 <= i < table@.len() ==> #[trigger] table@[i] == OperatorMemo::unused(),
        decreases OPERATOR_MEMO_SLOTS - table.len(),
    {
        table.push(OperatorMemo::empty());
    }
    assert(table@ =~= Seq::new(OPERATOR_MEMO_SLOTS as nat, |i: int| OperatorMemo::unused()));
    table
}

/// An empty table of call sites.
pub fn empty_call_memo() -> (table: Vec<Option<CallMemo>>)
    ensures
        table@ == Seq::new(CALL_MEMO_SLOTS as nat, |i: int| None::<CallMemo>),
{
    let mut table: Vec<Option<CallMemo>> = Vec::new();
    while table.len() < CALL_MEMO_SLOTS
        invariant
            table@.len() <= CALL_MEMO_SLOTS,
            forall|i: int| 0 <= i < table@.len() ==> #[trigger] table@[i] == None::<CallMemo>,
        decreases CALL_MEMO_SLOTS - table.len(),
    {
        table.push(None);
    }
    assert(table@ =~= Seq::new(CALL_MEMO_SLOTS as nat, |i: int| None::<CallMemo>));
    table
}

/// The kinds of an operand pair in one number, the left one high.
pub open spec fn pair_code(lhs: Data, rhs: Data) -> u16 {
    (256 * code_of(lhs) + code_of(rhs)) as u16
}

/// The kinds of an operand pair in one number.
pub fn operand_codes(lhs: &Dynamic, rhs: &Dynamic) -> (code: u16)
    ensures
        code == pair_code(lhs@.data, rhs@.data),
{
    256 * (type_code(lhs) as u16) + type_code(rhs) as u16
}

/// Which slot a call site's entry lives in.
pub open spec fn call_slot(name: u32, argc: usize) -> usize {
    (name as usize ^ argc) & 15
}

/// Which slot a call site's entry lives in.
pub fn call_memo_slot(name: u32, argc: usize) -> (slot: usize)
    ensures
        slot == call_slot(name, argc),
        slot < CALL_MEMO_SLOTS,
{
    let mixed: usize = name as usize ^ argc;
    assert(mixed & 15 < 16) by (bit_vector);
    mixed & 15
}

/// The kinds of a row of arguments, four bits each and the first lowest.
pub open spec fn packed(args: Seq<Datum>) -> nat
    decreases args.len(),
{
    if args.len() == 0 {
        0
    } else {
        code_of(args[0].data) as nat + 16 * packed(args.skip(1))
    }
}

/// What a call's arguments are remembered by: nothing for a call with more
/// than eight, or with one whose kind does not decide its type.
pub open spec fn codes_of(args: Seq<Datum>) -> Option<u32> {
    if args.len() > 8 || exists|i: int| 0 <= i < args.len()
        && #[trigger] code_of(args[i].data) == 0 {
        None
    } else {
        Some(packed(args) as u32)
    }
}

/// What a call's arguments are remembered by.
pub fn arg_codes(args: &Vec<Dynamic>) -> (codes: Option<u32>)
    ensures
        codes == codes_of(crate::value::all_views(args@)),
{
    let ghost row = crate::value::all_views(args@);
    if args.len() > 8 {
        return None;
    }
    let mut code: u64 = 0;
    let mut i: usize = args.len();
    let ghost mut bound: int = 1;
    assert(row.skip(args@.len() as int) =~= Seq::<Datum>::empty());
    while i > 0
        invariant
            i <= args@.len() <= 8,
            row == crate::value::all_views(args@),
            code == packed(row.skip(i as int)),
            code < bound,
            bound == sixteens((args@.len() - i) as nat),
            forall|j: int| i <= j < row.len() ==> #[trigger] code_of(row[j].data) != 0,
        decreases i,
    {
        proof {
            sixteens_small((args@.len() - i) as nat);
        }
        i = i - 1;
        let kind: u8 = type_code(&args[i]);
        assert(row[i as int] == args@[i as int]@);
        if kind == 0 {
            assert(code_of(row[i as int].data) == 0);
            return None;
        }
        assert(row.skip(i as int).skip(1) =~= row.skip(i + 1));
        code = kind as u64 + 16 * code;
        proof {
            bound = 16 * bound;
        }
    }
    assert(row.skip(0) =~= row);
    proof {
        sixteens_small(args@.len() as nat);
    }
    Some(code as u32)
}

/// Sixteen multiplied `n` times.
spec fn sixteens(n: nat) -> int
    decreases n,
{
    if n == 0 {
        1
    } else {
        16 * sixteens((n - 1) as nat)
    }
}

proof fn sixteens_small(n: nat)
    requires
        n <= 8,
    ensures
        1 <= sixteens(n) <= 0x1_0000_0000,
        sixteens(n + 1) == 16 * sixteens(n),
{
    reveal_with_fuel(sixteens, 9);
}

/// Two calls remembered by the same number have arguments of the same kinds.
pub proof fn codes_tell_kinds(a: Seq<Datum>, b: Seq<Datum>)
    requires
        a.len() == b.len(),
        packed(a) == packed(b),
    ensures
        forall|i: int| 0 <= i < a.len() ==> code_of(a[i].data) == code_of(b[i].data),
    decreases a.len(),
{
    if a.len() > 0 {
        assert(code_of(a[0].data) < 16 && code_of(b[0].data) < 16);
        codes_tell_kinds(a.skip(1), b.skip(1));
        assert forall|i: int| 0 <= i < a.len() implies code_of(a[i].data) == code_of(
            b[i].data,
        ) by {
            if i > 0 {
                assert(a[i] == a.skip(1)[i - 1]);
                assert(b[i] == b.skip(1)[i - 1]);
            }
        }
    }
}

/// A frame reads back only what it wrote itself: an entry with another
/// frame's number, another site or other kinds is never a hit.
pub proof fn memo_hits_are_own(
    memo: CallMemo,
    generation: u64,
    name: u32,
    argc: int,
    args: u32,
    imports: int,
)
    requires
        memo.generation != generation || memo.name != name || memo.argc != argc || memo.args != args
            || memo.imports != imports,
    ensures
        !memo.hit(generation, name, argc, args, imports),
{
}

} // verus!
