//! What compiled code calls back for.
//!
//! Compiled code passes and takes single machine words, so a helper says what
//! it has to say in the error it returns, in what it leaves on the operand
//! stack, and in [`Held`], which the next helper reads.
use vstd::prelude::*;

use crate::arith::{applied, applied_view, apply_binary, arithmetic, int_assign, Applied, BinOpKind};
use crate::assign::{
    assign_name, assign_text, assigned_named, host_assigned, loaded_named, pair, stored_through,
};
use crate::bytecode::{
    decode, decoded, dword, u16_at, u32_at, width_of, word, Op, Receiver, Shape, Source,
};
use crate::call::{called, called_by_reference, levels_left};
use crate::chain::chain_ran;
use crate::element::advanced;
use crate::error::{fail, raised, Error, Fail, FailureKind};
use crate::frame::{below, cut};
use crate::heap::{flat_copy, flattened, readable};
use crate::host::{reply_value, value_of, Ask, Reply};
use crate::machine::{
    asked, asked_value, counted, popped, question, text_view, Items, Iteration, Machine, Vm,
};
use crate::merge::GrainFrame;
use crate::ops::{
    declared_mode, did_assign_local, did_make_closure, did_share_named, did_store_local,
};
use crate::position::{nowhere, Position};
use crate::program::{AssignOp, Chain, Program, Switch};
use crate::scope::{declared, found, rewound, stored, taken_and_put_back, Names, Scope};
use crate::site::operator_resolved;
use crate::stack::resized;
use crate::text::{append_i64, decimal, numbered, same_text};
use crate::value::{
    all_views, clone_value, copied, datum, is_host_data, unit, AccessMode, Data, Datum, Dynamic,
    Union,
};

verus! {

/// What one helper leaves for the next to read.
#[derive(Debug)]
pub struct Held {
    pub int_modulo: i64,
    /// Whether a loop had another item.
    pub iter_next_produced: bool,
    pub switch_target: i64,
    pub switch_kind: i64,
    pub fast_int: i64,
    pub fast_bool: i64,
    /// The bits of a float.
    pub fast_float: u64,
    pub operator_handled: bool,
    pub unary_handled: bool,
    pub plain_add_handled: bool,
    /// A name of the pool.
    pub program_name: Option<String>,
    /// A helper was handed what no helper can take: the walk is abandoned.
    pub abort: bool,
    /// A helper has changed something, so its instruction cannot run again.
    pub committed: bool,
    /// Which functions are nothing but an addition, by program and name.
    pub plain_adds: Vec<(u64, u32, bool)>,
}

impl Held {
    /// Nothing left.
    pub fn new() -> (held: Held)
        ensures
            held.plain_adds@.len() == 0 && held.program_name is None,
            !held.abort && !held.committed && !held.iter_next_produced,
            !held.operator_handled && !held.unary_handled && !held.plain_add_handled,
            held.int_modulo == 0 && held.switch_target == 0 && held.switch_kind == 0,
            held.fast_int == 0 && held.fast_bool == 0 && held.fast_float == 0,
    {
        Held {
            int_modulo: 0,
            iter_next_produced: false,
            switch_target: 0,
            switch_kind: 0,
            fast_int: 0,
            fast_bool: 0,
            fast_float: 0,
            operator_handled: false,
            unary_handled: false,
            plain_add_handled: false,
            program_name: None,
            abort: false,
            committed: false,
            plain_adds: Vec::new(),
        }
    }
}

/// The largest count a walk can hand over as a count.
pub const MAX_COUNT: usize = 0x1_0000;

/// The largest address that is none.
pub const NO_ADDRESS: usize = 0x1000;

/// Whether a word is a count rather than an address.
pub fn live_count(n: usize) -> (r: bool)
    ensures
        r == (n < MAX_COUNT),
{
    n < MAX_COUNT
}

/// Whether a word is an address rather than a small number.
pub fn live_address(address: usize) -> (r: bool)
    ensures
        r == (address > NO_ADDRESS),
{
    address > NO_ADDRESS
}

// ---------------------------------------------------------------------------
// Positions and code.

/// A position in one word: the line high, the column low.
pub open spec fn packed(p: Position) -> i64 {
    (0x1_0000 * p.line + p.column) as i64
}

/// The position a word holds. Without a line there is none.
pub open spec fn unpacked(bits: i64) -> Position {
    let bits = bits as u32;
    let line = (bits / 0x1_0000) as u16;
    if line == 0 {
        nowhere()
    } else {
        Position { line, column: (bits % 0x1_0000) as u16 }
    }
}

/// A position in one word.
pub fn position_bits(p: Position) -> (bits: i64)
    ensures
        bits == packed(p),
{
    0x1_0000 * (p.line as i64) + p.column as i64
}

/// The position a word holds.
#[verifier::truncate]
pub fn position_from_bits(bits: i64) -> (p: Position)
    ensures
        p == unpacked(bits),
{
    let bits: u32 = bits as u32;
    let line: u16 = (bits / 0x1_0000) as u16;
    if line == 0 {
        Position::none()
    } else {
        Position { line, column: (bits % 0x1_0000) as u16 }
    }
}

/// A position comes back out of its word.
pub proof fn positions_come_back(p: Position)
    requires
        p.line != 0 || p == nowhere(),
    ensures
        unpacked(packed(p)) == p,
{
    let bits = packed(p);
    assert(0 <= bits <= u32::MAX);
    assert(bits as u32 == 0x1_0000 * p.line + p.column);
    assert((bits as u32) / 0x1_0000 == p.line) by (nonlinear_arith)
        requires
            bits as u32 == 0x1_0000 * p.line + p.column,
            p.column < 0x1_0000,
    ;
    assert((bits as u32) % 0x1_0000 == p.column) by (nonlinear_arith)
        requires
            bits as u32 == 0x1_0000 * p.line + p.column,
            p.column < 0x1_0000,
    ;
}

/// One byte of the code, or minus one past its end.
pub fn code_byte(program: &Program, at: usize) -> (n: i64)
    ensures
        n == (if at < program.code@.len() {
            program.code@[at as int] as i64
        } else {
            (-1) as i64
        }),
{
    if at < program.code.len() {
        program.code[at] as i64
    } else {
        -1
    }
}

/// The width of an instruction, or minus one where there is none.
pub fn code_width(program: &Program, at: usize) -> (n: i64)
    ensures
        n == (match decoded(program.code@, at as int) {
            Ok((_, n)) => n as i64,
            Err(_) => (-1) as i64,
        }),
{
    let len: usize = program.code.len();
    if at >= len {
        return -1;
    }
    match width_of(program.code[at]) {
        None => -1,
        Some(n) => if n > len - at {
            -1
        } else {
            n as i64
        },
    }
}

/// A sixteen-bit operand, or minus one where it is cut off.
pub fn code_u16(program: &Program, at: usize) -> (n: i64)
    ensures
        n == (if at + 2 <= program.code@.len() {
            word(program.code@, at as int) as i64
        } else {
            (-1) as i64
        }),
{
    let len: usize = program.code.len();
    if at <= len && 2 <= len - at {
        u16_at(&program.code, at) as i64
    } else {
        -1
    }
}

/// A thirty-two-bit operand, or minus one where it is cut off.
pub fn code_u32(program: &Program, at: usize) -> (n: i64)
    ensures
        n == (if at + 4 <= program.code@.len() {
            dword(program.code@, at as int) as i64
        } else {
            (-1) as i64
        }),
{
    let len: usize = program.code.len();
    if at <= len && 4 <= len - at {
        u32_at(&program.code, at) as i64
    } else {
        -1
    }
}

/// Leave a name of the pool in `held`, and say whether there is one.
pub fn program_name(held: &mut Held, program: &Program, index: u32) -> (n: i64)
    ensures
        n == (if program.name_of(index as int) is Some {
            1i64
        } else {
            0
        }),
        text_view(final(held).program_name) == program.name_of(index as int),
        *final(held) == (Held { program_name: final(held).program_name, ..*old(held) }),
{
    match program.name(index) {
        Some(name) => {
            held.program_name = Some(name.to_owned());
            1
        },
        None => {
            held.program_name = None;
            0
        },
    }
}

/// The position of an instruction in one word.
pub fn code_position_bits(program: &Program, at: usize) -> (bits: i64)
    ensures
        bits == packed(program.pos_of(at as int)),
{
    position_bits(program.position(at))
}

/// The larger of two numbers.
pub fn int_max(a: i64, b: i64) -> (n: i64)
    ensures
        n == (if a >= b {
            a
        } else {
            b
        }),
{
    if a >= b {
        a
    } else {
        b
    }
}

/// The remainder of two integers, left in `held`.
pub fn int_modulo(held: &mut Held, lhs: i64, rhs: i64) -> (out: Option<Error>)
    ensures
        match arithmetic(BinOpKind::Modulo, lhs, rhs) {
            Some(Ok(n)) => out is None && *final(held) == (Held { int_modulo: n, ..*old(held) }),
            Some(Err(err)) => out is Some && out->0@ == err && *final(held) == *old(held),
            None => out is None && *final(held) == *old(held),
        },
{
    match int_assign(BinOpKind::Modulo, lhs, rhs) {
        Some(Ok(n)) => {
            held.int_modulo = n;
            None
        },
        Some(Err(err)) => Some(err),
        None => None,
    }
}

// ---------------------------------------------------------------------------
// Values.

/// Which kind of plain value something is, read out of any cell: an integer,
/// a boolean, a float, unit, or none of them.
pub open spec fn fast_kind(d: Data) -> i64 {
    match d {
        Data::Int(_) => 1,
        Data::Bool(_) => 2,
        Data::Float(_) => 3,
        Data::Unit => 4,
        _ => 0,
    }
}

/// Whether a value is a cell that cannot be read now.
pub open spec fn shut(heap: Seq<crate::heap::CellView>, d: Datum) -> bool {
    d.data matches Data::Shared(cell) && (cell >= heap.len() || heap[cell as int].locked)
}

impl Vm<'_> {
    /// Leave a plain value in `held`, and say which kind it is.
    pub fn dynamic_as_fast(&self, held: &mut Held, value: &Dynamic) -> (kind: i64)
        ensures
            kind == (if shut(self@.heap, value@) {
                0
            } else {
                fast_kind(flat_copy(self@.heap, value@).data)
            }),
            *final(held) == (match flat_copy(self@.heap, value@).data {
                Data::Int(i) => Held { fast_int: i, ..*old(held) },
                Data::Bool(b) => Held {
                    fast_bool: if b {
                        1
                    } else {
                        0
                    },
                    ..*old(held)
                },
                Data::Float(bits) => Held { fast_float: bits, ..*old(held) },
                _ => *old(held),
            }),
    {
        broadcast use {crate::value::view_of_composite, crate::value::copied_of_composite};

        if let Union::Shared(cell) = value.value {
            if self.heap.is_shut(cell) {
                assert(copied(readable(self@.heap, cell)).data is Unit);
                return 0;
            }
        }
        let flat = self.heap.flatten_clone_value(value);
        match &flat.value {
            Union::Int(i) => {
                held.fast_int = *i;
                1
            },
            Union::Bool(b) => {
                held.fast_bool = if *b {
                    1
                } else {
                    0
                };
                2
            },
            Union::Float(bits) => {
                held.fast_float = *bits;
                3
            },
            Union::Unit => 4,
            _ => 0,
        }
    }
}

// ---------------------------------------------------------------------------
// Functions that are nothing but an addition.

/// The instructions of a body from `at` on, up to its end or to the first byte
/// that is no instruction, without those that only count.
pub open spec fn body_ops(code: Seq<u8>, at: int) -> Seq<Op>
    decreases code.len() - at,
{
    match decoded(code, at) {
        Err(_) => Seq::empty(),
        Ok((op, n)) => if op is Tick || op is Checkpoint {
            body_ops(code, at + n)
        } else {
            seq![op] + body_ops(code, at + n)
        },
    }
}

/// `a + b` of the first two locals, in one instruction.
pub open spec fn adds_locals(op: Op) -> bool {
    op matches Op::Operate(o) && o.shape == Shape::Binary(0) && o.lhs == Source::Local(0) && o.rhs
        == Source::Local(1) && o.branch is None
}

/// `+` of the two topmost operands.
pub open spec fn adds_operands(p: Program, op: Op) -> bool {
    op matches Op::Operate(o) && o.lhs == Source::Stack && o.rhs == Source::Stack
        && o.branch is None
        && match o.shape {
        Shape::Binary(byte) => byte == 0,
        Shape::Plain => o.argc == 2 && !o.capture && p.name_of(o.name as int) == Some("+"@),
        Shape::Unary(_) => false,
    }
}

/// Whether a body is `a + b` of its two parameters.
pub open spec fn sums_locals(p: Program, ops: Seq<Op>) -> bool {
    if ops.len() <= 2 {
        ops.len() > 0 && adds_locals(ops[0]) && (ops.len() == 2 ==> ops[1] is Return)
    } else {
        &&& ops[0] == Op::LoadLocal(0)
        &&& ops[1] == Op::LoadLocal(1)
        &&& adds_operands(p, ops[2])
        &&& (ops.len() == 4 && ops[3] is Return) || (ops.len() == 3 && (ops[2] matches Op::Operate(
            o,
        ) && o.shape is Plain))
    }
}

/// Whether a compiled function of so many parameters is the body `a + b` of the
/// first two.
pub open spec fn adds_first_two(p: Program, index: u32, argc: int) -> bool {
    match p.plain_from(index, argc, 0) {
        None => false,
        Some(i) => {
            let chunk = p.functions@[i].chunk;
            chunk.entry <= chunk.end <= p.code@.len() && sums_locals(
                p,
                body_ops(p.code@.subrange(0, chunk.end as int), chunk.entry as int),
            )
        },
    }
}

/// Whether a compiled function of two parameters is the body `a + b`.
pub open spec fn plain_add(p: Program, index: u32) -> bool {
    adds_first_two(p, index, 2)
}

fn copy_prefix(code: &Vec<u8>, end: usize) -> (out: Vec<u8>)
    requires
        end <= code@.len(),
    ensures
        out@ == code@.subrange(0, end as int),
{
    let mut out: Vec<u8> = Vec::new();
    let mut i: usize = 0;
    while i < end
        invariant
            i <= end <= code@.len(),
            out@ == code@.subrange(0, i as int),
        decreases end - i,
    {
        out.push(code[i]);
        i = i + 1;
        assert(out@ =~= code@.subrange(0, i as int));
    }
    out
}

fn disassemble(code: &Vec<u8>, from: usize) -> (ops: Vec<Op>)
    ensures
        ops@ == body_ops(code@, from as int),
{
    let mut ops: Vec<Op> = Vec::new();
    let mut at: usize = from;
    assert(ops@ + body_ops(code@, at as int) =~= body_ops(code@, at as int));
    loop
        invariant
            body_ops(code@, from as int) == ops@ + body_ops(code@, at as int),
        ensures
            body_ops(code@, from as int) == ops@,
        decreases code@.len() - at,
    {
        let ghost before = ops@;
        let len: usize = code.len();
        match decode(code, at) {
            Err(_) => {
                assert(ops@ + Seq::<Op>::empty() =~= ops@);
                break ;
            },
            Ok((op, n)) => {
                if !matches!(op, Op::Tick | Op::Checkpoint) {
                    ops.push(op);
                    assert(before + (seq![op] + body_ops(code@, at + n)) =~= ops@ + body_ops(
                        code@,
                        at + n,
                    ));
                }
                at = at + n;
            },
        }
    }
    ops
}

fn is_local_sum(op: Op) -> (r: bool)
    ensures
        r == adds_locals(op),
{
    match op {
        Op::Operate(o) => o.shape == Shape::Binary(0) && o.lhs == Source::Local(0) && o.rhs
            == Source::Local(1) && o.branch.is_none(),
        _ => false,
    }
}

fn is_operand_sum(program: &Program, op: Op) -> (r: bool)
    ensures
        r == adds_operands(*program, op),
{
    match op {
        Op::Operate(o) => {
            if o.lhs != Source::Stack || o.rhs != Source::Stack || o.branch.is_some() {
                return false;
            }
            match o.shape {
                Shape::Binary(byte) => byte == 0,
                Shape::Plain => if o.argc != 2 || o.capture {
                    false
                } else {
                    match program.name(o.name as u32) {
                        Some(name) => same_text(name, "+"),
                        None => false,
                    }
                },
                Shape::Unary(_) => false,
            }
        },
        _ => false,
    }
}

/// Whether a compiled function of so many parameters is the body `a + b` of the
/// first two.
pub fn function_body_is_plain_add(program: &Program, index: u32, argc: usize) -> (r: bool)
    ensures
        r == adds_first_two(*program, index, argc as int),
{
    let chunk = match program.function(index, argc) {
        None => {
            return false;
        },
        Some(i) => program.functions[i].chunk,
    };
    let len: usize = program.code.len();
    if chunk.entry > chunk.end || chunk.end as usize > len {
        return false;
    }
    let body = copy_prefix(&program.code, chunk.end as usize);
    let ops = disassemble(&body, chunk.entry as usize);
    let count: usize = ops.len();
    if count == 0 || count > 4 {
        return false;
    }
    if count <= 2 {
        return is_local_sum(ops[0]) && (count == 1 || matches!(ops[1], Op::Return));
    }
    if ops[0] != Op::LoadLocal(0) || ops[1] != Op::LoadLocal(1) || !is_operand_sum(
        program,
        ops[2],
    ) {
        return false;
    }
    if count == 4 {
        matches!(ops[3], Op::Return)
    } else {
        match ops[2] {
            Op::Operate(o) => o.shape == Shape::Plain,
            _ => false,
        }
    }
}

/// Whether a compiled function of so many parameters is the body `a + b`, as a
/// word.
pub fn compiled_fn_is_plain_add(program: &Program, index: u32, argc: usize) -> (n: i64)
    ensures
        n == (if argc == 2 && plain_add(*program, index) {
            1i64
        } else {
            0
        }),
{
    if argc == 2 && function_body_is_plain_add(program, index, argc) {
        1
    } else {
        0
    }
}

/// Whether what is remembered of a program is true of it.
pub open spec fn remembers(plain_adds: Seq<(u64, u32, bool)>, p: Program) -> bool {
    forall|i: int|
        0 <= i < plain_adds.len() && (#[trigger] plain_adds[i]).0 == p.id ==> plain_adds[i].2
            == plain_add(p, plain_adds[i].1)
}

/// Whether a compiled function is the body `a + b`, looked at once.
pub fn cached_plain_add(held: &mut Held, program: &Program, index: u32) -> (r: bool)
    requires
        remembers(old(held).plain_adds@, *program),
    ensures
        r == plain_add(*program, index),
        remembers(final(held).plain_adds@, *program),
        forall|q: Program|
            q.id != program.id && remembers(old(held).plain_adds@, q) ==> #[trigger] remembers(
                final(held).plain_adds@,
                q,
            ),
        *final(held) == (Held { plain_adds: final(held).plain_adds, ..*old(held) }),
{
    let mut i: usize = 0;
    while i < held.plain_adds.len()
        invariant
            i <= held.plain_adds@.len(),
            *held == *old(held),
            remembers(held.plain_adds@, *program),
        decreases held.plain_adds@.len() - i,
    {
        let entry = held.plain_adds[i];
        if entry.0 == program.id && entry.1 == index {
            assert(held.plain_adds@[i as int] == entry);
            return entry.2;
        }
        i = i + 1;
    }
    let hit = function_body_is_plain_add(program, index, 2);
    held.plain_adds.push((program.id, index, hit));
    hit
}

// ---------------------------------------------------------------------------
// Calls answered on the spot.

/// What comes of trying a call the short way.
#[derive(Debug)]
#[verifier::ext_equal]
pub enum PlainFast<E> {
    /// It was done, or failed.
    Did(Option<E>),
    /// The short way has no answer.
    Miss,
}

pub open spec fn fast_view(out: PlainFast<Error>) -> PlainFast<Fail> {
    match out {
        PlainFast::Did(Some(err)) => PlainFast::Did(Some(err@)),
        PlainFast::Did(None) => PlainFast::Did(None),
        PlainFast::Miss => PlainFast::Miss,
    }
}

/// What applying an operator gave, put in the place of the operands from
/// `first` up. Floats are the host's to add.
pub open spec fn sum_settled(
    m: Machine,
    outcome: Result<Applied<Datum>, Fail>,
    operands: Seq<Datum>,
    first: int,
) -> (PlainFast<Fail>, Machine) {
    match outcome {
        Err(err) => (PlainFast::Did(Some(err)), m),
        Ok(Applied::Declined) => (PlainFast::Miss, m),
        Ok(Applied::Done(v)) => (PlainFast::Did(None), m.truncate(first).push(v)),
        Ok(Applied::Float) => match asked(
            m,
            question(Ask::Float { kind: BinOpKind::Add }, ""@, operands, nowhere()),
        ) {
            (Err(err), m1) => (PlainFast::Did(Some(err)), m1),
            (Ok(a), m1) => match reply_value(a.reply) {
                Ok(v) => (PlainFast::Did(None), m1.truncate(first).push(v)),
                Err(err) => (PlainFast::Did(Some(err)), m1),
            },
        },
    }
}

/// A sum put in the place of the operands from `first` up.
pub open spec fn summed(m: Machine, lhs: Datum, rhs: Datum, first: int) -> (
    PlainFast<Fail>,
    Machine,
) {
    sum_settled(
        m,
        applied(BinOpKind::Add, lhs.data, rhs.data),
        seq![copied(lhs), copied(rhs)],
        first,
    )
}

/// The magnitude of an integer put on the stack.
pub open spec fn magnitude(m: Machine, d: Datum, pos: Position) -> (PlainFast<Fail>, Machine) {
    match flat_copy(m.heap, d).data {
        Data::Int(x) => if x == i64::MIN {
            (
                PlainFast::Did(
                    Some(
                        fail(
                            FailureKind::ErrorArithmetic("Negation overflow: -"@ + decimal(x as int)),
                            pos,
                        ),
                    ),
                ),
                m,
            )
        } else {
            (
                PlainFast::Did(None),
                m.push(
                    datum(
                        Data::Int(
                            if x < 0 {
                                (-x) as i64
                            } else {
                                x
                            },
                        ),
                    ),
                ),
            )
        },
        _ => (PlainFast::Miss, m),
    }
}

/// The variable a call by reference is made on, where one can be written to.
pub open spec fn writable(scope: Names, name: Seq<char>) -> Option<int> {
    match found(scope, name) {
        Some(i) => if scope[i].1.mode == AccessMode::ReadWrite {
            Some(i)
        } else {
            None
        },
        None => None,
    }
}

/// The variable a receiver is.
pub open spec fn receiver_at(p: Program, scope: Names, base: usize, receiver: Receiver) -> Option<
    int,
> {
    match receiver {
        Receiver::Local(slot) => if base + slot < scope.len() {
            Some(base + slot)
        } else {
            None
        },
        Receiver::Named(n) => match p.name_of(n as int) {
            Some(name) => writable(scope, name),
            None => None,
        },
        Receiver::This => None,
    }
}

/// A call by reference the short way: an addition, or the magnitude.
pub open spec fn shortened_by_reference(
    p: Program,
    m: Machine,
    scope: Names,
    base: usize,
    index: u32,
    argc: usize,
    receiver: Receiver,
    capture: bool,
    pos: Position,
) -> (PlainFast<Fail>, Machine) {
    let at = receiver_at(p, scope, base, receiver);
    let depth = m.stack.len() as int;
    if capture || !m.engine.fast_operators || at is None {
        (PlainFast::Miss, m)
    } else {
        let lhs = scope[at->0].1;
        let sum = if (argc == 1 || argc == 2) && plain_add(p, index) && depth > 0 {
            summed(m, lhs, m.stack[depth - 1], depth - 1)
        } else {
            (PlainFast::Miss, m)
        };
        if sum.0 is Did {
            sum
        } else if (argc == 0 || (argc == 1 && depth == 0)) && p.name_of(index as int) == Some(
            "abs"@,
        ) {
            magnitude(m, lhs, pos)
        } else {
            (PlainFast::Miss, m)
        }
    }
}

/// What a helper leaves: the failure if it failed, the run and the scope.
pub type Left = (Option<Fail>, Machine, Names);

/// A result put on the stack.
pub open spec fn pushed(gave: (Result<Datum, Fail>, Machine, Names)) -> Left {
    match gave {
        (Ok(v), m, scope) => (None, m.push(v), scope),
        (Err(err), m, scope) => (Some(err), m, scope),
    }
}

/// A step's outcome, as a helper leaves it.
pub open spec fn done(did: (Result<(), Fail>, Machine, Names)) -> Left {
    match did {
        (Ok(_), m, scope) => (None, m, scope),
        (Err(err), m, scope) => (Some(err), m, scope),
    }
}

/// A helper was handed a name that is none.
pub open spec fn nameless(index: u32, pos: Position) -> Fail {
    fail(
        FailureKind::ErrorRuntime(
            datum(
                Data::Str(
                    "malformed chunk: no name "@ + crate::text::decimal_nat(index as nat) + ""@,
                ),
            ),
        ),
        pos,
    )
}

/// What a call by reference out of compiled code leaves.
pub open spec fn by_reference_left(
    p: Program,
    m: Machine,
    scope: Names,
    base: usize,
    index: u32,
    argc: usize,
    receiver: Receiver,
    capture: bool,
    pos: Position,
) -> Left {
    match shortened_by_reference(p, m, scope, base, index, argc, receiver, capture, pos) {
        (PlainFast::Did(err), m1) => (err, m1, scope),
        (PlainFast::Miss, m1) => match p.name_of(index as int) {
            None => (Some(nameless(index, pos)), m1, scope),
            Some(name) => pushed(
                called_by_reference(
                    below(levels_left(m1)),
                    p,
                    m1,
                    scope,
                    base,
                    index,
                    name,
                    argc as int,
                    receiver,
                    capture,
                    pos,
                ),
            ),
        },
    }
}

/// A run with the two operands from `first` up read out of any cells.
pub open spec fn pair_flattened(m: Machine, first: int) -> Machine {
    m.with_stack(
        m.stack.update(first, flattened(m.heap, m.stack[first])).update(
            first + 1,
            flattened(m.heap, m.stack[first + 1]),
        ),
    )
}

/// A call with its arguments on the stack the short way: an addition.
pub open spec fn shortened_stacked(
    p: Program,
    m: Machine,
    index: u32,
    argc: usize,
    first: int,
    capture: bool,
) -> (PlainFast<Fail>, Machine) {
    if capture || argc != 2 || !m.engine.fast_operators || !plain_add(p, index) || first + 1
        >= m.stack.len() {
        (PlainFast::Miss, m)
    } else {
        let m1 = pair_flattened(m, first);
        summed(m1, m1.stack[first], m1.stack[first + 1], first)
    }
}

/// What a call out of compiled code with its arguments on the stack leaves.
pub open spec fn stacked_left(
    p: Program,
    m: Machine,
    scope: Names,
    index: u32,
    argc: usize,
    first: int,
    capture: bool,
    pos: Position,
) -> Left {
    match shortened_stacked(p, m, index, argc, first, capture) {
        (PlainFast::Did(err), m1) => (err, m1, scope),
        (PlainFast::Miss, m1) => match p.name_of(index as int) {
            None => (Some(nameless(index, pos)), m1, scope),
            Some(name) => pushed(
                called(
                    below(levels_left(m1)),
                    p,
                    m1,
                    scope,
                    index,
                    name,
                    argc as int,
                    first,
                    capture,
                    pos,
                ),
            ),
        },
    }
}

pub open spec fn failure_view(out: Option<Error>) -> Option<Fail> {
    match out {
        Some(err) => Some(err@),
        None => None,
    }
}

/// A helper left what was expected.
pub open(crate) spec fn leaves(
    vm: Vm,
    before: Machine,
    out: Option<Error>,
    scope: Names,
    expected: Left,
) -> bool {
    &&& failure_view(out) == expected.0
    &&& vm.reached(before, expected.1)
    &&& scope == expected.2
}

fn no_name(index: u32, pos: Position) -> (err: Error)
    ensures
        err@ == nameless(index, pos),
{
    let text = numbered("malformed chunk: no name ", index as u64, "");
    raised(FailureKind::ErrorRuntime(Dynamic::from_text(text)), pos)
}

/// The receiver a kind and a number name.
#[verifier::truncate]
pub fn receiver_of(kind: i64, payload: u32) -> (receiver: Receiver)
    ensures
        receiver == (if kind == 0 {
            Receiver::Local(payload as u16)
        } else if kind == 1 {
            Receiver::Named(payload)
        } else {
            Receiver::This
        }),
{
    if kind == 0 {
        Receiver::Local(payload as u16)
    } else if kind == 1 {
        Receiver::Named(payload)
    } else {
        Receiver::This
    }
}

fn find_receiver(program: &Program, scope: &Scope, base: usize, receiver: Receiver) -> (at: Option<
    usize,
>)
    ensures
        match at {
            Some(i) => receiver_at(*program, scope@, base, receiver) == Some(i as int) && i
                < scope@.len(),
            None => receiver_at(*program, scope@, base, receiver) is None,
        },
{
    match receiver {
        Receiver::Local(slot) => {
            let len: usize = scope.len();
            if base < len && (slot as usize) < len - base {
                Some(base + slot as usize)
            } else {
                None
            }
        },
        Receiver::Named(n) => match program.name(n) {
            None => None,
            Some(name) => match scope.search(name) {
                None => None,
                Some(i) => if matches!(scope.get_by_index(i).mode, AccessMode::ReadWrite) {
                    Some(i)
                } else {
                    None
                },
            },
        },
        Receiver::This => None,
    }
}

impl Vm<'_> {
    fn settle_sum(
        &mut self,
        outcome: Result<Applied<Dynamic>, Error>,
        operands: Vec<Dynamic>,
        first: usize,
    ) -> (out: PlainFast<Error>)
        requires
            old(self).wf(),
        ensures
            ({
                let (r, m) = sum_settled(
                    old(self)@,
                    applied_view(outcome),
                    all_views(operands@),
                    first as int,
                );
                fast_view(out) == r && final(self).reached(old(self)@, m)
            }),
    {
        match outcome {
            Err(err) => PlainFast::Did(Some(err)),
            Ok(Applied::Declined) => PlainFast::Miss,
            Ok(Applied::Done(v)) => {
                self.truncate_stack(first);
                self.push(v);
                PlainFast::Did(None)
            },
            Ok(Applied::Float) => {
                let kind = BinOpKind::Add;
                match self.ask(Ask::Float { kind }, "", operands, Position::none()) {
                    Err(err) => PlainFast::Did(Some(err)),
                    Ok(answer) => match value_of(answer.reply) {
                        Ok(v) => {
                            self.truncate_stack(first);
                            self.push(v);
                            PlainFast::Did(None)
                        },
                        Err(err) => PlainFast::Did(Some(err)),
                    },
                }
            },
        }
    }

    /// Add a variable and the topmost operand.
    fn try_plain_add_ref(&mut self, lhs: &Dynamic) -> (out: PlainFast<Error>)
        requires
            old(self).wf(),
            old(self)@.stack.len() > 0,
        ensures
            ({
                let depth = old(self)@.stack.len() as int;
                let (r, m) = summed(old(self)@, lhs@, old(self)@.stack[depth - 1], depth - 1);
                fast_view(out) == r && final(self).reached(old(self)@, m)
            }),
    {
        let first: usize = self.stack.depth() - 1;
        let outcome = apply_binary(BinOpKind::Add, lhs, self.stack.get(first));
        let operands = pair(clone_value(lhs), clone_value(self.stack.get(first)));
        self.settle_sum(outcome, operands, first)
    }

    fn flatten_operand(&mut self, i: usize)
        requires
            old(self).wf(),
            i < old(self)@.stack.len(),
        ensures
            final(self).reached(
                old(self)@,
                old(self)@.with_stack(
                    old(self)@.stack.update(
                        i as int,
                        flattened(old(self)@.heap, old(self)@.stack[i as int]),
                    ),
                ),
            ),
    {
        let held = self.stack.take(i);
        let flat = self.heap.flatten(held);
        self.stack.set(i, flat);
        assert(self@.stack =~= old(self)@.stack.update(
            i as int,
            flattened(old(self)@.heap, old(self)@.stack[i as int]),
        ));
    }

    /// Add the two operands from `first` up.
    fn try_plain_add_stack(&mut self, first: usize) -> (out: PlainFast<Error>)
        requires
            old(self).wf(),
            first + 1 < old(self)@.stack.len(),
        ensures
            ({
                let m1 = pair_flattened(old(self)@, first as int);
                let (r, m) = summed(
                    m1,
                    m1.stack[first as int],
                    m1.stack[first + 1],
                    first as int,
                );
                fast_view(out) == r && final(self).reached(old(self)@, m)
            }),
    {
        let depth: usize = self.stack.depth();
        assert(first + 1 < depth);
        self.flatten_operand(first);
        self.flatten_operand(first + 1);
        let outcome = apply_binary(
            BinOpKind::Add,
            self.stack.get(first),
            self.stack.get(first + 1),
        );
        let operands = pair(
            clone_value(self.stack.get(first)),
            clone_value(self.stack.get(first + 1)),
        );
        self.settle_sum(outcome, operands, first)
    }

    /// Put the magnitude of a variable on the stack.
    fn try_plain_abs(&mut self, value: &Dynamic, pos: Position) -> (out: PlainFast<Error>)
        requires
            old(self).wf(),
        ensures
            ({
                let (r, m) = magnitude(old(self)@, value@, pos);
                fast_view(out) == r && final(self).reached(old(self)@, m)
            }),
    {
        let flat = self.heap.flatten_clone_value(value);
        match flat.as_int() {
            Err(_) => PlainFast::Miss,
            Ok(x) => {
                if x == i64::MIN {
                    let mut text = "Negation overflow: -".to_owned();
                    append_i64(&mut text, x);
                    return PlainFast::Did(
                        Some(raised(FailureKind::ErrorArithmetic(text), pos)),
                    );
                }
                let size: i64 = if x < 0 {
                    -x
                } else {
                    x
                };
                self.push(Dynamic::from_int(size));
                PlainFast::Did(None)
            },
        }
    }

    fn shorten_by_reference(
        &mut self,
        held: &mut Held,
        program: &Program,
        scope: &Scope,
        base: usize,
        index: u32,
        argc: usize,
        receiver: Receiver,
        capture: bool,
        pos: Position,
    ) -> (out: PlainFast<Error>)
        requires
            old(self).wf(),
            remembers(old(held).plain_adds@, *program),
        ensures
            ({
                let (r, m) = shortened_by_reference(
                    *program,
                    old(self)@,
                    scope@,
                    base,
                    index,
                    argc,
                    receiver,
                    capture,
                    pos,
                );
                fast_view(out) == r && final(self).reached(old(self)@, m)
            }),
            remembers(final(held).plain_adds@, *program),
            forall|q: Program|
                q.id != program.id && remembers(old(held).plain_adds@, q) ==> #[trigger] remembers(
                    final(held).plain_adds@,
                    q,
                ),
            *final(held) == (Held { plain_adds: final(held).plain_adds, ..*old(held) }),
    {
        if capture || !self.engine.fast_operators {
            return PlainFast::Miss;
        }
        let at: usize = match find_receiver(program, scope, base, receiver) {
            Some(at) => at,
            None => {
                return PlainFast::Miss;
            },
        };
        let depth: usize = self.stack.depth();
        if argc == 1 || argc == 2 {
            if cached_plain_add(held, program, index) && depth > 0 {
                let sum = self.try_plain_add_ref(scope.get_by_index(at));
                if let PlainFast::Did(err) = sum {
                    return PlainFast::Did(err);
                }
            }
        }
        if argc == 0 || (argc == 1 && depth == 0) {
            if let Some(name) = program.name(index) {
                if same_text(name, "abs") {
                    return self.try_plain_abs(scope.get_by_index(at), pos);
                }
            }
        }
        PlainFast::Miss
    }

    /// Call by reference out of compiled code.
    pub fn call_by_reference_abi(
        &mut self,
        held: &mut Held,
        program: &Program,
        index: u32,
        argc: usize,
        receiver: Receiver,
        scope: &mut Scope,
        base: usize,
        capture: bool,
        position: i64,
    ) -> (out: Option<Error>)
        requires
            old(self).wf(),
            remembers(old(held).plain_adds@, *program),
        ensures
            leaves(
                *final(self),
                old(self)@,
                out,
                final(scope)@,
                by_reference_left(
                    *program,
                    old(self)@,
                    old(scope)@,
                    base,
                    index,
                    argc,
                    receiver,
                    capture,
                    unpacked(position),
                ),
            ),
            remembers(final(held).plain_adds@, *program),
            forall|q: Program|
                q.id != program.id && remembers(old(held).plain_adds@, q) ==> #[trigger] remembers(
                    final(held).plain_adds@,
                    q,
                ),
            *final(held) == (Held { plain_adds: final(held).plain_adds, ..*old(held) }),
    {
        let pos = position_from_bits(position);
        match self.shorten_by_reference(
            held,
            program,
            scope,
            base,
            index,
            argc,
            receiver,
            capture,
            pos,
        ) {
            PlainFast::Did(err) => {
                return err;
            },
            PlainFast::Miss => {},
        }
        match program.name(index) {
            None => Some(no_name(index, pos)),
            Some(name) => match self.call_by_reference(
                program,
                index,
                name,
                argc,
                receiver,
                scope,
                base,
                capture,
                pos,
            ) {
                Ok(v) => {
                    self.push(v);
                    None
                },
                Err(err) => Some(err),
            },
        }
    }

    /// Call out of compiled code with the arguments on the stack.
    pub fn call_syntactic_or_stacked_abi(
        &mut self,
        held: &mut Held,
        program: &Program,
        index: u32,
        argc: usize,
        first: usize,
        scope: &mut Scope,
        capture: bool,
        position: i64,
    ) -> (out: Option<Error>)
        requires
            old(self).wf(),
            remembers(old(held).plain_adds@, *program),
        ensures
            leaves(
                *final(self),
                old(self)@,
                out,
                final(scope)@,
                stacked_left(
                    *program,
                    old(self)@,
                    old(scope)@,
                    index,
                    argc,
                    first as int,
                    capture,
                    unpacked(position),
                ),
            ),
            remembers(final(held).plain_adds@, *program),
            forall|q: Program|
                q.id != program.id && remembers(old(held).plain_adds@, q) ==> #[trigger] remembers(
                    final(held).plain_adds@,
                    q,
                ),
            *final(held) == (Held { plain_adds: final(held).plain_adds, ..*old(held) }),
    {
        let pos = position_from_bits(position);
        if !capture && argc == 2 && self.engine.fast_operators {
            let depth: usize = self.stack.depth();
            if cached_plain_add(held, program, index) && depth >= 2 && first <= depth - 2 {
                match self.try_plain_add_stack(first) {
                    PlainFast::Did(err) => {
                        return err;
                    },
                    PlainFast::Miss => {},
                }
            }
        }
        match program.name(index) {
            None => Some(no_name(index, pos)),
            Some(name) => match self.call_syntactic_or_stacked(
                program,
                index,
                name,
                argc,
                first,
                scope,
                capture,
                pos,
            ) {
                Ok(v) => {
                    self.push(v);
                    None
                },
                Err(err) => Some(err),
            },
        }
    }
}

// ---------------------------------------------------------------------------
// Variables.

/// What loading a variable by name leaves.
pub open spec fn named_load_left(
    p: Program,
    m: Machine,
    scope: Names,
    index: u32,
    flatten: bool,
    pos: Position,
) -> Left {
    match p.name_of(index as int) {
        None => (Some(nameless(index, pos)), m, scope),
        Some(name) => pushed(loaded_named(m, scope, name, flatten, pos)),
    }
}

/// What assigning to a variable by name leaves.
pub open spec fn named_assign_left(
    p: Program,
    m: Machine,
    scope: Names,
    index: u32,
    op: Option<AssignOp>,
    pos: Position,
) -> Left {
    match (p.name_of(index as int), popped(m)) {
        (None, _) => (Some(nameless(index, pos)), m, scope),
        (_, Err(err)) => (Some(err), m, scope),
        (Some(name), Ok((v, m1))) => done(
            assigned_named(m1, p, op, scope, name, flattened(m1.heap, v), pos),
        ),
    }
}

/// What declaring a variable leaves. A caught value is bound as it is; any
/// other is read out of its cell first.
pub open spec fn declare_left(
    p: Program,
    m: Machine,
    scope: Names,
    index: u32,
    constant: bool,
    caught: bool,
    pos: Position,
) -> Left {
    match (p.name_of(index as int), popped(m)) {
        (None, _) => (Some(nameless(index, pos)), m, scope),
        (_, Err(err)) => (Some(err), m, scope),
        (Some(name), Ok((v, m1))) => {
            let value = if caught {
                v
            } else {
                flattened(m1.heap, v)
            };
            (None, m1, declared(scope, name, declared_mode(constant, value), value))
        },
    }
}

/// The operand an assignment takes its value from.
#[verifier::truncate]
pub fn source_of(kind: i64, index: u32) -> (from: Source)
    ensures
        from == (if kind == 1 {
            Source::Local(index as u16)
        } else if kind == 2 {
            Source::Const(index)
        } else {
            Source::Stack
        }),
{
    if kind == 1 {
        Source::Local(index as u16)
    } else if kind == 2 {
        Source::Const(index)
    } else {
        Source::Stack
    }
}

impl Vm<'_> {
    /// Load a variable by name.
    pub fn load_named_abi(
        &mut self,
        program: &Program,
        scope: &mut Scope,
        index: u32,
        flatten: bool,
        position: i64,
    ) -> (out: Option<Error>)
        requires
            old(self).wf(),
        ensures
            leaves(
                *final(self),
                old(self)@,
                out,
                final(scope)@,
                named_load_left(
                    *program,
                    old(self)@,
                    old(scope)@,
                    index,
                    flatten,
                    unpacked(position),
                ),
            ),
    {
        let pos = position_from_bits(position);
        match program.name(index) {
            None => Some(no_name(index, pos)),
            Some(name) => match self.load_named(name, scope, flatten, pos) {
                Ok(v) => {
                    self.push(v);
                    None
                },
                Err(err) => Some(err),
            },
        }
    }

    /// Assign to a variable by name.
    pub fn assign_named_abi(
        &mut self,
        program: &Program,
        scope: &mut Scope,
        index: u32,
        op: Option<AssignOp>,
        position: i64,
    ) -> (out: Option<Error>)
        requires
            old(self).wf(),
        ensures
            leaves(
                *final(self),
                old(self)@,
                out,
                final(scope)@,
                named_assign_left(
                    *program,
                    old(self)@,
                    old(scope)@,
                    index,
                    op,
                    unpacked(position),
                ),
            ),
    {
        let pos = position_from_bits(position);
        let name = match program.name(index) {
            None => {
                return Some(no_name(index, pos));
            },
            Some(name) => name,
        };
        let value = match self.pop() {
            Ok(value) => value,
            Err(err) => {
                return Some(err);
            },
        };
        let rhs = self.heap.flatten(value);
        match self.assign_named(program, op, name, rhs, scope, pos) {
            Ok(_) => None,
            Err(err) => Some(err),
        }
    }

    /// Declare a variable or a constant.
    pub fn declare_local_abi(
        &mut self,
        program: &Program,
        scope: &mut Scope,
        index: u32,
        constant: bool,
        position: i64,
    ) -> (out: Option<Error>)
        requires
            old(self).wf(),
        ensures
            leaves(
                *final(self),
                old(self)@,
                out,
                final(scope)@,
                declare_left(
                    *program,
                    old(self)@,
                    old(scope)@,
                    index,
                    constant,
                    false,
                    unpacked(position),
                ),
            ),
    {
        let pos = position_from_bits(position);
        let name = match program.name(index) {
            None => {
                return Some(no_name(index, pos));
            },
            Some(name) => name,
        };
        let value = match self.pop() {
            Ok(value) => value,
            Err(err) => {
                return Some(err);
            },
        };
        let value = self.heap.flatten(value);
        if constant {
            scope.push_constant_dynamic(name, value);
        } else {
            scope.push_dynamic(name, value);
        }
        None
    }

    /// Bind a caught value.
    pub fn catch_bind_abi(
        &mut self,
        program: &Program,
        scope: &mut Scope,
        index: u32,
        position: i64,
    ) -> (out: Option<Error>)
        requires
            old(self).wf(),
        ensures
            leaves(
                *final(self),
                old(self)@,
                out,
                final(scope)@,
                declare_left(
                    *program,
                    old(self)@,
                    old(scope)@,
                    index,
                    false,
                    true,
                    unpacked(position),
                ),
            ),
    {
        let pos = position_from_bits(position);
        let name = match program.name(index) {
            None => {
                return Some(no_name(index, pos));
            },
            Some(name) => name,
        };
        match self.pop() {
            Ok(value) => {
                scope.push_dynamic(name, value);
                None
            },
            Err(err) => Some(err),
        }
    }

    /// Assign to a local. A base or a slot that is no count abandons the walk.
    pub fn assign_local_abi(
        &mut self,
        held: &mut Held,
        program: &Program,
        scope: &mut Scope,
        base: usize,
        slot: usize,
        name: u16,
        from: Source,
        op: Option<u16>,
        position: i64,
    ) -> (out: Option<Error>)
        requires
            old(self).wf(),
        ensures
            base < MAX_COUNT && slot < MAX_COUNT ==> *final(held) == *old(held) && leaves(
                *final(self),
                old(self)@,
                out,
                final(scope)@,
                done(
                    did_assign_local(
                        *program,
                        old(self)@,
                        old(scope)@,
                        base,
                        slot as u16,
                        name,
                        from,
                        op,
                        unpacked(position),
                    ),
                ),
            ),
            !(base < MAX_COUNT && slot < MAX_COUNT) ==> *final(held) == (Held {
                abort: true,
                ..*old(held)
            }) && leaves(
                *final(self),
                old(self)@,
                out,
                final(scope)@,
                (None, old(self)@, old(scope)@),
            ),
    {
        if !live_count(base) || !live_count(slot) {
            held.abort = true;
            return None;
        }
        let pos = position_from_bits(position);
        match self.op_assign_local(program, scope, base, slot as u16, name, from, op, pos) {
            Ok(_) => None,
            Err(err) => Some(err),
        }
    }

    /// Store the topmost operand in a variable, marked as a variable or a
    /// constant.
    pub fn store_scope_slot(
        &mut self,
        program: &Program,
        scope: &mut Scope,
        slot: u16,
        constant: bool,
        position: i64,
    ) -> (out: Option<Error>)
        requires
            old(self).wf(),
        ensures
            leaves(
                *final(self),
                old(self)@,
                out,
                final(scope)@,
                done(
                    did_store_local(
                        *program,
                        old(self)@,
                        old(scope)@,
                        0,
                        slot,
                        if constant {
                            AccessMode::ReadOnly
                        } else {
                            AccessMode::ReadWrite
                        },
                        unpacked(position),
                    ),
                ),
            ),
    {
        let mode = if constant {
            AccessMode::ReadOnly
        } else {
            AccessMode::ReadWrite
        };
        let pos = position_from_bits(position);
        match self.op_store_local(program, scope, 0, slot, mode, pos) {
            Ok(_) => None,
            Err(err) => Some(err),
        }
    }

    /// Share a variable by name.
    pub fn share_named_abi(
        &mut self,
        program: &Program,
        scope: &mut Scope,
        name: u16,
        position: i64,
    ) -> (out: Option<Error>)
        requires
            old(self).wf(),
        ensures
            leaves(
                *final(self),
                old(self)@,
                out,
                final(scope)@,
                done(
                    did_share_named(
                        *program,
                        old(self)@,
                        old(scope)@,
                        name,
                        unpacked(position),
                    ),
                ),
            ),
    {
        match self.op_share_named(program, scope, name, position_from_bits(position)) {
            Ok(_) => None,
            Err(err) => Some(err),
        }
    }

    /// Make a closure.
    pub fn make_closure_abi(&mut self, program: &Program, scope: &Scope, name: u16) -> (out: Option<
        Error,
    >)
        requires
            old(self).wf(),
        ensures
            leaves(
                *final(self),
                old(self)@,
                out,
                scope@,
                done(did_make_closure(*program, old(self)@, scope@, name)),
            ),
    {
        match self.op_make_closure(program, scope, name) {
            Ok(_) => None,
            Err(err) => Some(err),
        }
    }

    /// Walk a chain.
    pub fn run_chain_abi(
        &mut self,
        program: &Program,
        chain: &Chain,
        index: u16,
        scope: &mut Scope,
        base: usize,
        position: i64,
    ) -> (out: Option<Error>)
        requires
            old(self).wf(),
        ensures
            leaves(
                *final(self),
                old(self)@,
                out,
                final(scope)@,
                pushed(
                    chain_ran(
                        below(levels_left(old(self)@)),
                        *program,
                        old(self)@,
                        index,
                        *chain,
                        old(scope)@,
                        base,
                        unpacked(position),
                    ),
                ),
            ),
    {
        match self.run_chain(program, index, chain, scope, base, position_from_bits(position)) {
            Ok(v) => {
                self.push(v);
                None
            },
            Err(err) => Some(err),
        }
    }
}

// ---------------------------------------------------------------------------
// Operators and built-ins.

/// A run with the operands from `first` up read out of any cells.
pub open spec fn flattened_from(m: Machine, first: int) -> Machine {
    m.with_stack(
        Seq::new(
            m.stack.len(),
            |i: int|
                if i < first {
                    m.stack[i]
                } else {
                    flattened(m.heap, m.stack[i])
                },
        ),
    )
}

/// What the built-in for an operator leaves on two operands: whether there was
/// one, and the run with its value on top.
#[verifier::opaque]
pub open spec fn built_in_left(
    m: Machine,
    lhs: Datum,
    rhs: Datum,
    pc: usize,
    token: Seq<char>,
    name: Seq<char>,
    pos: Position,
) -> (bool, Option<Fail>, Machine) {
    match operator_resolved(m, pc, token, lhs, rhs, pos) {
        (Err(err), m1) => (false, Some(err), m1),
        (Ok(None), m1) => (false, None, m1),
        (Ok(Some(b)), m1) => match asked_value(
            m1,
            question(
                Ask::Builtin { handle: b.handle, context: b.context },
                name,
                seq![lhs, rhs],
                pos,
            ),
        ) {
            (Err(err), m2) => (false, Some(err), m2),
            (Ok(v), m2) => (true, None, m2.push(v)),
        },
    }
}

/// What an operator's built-in leaves: whether there was one, and the run. The
/// operands stay where they are, read out of any cells.
pub open spec fn operator_left(
    m: Machine,
    first: int,
    pc: usize,
    token: Seq<char>,
    name: Seq<char>,
    pos: Position,
) -> (bool, Option<Fail>, Machine) {
    if !m.engine.fast_operators {
        (false, None, m)
    } else {
        let m1 = flattened_from(m, first);
        let (lhs, rhs) = (m1.stack[first], m1.stack[first + 1]);
        if is_host_data(lhs.data) || is_host_data(rhs.data) {
            (false, None, m1)
        } else {
            built_in_left(m1, copied(lhs), copied(rhs), pc, token, name, pos)
        }
    }
}

impl Vm<'_> {
    /// Read the operands from `first` up out of any cells.
    fn flatten_from(&mut self, first: usize)
        requires
            old(self).wf(),
        ensures
            final(self).reached(old(self)@, flattened_from(old(self)@, first as int)),
    {
        let depth: usize = self.stack.depth();
        let ghost before = self@;
        let mut i: usize = first;
        while i < depth
            invariant
                first <= i,
                first < depth ==> i <= depth,
                depth == before.stack.len(),
                self.wf(),
                self@.stack.len() == depth,
                self@ == before.with_stack(self@.stack),
                forall|j: int| 0 <= j < depth && j < i ==> #[trigger] self@.stack[j] == (if j
                    < first {
                    before.stack[j]
                } else {
                    flattened(before.heap, before.stack[j])
                }),
                forall|j: int| i <= j < depth ==> #[trigger] self@.stack[j] == before.stack[j],
            decreases depth - i,
        {
            self.flatten_operand(i);
            i = i + 1;
        }
        assert(self@.stack =~= flattened_from(before, first as int).stack);
    }

    /// Run the built-in for an operator on two operands, and say whether there
    /// was one.
    fn run_operator(
        &mut self,
        lhs: Dynamic,
        rhs: Dynamic,
        pc: usize,
        token: &str,
        name: &str,
        pos: Position,
    ) -> (out: (bool, Option<Error>))
        requires
            old(self).wf(),
        ensures
            ({
                let (handled, err, m) = built_in_left(
                    old(self)@,
                    lhs@,
                    rhs@,
                    pc,
                    token@,
                    name@,
                    pos,
                );
                out.0 == handled && failure_view(out.1) == err && final(self).reached(old(self)@, m)
            }),
    {
        proof {
            reveal(built_in_left);
        }
        match self.resolve_operator(pc, token, &lhs, &rhs, pos) {
            Err(err) => (false, Some(err)),
            Ok(None) => (false, None),
            Ok(Some(b)) => {
                let ask = Ask::Builtin { handle: b.handle, context: b.context };
                match self.ask(ask, name, pair(lhs, rhs), pos) {
                    Err(err) => (false, Some(err)),
                    Ok(answer) => match value_of(answer.reply) {
                        Err(err) => (false, Some(err)),
                        Ok(v) => {
                            self.push(v);
                            (true, None)
                        },
                    },
                }
            },
        }
    }

    /// Run the built-in for an operator on the two operands from `first` up, and
    /// leave in `held` whether there was one. A first operand that is no count
    /// abandons the walk.
    pub fn operator_builtin_abi(
        &mut self,
        held: &mut Held,
        program: &Program,
        token: &str,
        index: u32,
        first: usize,
        pc: usize,
        position: i64,
    ) -> (out: Option<Error>)
        requires
            old(self).wf(),
            first < MAX_COUNT && old(self)@.engine.fast_operators ==> first + 2
                <= old(self)@.stack.len(),
        ensures
            first >= MAX_COUNT ==> out is None && final(self).reached(old(self)@, old(self)@)
                && *final(held) == (Held { operator_handled: false, abort: true, ..*old(held) }),
            first < MAX_COUNT ==> ({
                let (handled, err, m) = operator_left(
                    old(self)@,
                    first as int,
                    pc,
                    token@,
                    match program.name_of(index as int) {
                        Some(name) => name,
                        None => ""@,
                    },
                    unpacked(position),
                );
                failure_view(out) == err && final(self).reached(old(self)@, m) && *final(held) == (
                Held { operator_handled: handled, ..*old(held) })
            }),
    {
        held.operator_handled = false;
        if !live_count(first) {
            held.abort = true;
            return None;
        }
        let name = match program.name(index) {
            Some(name) => name,
            None => "",
        };
        if !self.engine.fast_operators {
            return None;
        }
        self.flatten_from(first);
        let depth: usize = self.stack.depth();
        assert(first + 2 <= depth);
        if self.stack.get(first).is_variant() || self.stack.get(first + 1).is_variant() {
            return None;
        }
        let lhs = clone_value(self.stack.get(first));
        let rhs = clone_value(self.stack.get(first + 1));
        let pos = position_from_bits(position);
        let (handled, err) = self.run_operator(lhs, rhs, pc, token, name, pos);
        held.operator_handled = handled;
        err
    }

    /// Put the magnitude of an operand on the stack where the name is that of
    /// the built-in for it, and leave in `held` whether it was done.
    pub fn unary_builtin_abi(
        &mut self,
        held: &mut Held,
        program: &Program,
        index: u32,
        first: usize,
        position: i64,
    ) -> (out: Option<Error>)
        requires
            old(self).wf(),
            first < old(self)@.stack.len(),
        ensures
            first >= MAX_COUNT ==> out is None && final(self).reached(old(self)@, old(self)@)
                && *final(held) == (Held { unary_handled: false, abort: true, ..*old(held) }),
            first < MAX_COUNT ==> ({
                let (r, m) = if old(self)@.engine.fast_operators && program.name_of(index as int)
                    == Some("abs"@) {
                    magnitude(
                        old(self)@,
                        old(self)@.stack[first as int],
                        unpacked(position),
                    )
                } else {
                    (PlainFast::Miss, old(self)@)
                };
                failure_view(out) == failure_of(r) && final(self).reached(old(self)@, m)
                    && *final(held) == (Held { unary_handled: succeeded(r), ..*old(held) })
            }),
    {
        held.unary_handled = false;
        if !live_count(first) {
            held.abort = true;
            return None;
        }
        if !self.engine.fast_operators || !is_abs(program, index) {
            return None;
        }
        let value = clone_value(self.stack.get(first));
        let ghost operand = self@.stack[first as int];
        assert(flat_copy(self@.heap, copied(operand)).data is Int == flat_copy(
            self@.heap,
            operand,
        ).data is Int);
        match self.try_plain_abs(&value, position_from_bits(position)) {
            PlainFast::Did(None) => {
                held.unary_handled = true;
                None
            },
            PlainFast::Did(Some(err)) => Some(err),
            PlainFast::Miss => None,
        }
    }

    /// Add the two operands from `first` up, and leave in `held` whether it was
    /// done.
    pub fn call_plain_add_abi(&mut self, held: &mut Held, first: usize) -> (out: Option<Error>)
        requires
            old(self).wf(),
        ensures
            ({
                let (r, m) = if first + 1 < old(self)@.stack.len() {
                    summed(
                        old(self)@,
                        old(self)@.stack[first as int],
                        old(self)@.stack[first + 1],
                        first as int,
                    )
                } else {
                    (PlainFast::Miss, old(self)@)
                };
                failure_view(out) == failure_of(r) && final(self).reached(old(self)@, m)
                    && *final(held) == (Held { plain_add_handled: succeeded(r), ..*old(held) })
            }),
    {
        held.plain_add_handled = false;
        let depth: usize = self.stack.depth();
        if depth < 2 || first >= depth - 1 {
            return None;
        }
        let outcome = apply_binary(
            BinOpKind::Add,
            self.stack.get(first),
            self.stack.get(first + 1),
        );
        let operands = pair(
            clone_value(self.stack.get(first)),
            clone_value(self.stack.get(first + 1)),
        );
        match self.settle_sum(outcome, operands, first) {
            PlainFast::Did(None) => {
                held.plain_add_handled = true;
                None
            },
            PlainFast::Did(Some(err)) => Some(err),
            PlainFast::Miss => None,
        }
    }

    /// Add a local and an operand, and leave in `held` whether it was done.
    pub fn call_plain_add_ref_abi(
        &mut self,
        held: &mut Held,
        scope: &Scope,
        base: usize,
        slot: u16,
        first: usize,
    ) -> (out: Option<Error>)
        requires
            old(self).wf(),
        ensures
            ({
                let (r, m) = if base + slot < scope@.len() && first < old(self)@.stack.len() {
                    summed(
                        old(self)@,
                        scope@[base + slot].1,
                        old(self)@.stack[first as int],
                        first as int,
                    )
                } else {
                    (PlainFast::Miss, old(self)@)
                };
                failure_view(out) == failure_of(r) && final(self).reached(old(self)@, m)
                    && *final(held) == (Held { plain_add_handled: succeeded(r), ..*old(held) })
            }),
    {
        held.plain_add_handled = false;
        let len: usize = scope.len();
        if base >= len || slot as usize >= len - base || first >= self.stack.depth() {
            return None;
        }
        let lhs = scope.get_by_index(base + slot as usize);
        let outcome = apply_binary(BinOpKind::Add, lhs, self.stack.get(first));
        let operands = pair(clone_value(lhs), clone_value(self.stack.get(first)));
        match self.settle_sum(outcome, operands, first) {
            PlainFast::Did(None) => {
                held.plain_add_handled = true;
                None
            },
            PlainFast::Did(Some(err)) => Some(err),
            PlainFast::Miss => None,
        }
    }

    /// Put the magnitude of a local on the stack, and leave in `held` whether
    /// it was done.
    pub fn call_plain_abs_ref_abi(
        &mut self,
        held: &mut Held,
        scope: &Scope,
        base: usize,
        slot: u16,
        position: i64,
    ) -> (out: Option<Error>)
        requires
            old(self).wf(),
        ensures
            ({
                let (r, m) = if base + slot < scope@.len() {
                    magnitude(old(self)@, scope@[base + slot].1, unpacked(position))
                } else {
                    (PlainFast::Miss, old(self)@)
                };
                failure_view(out) == failure_of(r) && final(self).reached(old(self)@, m)
                    && *final(held) == (Held { unary_handled: succeeded(r), ..*old(held) })
            }),
    {
        held.unary_handled = false;
        let len: usize = scope.len();
        if base >= len || slot as usize >= len - base {
            return None;
        }
        let value = scope.get_by_index(base + slot as usize);
        match self.try_plain_abs(value, position_from_bits(position)) {
            PlainFast::Did(None) => {
                held.unary_handled = true;
                None
            },
            PlainFast::Did(Some(err)) => Some(err),
            PlainFast::Miss => None,
        }
    }
}

/// The failure of a call tried the short way, if it failed.
pub open spec fn failure_of(r: PlainFast<Fail>) -> Option<Fail> {
    match r {
        PlainFast::Did(err) => err,
        PlainFast::Miss => None,
    }
}

/// Whether a call tried the short way was done.
pub open spec fn succeeded(r: PlainFast<Fail>) -> bool {
    r matches PlainFast::Did(err) && err is None
}

fn is_abs(program: &Program, index: u32) -> (r: bool)
    ensures
        r == (program.name_of(index as int) == Some("abs"@)),
{
    match program.name(index) {
        Some(name) => same_text(name, "abs"),
        None => false,
    }
}

/// Whether a name is that of the built-in for magnitudes, as a word.
pub fn name_is_abs(program: &Program, index: u32) -> (n: i64)
    ensures
        n == (if program.name_of(index as int) == Some("abs"@) {
            1i64
        } else {
            0
        }),
{
    if is_abs(program, index) {
        1
    } else {
        0
    }
}

// ---------------------------------------------------------------------------
// Switches, results and stacks.

/// A failed call by the short way leaves everything as it was.
pub proof fn misses_change_nothing(m: Machine, lhs: Datum, rhs: Datum, first: int, pos: Position)
    ensures
        summed(m, lhs, rhs, first).0 is Miss ==> summed(m, lhs, rhs, first).1 == m,
        magnitude(m, lhs, pos).0 is Miss ==> magnitude(m, lhs, pos).1 == m,
{
}

impl Vm<'_> {
    /// Take the value a switch is on, and leave in `held` where it goes.
    pub fn switch_dispatch(&mut self, held: &mut Held, table: &Switch) -> (out: Option<Error>)
        requires
            old(self).wf(),
        ensures
            match popped(old(self)@) {
                Err(err) => failure_view(out) == Some(err) && final(self).reached(
                    old(self)@,
                    old(self)@,
                ) && *final(held) == *old(held),
                Ok((v, m)) => out is None && final(self).reached(old(self)@, m) && *final(held) == (
                Held {
                    switch_target: table.goes(flattened(m.heap, v).data, 0) as i64,
                    ..*old(held)
                }),
            },
    {
        match self.pop() {
            Ok(subject) => {
                let subject = self.heap.flatten(subject);
                held.switch_target = table.dispatch(&subject) as i64;
                None
            },
            Err(err) => Some(err),
        }
    }

    /// Take the value a switch is on. An integer is left in `held` for the
    /// trace to tell; where anything else goes is left there instead.
    pub fn switch_pop_subject(&mut self, held: &mut Held, table: &Switch) -> (out: Option<Error>)
        requires
            old(self).wf(),
        ensures
            match popped(old(self)@) {
                Err(err) => failure_view(out) == Some(err) && final(self).reached(
                    old(self)@,
                    old(self)@,
                ) && *final(held) == *old(held),
                Ok((v, m)) => out is None && final(self).reached(old(self)@, m) && *final(held) == (
                match flattened(m.heap, v).data {
                    Data::Int(i) => Held { fast_int: i, switch_kind: 1, ..*old(held) },
                    subject => Held {
                        switch_kind: 0,
                        switch_target: table.goes(subject, 0) as i64,
                        ..*old(held)
                    },
                }),
            },
    {
        match self.pop() {
            Ok(subject) => {
                let subject = self.heap.flatten(subject);
                match subject.as_int() {
                    Ok(i) => {
                        held.fast_int = i;
                        held.switch_kind = 1;
                    },
                    Err(_) => {
                        held.switch_kind = 0;
                        held.switch_target = table.dispatch(&subject) as i64;
                    },
                }
                None
            },
            Err(err) => Some(err),
        }
    }

    /// Push a plain value. A stack deeper than any count abandons the walk.
    pub fn push_fast(&mut self, held: &mut Held, value: Dynamic)
        requires
            old(self).wf(),
        ensures
            old(self)@.stack.len() < MAX_COUNT ==> *final(held) == *old(held)
                && final(self).reached(old(self)@, old(self)@.push(value@)),
            old(self)@.stack.len() >= MAX_COUNT ==> *final(held) == (Held {
                abort: true,
                ..*old(held)
            }) && final(self).reached(old(self)@, old(self)@),
    {
        if !live_count(self.stack.depth()) {
            held.abort = true;
            return;
        }
        self.push(value);
    }

    /// Drop the innermost loop, if there is one.
    pub fn iterators_pop(&mut self, held: &mut Held)
        requires
            old(self).wf(),
        ensures
            *final(held) == (if old(self)@.iterators.len() > 0 {
                Held { committed: true, ..*old(held) }
            } else {
                *old(held)
            }),
            final(self).reached(
                old(self)@,
                Machine {
                    iterators: if old(self)@.iterators.len() > 0 {
                        old(self)@.iterators.drop_last()
                    } else {
                        old(self)@.iterators
                    },
                    ..old(self)@
                },
            ),
    {
        if self.iterators.len() == 0 {
            return;
        }
        held.committed = true;
        let _ = self.iterators.pop();
    }

    /// Drop operands, down to `depth` of them. A depth that is no count
    /// abandons the walk.
    pub fn truncate_stack_abi(&mut self, held: &mut Held, depth: usize)
        requires
            old(self).wf(),
        ensures
            *final(held) == marked(*old(held), depth),
            final(self).reached(
                old(self)@,
                if depth < MAX_COUNT {
                    old(self)@.truncate(depth as int)
                } else {
                    old(self)@
                },
            ),
    {
        if !live_count(depth) {
            held.abort = true;
            return;
        }
        held.committed = true;
        self.truncate_stack(depth);
    }

    /// Drop loops, down to `len` of them.
    pub fn iterators_truncate(&mut self, held: &mut Held, len: usize)
        requires
            old(self).wf(),
        ensures
            *final(held) == marked(*old(held), len),
            final(self).reached(
                old(self)@,
                Machine {
                    iterators: if len < MAX_COUNT {
                        cut(old(self)@.iterators, len as int)
                    } else {
                        old(self)@.iterators
                    },
                    ..old(self)@
                },
            ),
    {
        if !live_count(len) {
            held.abort = true;
            return;
        }
        held.committed = true;
        self.iterators.truncate(len);
        assert(self.iterators@ =~= cut(old(self)@.iterators, len as int));
    }

    /// Drop `try` regions, down to `len` of them.
    pub fn handlers_truncate(&mut self, held: &mut Held, len: usize)
        requires
            old(self).wf(),
        ensures
            *final(held) == marked(*old(held), len),
            final(self).reached(
                old(self)@,
                Machine {
                    handlers: if len < MAX_COUNT {
                        cut(old(self)@.handlers, len as int)
                    } else {
                        old(self)@.handlers
                    },
                    ..old(self)@
                },
            ),
    {
        if !live_count(len) {
            held.abort = true;
            return;
        }
        held.committed = true;
        self.handlers.truncate(len);
        assert(self@.handlers =~= cut(old(self)@.handlers, len as int));
    }

    /// Drop the sizes of literals, down to `len` of them.
    pub fn sizes_truncate(&mut self, held: &mut Held, len: usize)
        requires
            old(self).wf(),
        ensures
            *final(held) == marked(*old(held), len),
            final(self).reached(
                old(self)@,
                Machine {
                    sizes: if len < MAX_COUNT {
                        cut(old(self)@.sizes, len as int)
                    } else {
                        old(self)@.sizes
                    },
                    ..old(self)@
                },
            ),
    {
        if !live_count(len) {
            held.abort = true;
            return;
        }
        held.committed = true;
        self.sizes.truncate(len);
        assert(self.sizes@ =~= cut(old(self)@.sizes, len as int));
    }
}

/// What is held after a helper was handed a count, or a word that is none.
pub open spec fn marked(held: Held, n: usize) -> Held {
    if n < MAX_COUNT {
        Held { committed: true, ..held }
    } else {
        Held { abort: true, ..held }
    }
}

/// Drop variables, down to `size` of them. A size that is no count abandons
/// the walk.
pub fn scope_rewind(held: &mut Held, scope: &mut Scope, size: usize)
    ensures
        *final(held) == marked(*old(held), size),
        final(scope)@ == (if size < MAX_COUNT {
            rewound(old(scope)@, size as int)
        } else {
            old(scope)@
        }),
{
    if !live_count(size) {
        held.abort = true;
        return;
    }
    held.committed = true;
    scope.rewind(size);
}

/// Write the payload of an integer in place: its tag and its mode stay.
pub fn dynamic_store_int(target: &mut Dynamic, value: i64)
    requires
        old(target)@.data is Int,
    ensures
        final(target)@ == (Datum { data: Data::Int(value), ..old(target)@ }),
{
    target.value = Union::Int(value);
}

/// Write the payload of a float in place, as its bits: its tag and its mode
/// stay.
pub fn dynamic_store_float(target: &mut Dynamic, bits: u64)
    requires
        old(target)@.data is Float,
    ensures
        final(target)@ == (Datum { data: Data::Float(bits), ..old(target)@ }),
{
    target.value = Union::Float(bits);
}

/// Move a loop over a range on.
pub fn store_int_range_next(items: &mut Items, value: i64)
    ensures
        *final(items) == (match *old(items) {
            Items::IntRange { next: _, end } => Items::IntRange { next: value, end },
            other => other,
        }),
{
    match *items {
        Items::IntRange { next: _, end } => {
            *items = Items::IntRange { next: value, end };
        },
        Items::Hosted { .. } => {},
    }
}

/// Set the index a loop has handed out last.
pub fn store_iteration_count(iteration: &mut Iteration, value: i64)
    ensures
        *final(iteration) == (Iteration { count: value, ..*old(iteration) }),
{
    iteration.count = value;
}

impl GrainFrame {
    /// Leave a copy of what compiled code returned with the frame.
    pub fn stash_ok_result(&mut self, value: &Dynamic)
        ensures
            final(self).jit_finished is Some,
            final(self).jit_finished->0 is Ok,
            final(self).jit_finished->0->Ok_0@ == copied(value@),
            *final(self) == (GrainFrame {
                jit_finished: final(self).jit_finished,
                jit_return_kind: 1,
                ..*old(self)
            }),
    {
        self.jit_finished = Some(Ok(clone_value(value)));
        self.jit_return_kind = 1;
    }

    /// Take what compiled code returned. Where there is nothing, the value is
    /// left alone.
    pub fn take_finished_result(&mut self, value: &mut Dynamic) -> (out: Option<Error>)
        ensures
            *final(self) == (GrainFrame {
                jit_finished: None,
                jit_return_kind: 0,
                ..*old(self)
            }),
            match old(self).jit_finished {
                Some(Ok(v)) => *final(value) == v && out is None,
                Some(Err(err)) => *final(value) == *old(value) && out == Some(err),
                None => *final(value) == *old(value) && out is None,
            },
    {
        self.jit_return_kind = 0;
        match self.jit_finished.take() {
            Some(Ok(v)) => {
                *value = v;
                None
            },
            Some(Err(err)) => Some(err),
            None => None,
        }
    }
}

/// A value stored in a variable through any cell it is in.
pub open spec fn variable_stored(
    p: Program,
    m: Machine,
    scope: Names,
    index: int,
    value: Datum,
    pos: Position,
) -> Left {
    let (r, entry, m1) = stored_through(m, p, None, scope[index].1, value, ""@, pos);
    (
        match r {
            Ok(_) => None,
            Err(err) => Some(err),
        },
        m1,
        stored(scope, index, entry),
    )
}

impl Vm<'_> {
    /// Store a value in a variable through any cell it is in.
    fn store_variable(
        &mut self,
        program: &Program,
        scope: &mut Scope,
        index: usize,
        value: Dynamic,
        pos: Position,
    ) -> (out: Option<Error>)
        requires
            old(self).wf(),
            index < old(scope)@.len(),
        ensures
            leaves(
                *final(self),
                old(self)@,
                out,
                final(scope)@,
                variable_stored(
                    *program,
                    old(self)@,
                    old(scope)@,
                    index as int,
                    value@,
                    pos,
                ),
            ),
    {
        let ghost before = scope@;
        let mut entry = scope.take(index);
        let out = self.store_through(program, None, &mut entry, value, "", pos);
        proof {
            taken_and_put_back(before, index as int, entry@);
        }
        scope.put(index, entry);
        match out {
            Ok(_) => None,
            Err(err) => Some(err),
        }
    }

    /// Store the topmost operand, read out of any cell, in a variable through
    /// any cell that is in. An index that is no count abandons the walk.
    pub fn store_shared_from_stack(
        &mut self,
        held: &mut Held,
        program: &Program,
        scope: &mut Scope,
        index: usize,
        position: i64,
    ) -> (out: Option<Error>)
        requires
            old(self).wf(),
            index < old(scope)@.len(),
        ensures
            ({
                let (after, left) = if index >= MAX_COUNT {
                    (Held { abort: true, ..*old(held) }, (None, old(self)@, old(scope)@))
                } else {
                    match popped(old(self)@) {
                        Err(err) => (*old(held), (Some(err), old(self)@, old(scope)@)),
                        Ok((v, m)) => (
                            Held { committed: true, ..*old(held) },
                            variable_stored(
                                *program,
                                m,
                                old(scope)@,
                                index as int,
                                flattened(m.heap, v),
                                unpacked(position),
                            ),
                        ),
                    }
                };
                *final(held) == after && leaves(
                    *final(self),
                    old(self)@,
                    out,
                    final(scope)@,
                    left,
                )
            }),
    {
        if !live_count(index) {
            held.abort = true;
            return None;
        }
        match self.pop() {
            Ok(value) => {
                held.committed = true;
                let value = self.heap.flatten(value);
                self.store_variable(program, scope, index, value, position_from_bits(position))
            },
            Err(err) => Some(err),
        }
    }

    /// Store an integer in a variable: in place where it holds one already,
    /// and otherwise through any cell it is in, whether or not that can be
    /// done. An index that is no count abandons the walk.
    pub fn store_scope_int(
        &mut self,
        held: &mut Held,
        program: &Program,
        scope: &mut Scope,
        index: usize,
        value: i64,
        position: i64,
    )
        requires
            old(self).wf(),
            index < old(scope)@.len(),
        ensures
            *final(held) == marked(*old(held), index),
            ({
                let entry = old(scope)@[index as int].1;
                let left: Left = if index >= MAX_COUNT {
                    (None, old(self)@, old(scope)@)
                } else if entry.data is Int {
                    (
                        None,
                        old(self)@,
                        stored(
                            old(scope)@,
                            index as int,
                            Datum { data: Data::Int(value), ..entry },
                        ),
                    )
                } else {
                    variable_stored(
                        *program,
                        old(self)@,
                        old(scope)@,
                        index as int,
                        datum(Data::Int(value)),
                        unpacked(position),
                    )
                };
                final(self).reached(old(self)@, left.1) && final(scope)@ == left.2
            }),
    {
        if !live_count(index) {
            held.abort = true;
            return;
        }
        held.committed = true;
        if matches!(scope.get_by_index(index).value, Union::Int(_)) {
            let ghost before = scope@;
            let mut entry = scope.take(index);
            dynamic_store_int(&mut entry, value);
            proof {
                taken_and_put_back(before, index as int, entry@);
            }
            scope.put(index, entry);
        } else {
            let value = Dynamic::from_int(value);
            let _ = self.store_variable(
                program,
                scope,
                index,
                value,
                position_from_bits(position),
            );
        }
    }
}

// ---------------------------------------------------------------------------
// A switch in single words.

/// How many literals a switch has.
#[verifier::truncate]
pub fn switch_case_count(table: &Switch) -> (n: i64)
    ensures
        n == table.cases@.len() as i64,
{
    table.cases.len() as i64
}

/// Whether a case is an integer, as a word.
pub fn switch_case_has_int(table: &Switch, index: usize) -> (n: i64)
    ensures
        n == (if table.key_at(index as int) is Some {
            1i64
        } else {
            0
        }),
{
    if table.int_key(index).is_some() {
        1
    } else {
        0
    }
}

/// The integer a case is, or zero.
pub fn switch_case_int_key(table: &Switch, index: usize) -> (n: i64)
    ensures
        n == (match table.key_at(index as int) {
            Some(n) => n,
            None => 0,
        }),
{
    match table.int_key(index) {
        Some(n) => n,
        None => 0,
    }
}

/// Where a case goes, or zero where there is none.
pub fn switch_case_target(table: &Switch, index: usize) -> (n: i64)
    ensures
        n == (if index < table.cases@.len() {
            table.cases@[index as int].target as i64
        } else {
            0
        }),
{
    if index < table.cases.len() {
        table.cases[index].target as i64
    } else {
        0
    }
}

/// Where everything else goes.
pub fn switch_default(table: &Switch) -> (n: i64)
    ensures
        n == table.default,
{
    table.default as i64
}

/// How many ranges a switch has.
#[verifier::truncate]
pub fn switch_range_count(table: &Switch) -> (n: i64)
    ensures
        n == table.ranges@.len() as i64,
{
    table.ranges.len() as i64
}

/// Where a range starts, or zero where there is none.
pub fn switch_range_from(table: &Switch, index: usize) -> (n: i64)
    ensures
        n == table.range_at(index as int).from,
{
    table.range(index).from
}

/// Where a range ends, or zero where there is none.
pub fn switch_range_to(table: &Switch, index: usize) -> (n: i64)
    ensures
        n == table.range_at(index as int).to,
{
    table.range(index).to
}

/// Whether a range holds its end, as a word.
pub fn switch_range_inclusive(table: &Switch, index: usize) -> (n: i64)
    ensures
        n == (if table.range_at(index as int).inclusive {
            1i64
        } else {
            0
        }),
{
    if table.range(index).inclusive {
        1
    } else {
        0
    }
}

/// Where a range goes, or zero where there is none.
pub fn switch_range_target(table: &Switch, index: usize) -> (n: i64)
    ensures
        n == table.range_at(index as int).target,
{
    table.range(index).target as i64
}

/// The integers of a switch, told apart in single words, go where the switch
/// sends them: to the first case that is the integer.
pub proof fn cases_in_words_agree(table: Switch, n: i64, i: int)
    requires
        0 <= i < table.cases@.len(),
        table.key_at(i) == Some(n),
        forall|j: int| 0 <= j < i ==> table.key_at(j) != Some(n),
    ensures
        table.goes(Data::Int(n), 0) == table.cases@[i].target,
{
    cases_before_are_passed(table, n, 0, i);
}

proof fn cases_before_are_passed(table: Switch, n: i64, from: int, i: int)
    requires
        0 <= from <= i < table.cases@.len(),
        table.key_at(i) == Some(n),
        forall|j: int| 0 <= j < i ==> table.key_at(j) != Some(n),
    ensures
        table.goes(Data::Int(n), from) == table.cases@[i].target,
    decreases i - from,
{
    if from < i {
        assert(table.key_at(from) != Some(n));
        cases_before_are_passed(table, n, from + 1, i);
    }
}

impl Vm<'_> {
    /// Move the innermost loop on, with its item stored in a variable, and
    /// leave in `held` whether there was one. An index that is no count
    /// abandons the walk.
    pub fn iter_next_store(
        &mut self,
        held: &mut Held,
        program: &Program,
        scope: &mut Scope,
        index: usize,
        position: i64,
    ) -> (out: Option<Error>)
        requires
            old(self).wf(),
        ensures
            index >= MAX_COUNT ==> *final(held) == (Held { abort: true, ..*old(held) }) && leaves(
                *final(self),
                old(self)@,
                out,
                final(scope)@,
                (None, old(self)@, old(scope)@),
            ),
            index < MAX_COUNT ==> ({
                let (r, m, left) = advanced(
                    *program,
                    old(self)@,
                    old(scope)@,
                    0,
                    false,
                    Some(index as u16),
                    unpacked(position),
                );
                &&& *final(held) == (match r {
                    Ok(had) => Held { iter_next_produced: had, committed: true, ..*old(held) },
                    Err(_) => *old(held),
                })
                &&& leaves(
                    *final(self),
                    old(self)@,
                    out,
                    final(scope)@,
                    (
                        match r {
                            Ok(_) => None,
                            Err(err) => Some(err),
                        },
                        m,
                        left,
                    ),
                )
            }),
    {
        if !live_count(index) {
            held.abort = true;
            return None;
        }
        let pos = position_from_bits(position);
        match self.advance(program, scope, 0, false, Some(index as u16), pos) {
            Ok(had) => {
                held.committed = true;
                held.iter_next_produced = had;
                None
            },
            Err(err) => Some(err),
        }
    }

    /// Count an operation, whether or not that is one too many.
    pub fn track_operation_abi(&mut self, position: i64)
        requires
            old(self).wf(),
        ensures
            final(self).reached(old(self)@, counted(old(self)@, unpacked(position)).1),
    {
        let _ = self.track_operation(position_from_bits(position));
    }

    /// Make room for more operands. A count that is none abandons the walk.
    pub fn grow_stack_abi(&mut self, held: &mut Held, extra: usize)
        requires
            old(self).wf(),
        ensures
            *final(held) == marked(*old(held), extra),
            final(self).reached(
                old(self)@,
                Machine {
                    room: if extra < MAX_COUNT {
                        resized(old(self)@.room, old(self)@.stack.len(), extra as nat)
                    } else {
                        old(self)@.room
                    },
                    ..old(self)@
                },
            ),
    {
        if !live_count(extra) {
            held.abort = true;
            return;
        }
        held.committed = true;
        self.stack.grow_stack(extra);
    }

    /// Whether the fast operators are in use, as a word.
    pub fn fast_operators(&self) -> (n: i64)
        ensures
            n == (if self@.engine.fast_operators {
                1i64
            } else {
                0
            }),
    {
        if self.engine.fast_operators {
            1
        } else {
            0
        }
    }

    /// Copy a value, read out of any cell, onto the stack.
    pub fn push_from_cell(&mut self, cell: &Dynamic)
        requires
            old(self).wf(),
        ensures
            final(self).reached(
                old(self)@,
                old(self)@.push(flat_copy(old(self)@.heap, cell@)),
            ),
    {
        let value = self.heap.flatten_clone_value(cell);
        self.push(value);
    }
}

// ---------------------------------------------------------------------------
// Operand slots and built-in operator assignments.

/// What a slot of the operand stack holds: an operand, or unit above the top.
pub open spec fn slot_of(m: Machine, index: usize) -> Datum {
    if index < m.stack.len() {
        m.stack[index as int]
    } else {
        unit()
    }
}

/// A run with one operand replaced. A slot there is none of abandons the walk.
pub open spec fn slot_stored(m: Machine, held: Held, index: usize, value: Datum) -> (Machine, Held) {
    if index < m.stack.len() {
        (m.with_stack(m.stack.update(index as int, value)), held)
    } else if index < m.room {
        (m, held)
    } else {
        (m, Held { abort: true, ..held })
    }
}

/// Whether a value may be stored in a slot: nothing is ever kept above the top.
pub open spec fn storable(m: Machine, index: usize) -> bool {
    index < m.stack.len() || index >= m.room
}

/// Move a value to another place, leaving unit behind.
pub fn dynamic_store(target: &mut Dynamic, value: &mut Dynamic)
    ensures
        *final(target) == *old(value),
        final(value)@ == unit(),
{
    *target = value.take();
}

impl Vm<'_> {
    /// What a slot holds. Nothing where there is no such slot, and the walk is
    /// abandoned.
    pub fn operand_stack_entry(&self, held: &mut Held, index: usize) -> (entry: Option<&Dynamic>)
        requires
            self.wf(),
        ensures
            index < self@.room ==> entry is Some && entry->0@ == slot_of(self@, index)
                && *final(held) == *old(held),
            index >= self@.room ==> entry is None && *final(held) == (Held {
                abort: true,
                ..*old(held)
            }),
    {
        if index < self.stack.allocated() {
            Some(self.stack.slot(index))
        } else {
            held.abort = true;
            None
        }
    }

    /// Move an operand out of its slot, leaving unit behind. Where there is no
    /// such slot the walk is abandoned.
    pub fn operand_stack_take(&mut self, held: &mut Held, index: usize, value: &mut Dynamic)
        requires
            old(self).wf(),
        ensures
            final(self).reached(
                old(self)@,
                slot_stored(old(self)@, *old(held), index, unit()).0,
            ),
            *final(held) == slot_stored(old(self)@, *old(held), index, unit()).1,
            final(value)@ == (if index < old(self)@.room {
                slot_of(old(self)@, index)
            } else {
                old(value)@
            }),
    {
        proof {
            self.stack.fits();
        }
        if index < self.stack.depth() {
            *value = self.stack.take(index);
        } else if index < self.stack.allocated() {
            *value = Dynamic::unit();
        } else {
            held.abort = true;
        }
    }

    /// Move a value into an operand's slot, leaving unit behind. Where there is
    /// no such slot the walk is abandoned.
    pub fn operand_stack_store(&mut self, held: &mut Held, index: usize, value: &mut Dynamic)
        requires
            old(self).wf(),
            storable(old(self)@, index),
        ensures
            final(self).reached(
                old(self)@,
                slot_stored(old(self)@, *old(held), index, old(value)@).0,
            ),
            *final(held) == slot_stored(old(self)@, *old(held), index, old(value)@).1,
            final(value)@ == (if index < old(self)@.stack.len() {
                unit()
            } else {
                old(value)@
            }),
    {
        proof {
            self.stack.fits();
        }
        if index < self.stack.depth() {
            self.stack.set(index, value.take());
        } else {
            held.abort = true;
        }
    }

    fn store_slot(&mut self, held: &mut Held, index: usize, value: Dynamic)
        requires
            old(self).wf(),
            storable(old(self)@, index),
        ensures
            final(self).reached(
                old(self)@,
                slot_stored(old(self)@, *old(held), index, value@).0,
            ),
            *final(held) == slot_stored(old(self)@, *old(held), index, value@).1,
    {
        let mut value = value;
        self.operand_stack_store(held, index, &mut value);
    }

    /// Put an integer in an operand's slot.
    pub fn operand_stack_store_int(&mut self, held: &mut Held, index: usize, value: i64)
        requires
            old(self).wf(),
            storable(old(self)@, index),
        ensures
            ({
                let (m, h) = slot_stored(old(self)@, *old(held), index, datum(Data::Int(value)));
                final(self).reached(old(self)@, m) && *final(held) == h
            }),
    {
        self.store_slot(held, index, Dynamic::from_int(value));
    }

    /// Put a boolean in an operand's slot: true for any word but zero.
    pub fn operand_stack_store_bool(&mut self, held: &mut Held, index: usize, value: i64)
        requires
            old(self).wf(),
            storable(old(self)@, index),
        ensures
            ({
                let (m, h) = slot_stored(
                    old(self)@,
                    *old(held),
                    index,
                    datum(Data::Bool(value != 0)),
                );
                final(self).reached(old(self)@, m) && *final(held) == h
            }),
    {
        self.store_slot(held, index, Dynamic::from_bool(value != 0));
    }

    /// Put a float, given by its bits, in an operand's slot.
    pub fn operand_stack_store_float(&mut self, held: &mut Held, index: usize, bits: u64)
        requires
            old(self).wf(),
            storable(old(self)@, index),
        ensures
            ({
                let (m, h) = slot_stored(old(self)@, *old(held), index, datum(Data::Float(bits)));
                final(self).reached(old(self)@, m) && *final(held) == h
            }),
    {
        self.store_slot(held, index, Dynamic::of(Union::Float(bits)));
    }

    /// Put unit in an operand's slot.
    pub fn operand_stack_store_unit(&mut self, held: &mut Held, index: usize)
        requires
            old(self).wf(),
            storable(old(self)@, index),
        ensures
            ({
                let (m, h) = slot_stored(old(self)@, *old(held), index, unit());
                final(self).reached(old(self)@, m) && *final(held) == h
            }),
    {
        self.store_slot(held, index, Dynamic::unit());
    }

    /// Whether the host has a built-in operator assignment for a pair, as a word.
    pub fn store_builtin_available(
        &mut self,
        program: &Program,
        op: AssignOp,
        target: &Dynamic,
        rhs: &Dynamic,
    ) -> (n: i64)
        requires
            old(self).wf(),
        ensures
            ({
                let (r, m) = asked(
                    old(self)@,
                    question(
                        Ask::HasOpAssign,
                        assign_name(*program, op),
                        seq![copied(target@), copied(rhs@)],
                        nowhere(),
                    ),
                );
                n == (if r matches Ok(a) && a.reply is Value {
                    1i64
                } else {
                    0
                }) && final(self).reached(old(self)@, m)
            }),
    {
        let name = assign_text(program, op);
        let operands = pair(clone_value(target), clone_value(rhs));
        match self.ask(Ask::HasOpAssign, name.as_str(), operands, Position::none()) {
            Ok(answer) => match answer.reply {
                Reply::Value(_) => 1,
                _ => 0,
            },
            Err(_) => 0,
        }
    }

    /// Run the built-in operator assignment the host said it has for a pair. A
    /// host that has none after all fails the assignment.
    pub fn store_builtin_apply(
        &mut self,
        program: &Program,
        op: AssignOp,
        target: &mut Dynamic,
        rhs: Dynamic,
        position: i64,
    ) -> (out: Option<Error>)
        requires
            old(self).wf(),
        ensures
            ({
                let pos = unpacked(position);
                let (b, m) = host_assigned(old(self)@, *program, op, old(target)@, rhs@, pos);
                &&& failure_view(out) == (if b.handled {
                    b.error
                } else {
                    Some(
                        fail(
                            FailureKind::ErrorRuntime(
                                datum(
                                    Data::Str(
                                        "the built-in op-assignment table answered twice and disagreed"@,
                                    ),
                                ),
                            ),
                            pos,
                        ),
                    )
                })
                &&& final(target)@ == b.target
                &&& final(self).reached(old(self)@, m)
            }),
    {
        let pos = position_from_bits(position);
        let outcome = self.host_assign(program, op, target, rhs, pos);
        if outcome.handled {
            outcome.error
        } else {
            let text = "the built-in op-assignment table answered twice and disagreed";
            Some(raised(FailureKind::ErrorRuntime(Dynamic::from_text(text.to_owned())), pos))
        }
    }
}

} // verus!
