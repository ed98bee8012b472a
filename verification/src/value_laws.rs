//! What values do: arithmetic and comparison, copying and marking, reading cells
//! and writing numbers down.
use vstd::arithmetic::power::{lemma_pow0, lemma_pow1, lemma_pow_adds, pow};
use vstd::prelude::*;

use crate::arith::{applied, arithmetic, assign_applied, kind_of, negated, Applied, BinOpKind};
use crate::bytecode::{Op, Operator, Shape};
use crate::error::Fail;
use crate::frame::{stepped, Runner};
use crate::heap::{flat_copy, flattened, read_only, CellView};
use crate::machine::Machine;
use crate::operate::{delivered, fast_answer, operands_pushed, operated, transferred, Flow};
use crate::program::Program;
use crate::scope::Names;
use crate::text::{decimal, decimal_nat, digit_char, identifier};
use crate::value::{copied, name_of_type, with_mode, AccessMode, Data, Datum};

verus! {

// ---------------------------------------------------------------------------
// Arithmetic.

/// Whether an operator on two integers gives exactly this integer, or fails where
/// that is no integer of the machine.
pub open spec fn gives_or_overflows(kind: BinOpKind, x: i64, y: i64, n: int) -> bool {
    if i64::MIN <= n <= i64::MAX {
        applied(kind, Data::Int(x), Data::Int(y)) matches Ok(Applied::Done(v)) && v.data
            == Data::Int(n as i64) && v.mode == AccessMode::ReadWrite && v.tag == 0
    } else {
        applied(kind, Data::Int(x), Data::Int(y)) matches Err(err) && err.kind is ErrorArithmetic
    }
}

/// Sums, differences and products are the exact ones, and an overflow is a
/// failure.
pub proof fn sums_are_exact(x: i64, y: i64)
    ensures
        gives_or_overflows(BinOpKind::Add, x, y, x + y),
        gives_or_overflows(BinOpKind::Subtract, x, y, x - y),
        gives_or_overflows(BinOpKind::Multiply, x, y, x * y),
{
}

/// A quotient and its remainder make up the dividend, the remainder is smaller
/// than the divisor, and it has the dividend's sign. Nothing is divided by
/// nought.
pub proof fn quotients_and_remainders_make_up_the_dividend(x: i64, y: i64)
    ensures
        y == 0 ==> applied(BinOpKind::Divide, Data::Int(x), Data::Int(y)) is Err && applied(
            BinOpKind::Modulo,
            Data::Int(x),
            Data::Int(y),
        ) is Err,
        x == i64::MIN && y == -1 ==> applied(BinOpKind::Divide, Data::Int(x), Data::Int(y)) is Err
            && applied(BinOpKind::Modulo, Data::Int(x), Data::Int(y)) is Err,
        y != 0 && !(x == i64::MIN && y == -1) ==> {
            &&& applied(BinOpKind::Divide, Data::Int(x), Data::Int(y)) matches Ok(Applied::Done(v))
            &&& applied(BinOpKind::Modulo, Data::Int(x), Data::Int(y)) matches Ok(Applied::Done(w))
            &&& v.data matches Data::Int(q)
            &&& w.data matches Data::Int(r)
            &&& x == q * y + r
            &&& y > 0 ==> -y < r < y
            &&& y < 0 ==> y < r < -y
            &&& x >= 0 ==> r >= 0
            &&& x <= 0 ==> r <= 0
        },
{
    if y != 0 && !(x == i64::MIN && y == -1) {
        let d: int = if y < 0 {
            -(y as int)
        } else {
            y as int
        };
        let a: int = if x < 0 {
            -(x as int)
        } else {
            x as int
        };
        let qa = a / d;
        let ra = a % d;
        assert(a == d * qa + ra && 0 <= ra < d) by (nonlinear_arith)
            requires
                a >= 0,
                d > 0,
                qa == a / d,
                ra == a % d,
        ;
        assert(0 <= qa <= a) by (nonlinear_arith)
            requires
                a >= 0,
                d > 0,
                qa == a / d,
        ;
        if d >= 2 {
            assert(2 * qa <= a) by (nonlinear_arith)
                requires
                    a >= 0,
                    d >= 2,
                    qa == a / d,
            ;
        } else {
            assert(d == 1);
        }
        let q = crate::arith::quotient(x as int, y as int);
        let r = crate::arith::remainder(x as int, y as int);
        assert(q == qa || q == -qa);
        assert(r == ra || r == -ra);
        assert(i64::MIN <= q <= i64::MAX);
        assert(x == q * y + r) by (nonlinear_arith)
            requires
                a == d * qa + ra,
                x >= 0 ==> a == x && r == ra,
                x < 0 ==> a == -x && r == -ra,
                y > 0 ==> d == y,
                y < 0 ==> d == -y,
                y != 0,
                x >= 0 && y > 0 ==> q == qa,
                x >= 0 && y < 0 ==> q == -qa,
                x < 0 && y > 0 ==> q == -qa,
                x < 0 && y < 0 ==> q == qa,
        ;
    }
}

/// A power is the product of as many factors: none is one, and one more
/// multiplies by the base. A negative exponent is a failure.
pub proof fn powers_are_repeated_products(x: i64, y: i64)
    requires
        y < u32::MAX,
    ensures
        gives_or_overflows(BinOpKind::Power, x, 0, 1),
        gives_or_overflows(BinOpKind::Power, x, 1, x as int),
        y < 0 ==> applied(BinOpKind::Power, Data::Int(x), Data::Int(y)) is Err,
        y >= 0 ==> (applied(BinOpKind::Power, Data::Int(x), Data::Int(y)) matches Ok(
            Applied::Done(v),
        ) ==> (v.data matches Data::Int(n) && gives_or_overflows(
            BinOpKind::Power,
            x,
            (y + 1) as i64,
            n * x,
        ))),
{
    lemma_pow0(x as int);
    lemma_pow1(x as int);
    if y >= 0 {
        lemma_pow_adds(x as int, y as nat, 1);
    }
}

/// Shifting left by one doubles, by more is shifting by one so often, and by a
/// whole word or more is nought; shifting right by one halves towards the lower
/// number; and shifting one way by a negative count is shifting the other way.
pub proof fn shifts_double_and_halve(x: i64, y: i64)
    ensures
        arithmetic(BinOpKind::ShiftLeft, x, 0) == Some(Ok::<i64, Fail>(x)),
        arithmetic(BinOpKind::ShiftRight, x, 0) == Some(Ok::<i64, Fail>(x)),
        -0x4000_0000_0000_0000 <= x < 0x4000_0000_0000_0000 ==> arithmetic(
            BinOpKind::ShiftLeft,
            x,
            1,
        ) == Some(Ok::<i64, Fail>((2 * x) as i64)),
        arithmetic(BinOpKind::ShiftRight, x, 1) == Some(Ok::<i64, Fail>((x / 2) as i64)),
        0 <= y < 63 ==> (arithmetic(BinOpKind::ShiftLeft, x, y) matches Some(Ok(n)) && arithmetic(
            BinOpKind::ShiftLeft,
            x,
            (y + 1) as i64,
        ) == arithmetic(BinOpKind::ShiftLeft, n, 1)),
        0 <= y < 63 ==> (arithmetic(BinOpKind::ShiftRight, x, y) matches Some(Ok(n)) && arithmetic(
            BinOpKind::ShiftRight,
            x,
            (y + 1) as i64,
        ) == arithmetic(BinOpKind::ShiftRight, n, 1)),
        y >= 64 ==> arithmetic(BinOpKind::ShiftLeft, x, y) == Some(Ok::<i64, Fail>(0)),
        y >= 64 ==> arithmetic(BinOpKind::ShiftRight, x, y) == Some(
            Ok::<i64, Fail>(
                if x < 0 {
                    (-1) as i64
                } else {
                    0
                },
            ),
        ),
        y > i64::MIN ==> arithmetic(BinOpKind::ShiftLeft, x, (-y) as i64) == arithmetic(
            BinOpKind::ShiftRight,
            x,
            y,
        ),
{
    assert(x << 0i64 == x) by (bit_vector);
    assert(x >> 0i64 == x) by (bit_vector);
    assert(-0x4000_0000_0000_0000i64 <= x && x < 0x4000_0000_0000_0000i64 ==> (x << 1i64) == 2 * x)
        by (bit_vector);
    assert((x >> 1i64) == x / 2) by {
        assert(0 <= x - 2 * (x >> 1i64) < 2) by (bit_vector);
    }
    if 0 <= y < 63 {
        let n: u64 = y as u64;
        let z: u64 = (y + 1) as u64;
        assert((x << z) == ((x << n) << 1u64)) by (bit_vector)
            requires
                n < 63 && z == n + 1,
        ;
        assert((x >> z) == ((x >> n) >> 1u64)) by (bit_vector)
            requires
                n < 63 && z == n + 1,
        ;
        assert(x << z == x << ((y + 1) as i64));
        assert(x >> z == x >> ((y + 1) as i64));
    }
    assert((x >> 63i64) == (if x < 0 {
        -1i64
    } else {
        0i64
    })) by (bit_vector);
    assert(x << 0i64 == x >> 0i64) by (bit_vector);
}

/// The bitwise operators are those of a word: what two numbers share and what
/// only one has make up what either has, a number shares all of itself with
/// itself and differs from itself in nothing, and differing twice is no
/// difference.
pub proof fn bits_are_combined_one_by_one(x: i64, y: i64)
    ensures
        arithmetic(BinOpKind::And, x, x) == Some(Ok::<i64, Fail>(x)),
        arithmetic(BinOpKind::Or, x, x) == Some(Ok::<i64, Fail>(x)),
        arithmetic(BinOpKind::Xor, x, x) == Some(Ok::<i64, Fail>(0)),
        arithmetic(BinOpKind::And, x, 0) == Some(Ok::<i64, Fail>(0)),
        arithmetic(BinOpKind::Or, x, 0) == Some(Ok::<i64, Fail>(x)),
        arithmetic(BinOpKind::Xor, x, 0) == Some(Ok::<i64, Fail>(x)),
        arithmetic(BinOpKind::And, x, y) == arithmetic(BinOpKind::And, y, x),
        arithmetic(BinOpKind::And, x, y) matches Some(Ok(both)) && arithmetic(
            BinOpKind::Xor,
            x,
            y,
        ) matches Some(Ok(one)) && arithmetic(BinOpKind::Or, x, y) == Some(
            Ok::<i64, Fail>(both | one),
        ) && both & one == 0 && both & x == both && arithmetic(BinOpKind::Xor, one, y) == Some(
            Ok::<i64, Fail>(x),
        ),
{
    assert(x & x == x) by (bit_vector);
    assert(x | x == x) by (bit_vector);
    assert(x ^ x == 0) by (bit_vector);
    assert(x & 0 == 0) by (bit_vector);
    assert(x | 0 == x) by (bit_vector);
    assert(x ^ 0 == x) by (bit_vector);
    assert(x & y == y & x) by (bit_vector);
    assert(x | y == (x & y) | (x ^ y)) by (bit_vector);
    assert((x & y) & (x ^ y) == 0) by (bit_vector);
    assert((x & y) & x == x & y) by (bit_vector);
    assert((x ^ y) ^ y == x) by (bit_vector);
}

/// Whether an operator on two integers gives exactly this boolean.
pub open spec fn gives_bool(kind: BinOpKind, x: i64, y: i64, b: bool) -> bool {
    applied(kind, Data::Int(x), Data::Int(y)) matches Ok(Applied::Done(v)) && v.data == Data::Bool(b)
}

/// Comparisons of integers are those of numbers.
pub proof fn comparisons_are_those_of_numbers(x: i64, y: i64)
    ensures
        gives_bool(BinOpKind::Equals, x, y, x == y),
        gives_bool(BinOpKind::NotEquals, x, y, x != y),
        gives_bool(BinOpKind::Less, x, y, x < y),
        gives_bool(BinOpKind::LessEquals, x, y, x <= y),
        gives_bool(BinOpKind::Greater, x, y, x > y),
        gives_bool(BinOpKind::GreaterEquals, x, y, x >= y),
{
}

/// A pair with a float in it is the host's for arithmetic and left to a lookup
/// for anything else, and so is a pair with anything that is no number.
pub proof fn floats_are_left_to_the_host(kind: BinOpKind, bits: u64, n: i64, other: Data)
    requires
        !(other is Int || other is Float),
    ensures
        ({
            let computes = kind is Add || kind is Subtract || kind is Multiply || kind is Divide
                || kind is Modulo || kind is Power;
            &&& computes ==> applied(kind, Data::Float(bits), Data::Int(n)) == Ok::<
                Applied<Datum>,
                Fail,
            >(Applied::Float) && applied(kind, Data::Int(n), Data::Float(bits)) == Ok::<
                Applied<Datum>,
                Fail,
            >(Applied::Float) && applied(kind, Data::Float(bits), Data::Float(bits)) == Ok::<
                Applied<Datum>,
                Fail,
            >(Applied::Float)
            &&& !computes ==> applied(kind, Data::Float(bits), Data::Int(n)) == Ok::<
                Applied<Datum>,
                Fail,
            >(Applied::Declined)
        }),
        applied(kind, other, Data::Int(n)) == Ok::<Applied<Datum>, Fail>(Applied::Declined),
        applied(kind, Data::Int(n), other) == Ok::<Applied<Datum>, Fail>(Applied::Declined),
        assign_applied(kind, Data::Int(n), Data::Float(bits)) == Ok::<Applied<i64>, Fail>(
            Applied::Declined,
        ),
        assign_applied(kind, other, Data::Int(n)) == Ok::<Applied<i64>, Fail>(Applied::Declined),
{
}

/// Negation turns a boolean over and has no answer for anything else.
pub proof fn negation_turns_over(b: bool, other: Data)
    requires
        !(other is Bool),
    ensures
        negated(Data::Bool(b)) matches Some(v) && v.data == Data::Bool(!b),
        negated(other) is None,
{
}

/// The operators are numbered as they are listed.
pub proof fn operators_are_numbered_in_order()
    ensures
        kind_of(0) == Some(BinOpKind::Add),
        kind_of(1) == Some(BinOpKind::Subtract),
        kind_of(2) == Some(BinOpKind::Multiply),
        kind_of(3) == Some(BinOpKind::Divide),
        kind_of(4) == Some(BinOpKind::Modulo),
        kind_of(5) == Some(BinOpKind::Power),
        kind_of(6) == Some(BinOpKind::ShiftRight),
        kind_of(7) == Some(BinOpKind::ShiftLeft),
        kind_of(8) == Some(BinOpKind::And),
        kind_of(9) == Some(BinOpKind::Or),
        kind_of(10) == Some(BinOpKind::Xor),
        kind_of(11) == Some(BinOpKind::Equals),
        kind_of(12) == Some(BinOpKind::NotEquals),
        kind_of(13) == Some(BinOpKind::Greater),
        kind_of(14) == Some(BinOpKind::GreaterEquals),
        kind_of(15) == Some(BinOpKind::Less),
        kind_of(16) == Some(BinOpKind::LessEquals),
        forall|b: u8| b > 16 ==> kind_of(b) is None,
{
}

/// An operator instruction works on the operand under the top one and the top
/// one, in that order, and its value takes the place of both; one that swallowed
/// a branch keeps nothing and goes by the boolean it got.
pub proof fn operators_take_their_operands_in_order(
    k: Runner,
    p: Program,
    m: Machine,
    scope: Names,
    base: usize,
    floor: usize,
    pc: usize,
    next: usize,
    o: Operator,
    byte: u8,
    kind: BinOpKind,
    v: Datum,
)
    requires
        o.shape == Shape::Binary(byte),
        o.lhs is Stack && o.rhs is Stack,
        kind_of(byte) == Some(kind),
        m.engine.fast_operators,
        m.stack.len() >= 2,
        applied(
            kind,
            m.stack[m.stack.len() - 2].data,
            m.stack[m.stack.len() - 1].data,
        ) == Ok::<Applied<Datum>, Fail>(Applied::Done(v)),
    ensures
        ({
            let (r, after, left) = stepped(
                k,
                p,
                m,
                scope,
                base,
                floor,
                pc,
                next,
                Op::Operate(o),
            );
            let under = m.stack.subrange(0, m.stack.len() - 2);
            &&& left == scope
            &&& o.branch is None ==> r == Ok::<Flow<Datum>, Fail>(Flow::Next(next)) && after.stack
                == under.push(v)
            &&& o.branch matches Some(b) ==> (v.data matches Data::Bool(held) ==> after.stack
                == under && (held != b.when ==> r == Ok::<Flow<Datum>, Fail>(Flow::Next(next)))
                && (held == b.when && b.target > pc ==> r == Ok::<Flow<Datum>, Fail>(
                Flow::Next(b.target as usize),
            )))
            &&& o.branch matches Some(b) ==> (v.data is Int ==> r is Err)
        }),
{
    reveal(stepped);
    reveal(operated);
    reveal(operands_pushed);
    reveal(fast_answer);
    reveal(delivered);
    reveal(transferred);
    let (_, after, _) = stepped(k, p, m, scope, base, floor, pc, next, Op::Operate(o));
    let under = m.stack.subrange(0, m.stack.len() - 2);
    assert(crate::stack::truncated(m.stack, m.stack.len() - 2) =~= under);
}

// ---------------------------------------------------------------------------
// Copies and marks.

/// A copy holds what the value holds: the same number, text or cell, and as many
/// elements and entries, each the copy of its own.
pub proof fn copies_hold_the_same(d: Datum)
    ensures
        copied(d).tag == d.tag,
        copied(d).mode == AccessMode::ReadWrite,
        !(d.data is Array || d.data is Dict || d.data is FnPtr) ==> copied(d).data == d.data,
        d.data matches Data::Array(a) ==> (copied(d).data matches Data::Array(b) && b.len()
            == a.len() && (forall|i: int| 0 <= i < a.len() ==> #[trigger] b[i] == copied(a[i]))),
        d.data matches Data::Dict(a) ==> (copied(d).data matches Data::Dict(b) && b.len()
            == a.len() && (forall|i: int|
            0 <= i < a.len() ==> (#[trigger] b[i]).0 == a[i].0 && b[i].1 == copied(a[i].1))),
        d.data matches Data::FnPtr(name, curry, typ) ==> (copied(d).data matches Data::FnPtr(
            n,
            c,
            t,
        ) && n == name && t == typ && c.len() == curry.len() && (forall|i: int|
            0 <= i < curry.len() ==> #[trigger] c[i] == copied(curry[i]))),
{
}

/// Marking a value marks it and everything in it, and changes nothing else.
pub proof fn marks_reach_all_the_way_down(d: Datum, mode: AccessMode)
    ensures
        with_mode(d, mode).mode == mode,
        with_mode(d, mode).tag == d.tag,
        !(d.data is Array || d.data is Dict) ==> with_mode(d, mode).data == d.data,
        d.data matches Data::Array(a) ==> (with_mode(d, mode).data matches Data::Array(b)
            && b.len() == a.len() && (forall|i: int|
            0 <= i < a.len() ==> #[trigger] b[i] == with_mode(a[i], mode))),
        d.data matches Data::Dict(a) ==> (with_mode(d, mode).data matches Data::Dict(b) && b.len()
            == a.len() && (forall|i: int|
            0 <= i < a.len() ==> (#[trigger] b[i]).0 == a[i].0 && b[i].1 == with_mode(
                a[i].1,
                mode,
            ))),
{
}

/// A value in a cell reads as a copy of what the cell holds, or as unit while a
/// writer has it, and any other value as itself; it refuses to be written if it
/// or what is in its cell is marked so.
pub proof fn cells_read_as_what_they_hold(heap: Seq<CellView>, d: Datum)
    ensures
        !(d.data is Shared) ==> flattened(heap, d) == d && flat_copy(heap, d) == copied(d),
        d.data matches Data::Shared(cell) ==> (cell < heap.len() && !heap[cell as int].locked
            ==> flattened(heap, d) == copied(heap[cell as int].value) && flat_copy(heap, d)
            == copied(heap[cell as int].value)),
        d.data matches Data::Shared(cell) ==> (cell >= heap.len() || heap[cell as int].locked
            ==> flattened(heap, d).data is Unit && flat_copy(heap, d).data is Unit),
        d.mode == AccessMode::ReadOnly ==> read_only(heap, d),
        d.mode == AccessMode::ReadWrite && !(d.data is Shared) ==> !read_only(heap, d),
        d.mode == AccessMode::ReadWrite ==> (d.data matches Data::Shared(cell) ==> (cell
            < heap.len() && !heap[cell as int].locked ==> read_only(heap, d) == (
        heap[cell as int].value.mode == AccessMode::ReadOnly))),
{
}

/// The names of the types.
pub proof fn types_have_their_names(d: Data)
    ensures
        d is Unit ==> name_of_type(d) == "()"@,
        d is Bool ==> name_of_type(d) == "bool"@,
        d is Int ==> name_of_type(d) == "i64"@,
        d is Float ==> name_of_type(d) == "f64"@,
        d is Char ==> name_of_type(d) == "char"@,
        d is Str ==> name_of_type(d) == "string"@,
        d is Array ==> name_of_type(d) == "array"@,
        d is Dict ==> name_of_type(d) == "map"@,
        d is Blob ==> name_of_type(d) == "blob"@,
        d is FnPtr ==> name_of_type(d) == "Fn"@,
        d is TimeStamp ==> name_of_type(d) == "timestamp"@,
        d matches Data::Variant(name, _) ==> name_of_type(d) == name,
{
}

// ---------------------------------------------------------------------------
// Text.

/// The number a digit stands for.
pub open spec fn digit_value(c: char) -> nat {
    (c as int - '0' as int) as nat
}

/// The number a row of digits stands for.
pub open spec fn read_digits(text: Seq<char>) -> nat
    decreases text.len(),
{
    if text.len() == 0 {
        0
    } else {
        10 * read_digits(text.drop_last()) + digit_value(text.last())
    }
}

/// A number written down reads as itself, in digits alone, the first of which is
/// nought only for nought.
pub proof fn numbers_read_as_they_are_written(n: nat)
    ensures
        read_digits(decimal_nat(n)) == n,
        decimal_nat(n).len() > 0,
        forall|i: int| 0 <= i < decimal_nat(n).len() ==> '0' <= #[trigger] decimal_nat(n)[i] <= '9',
        n > 0 ==> decimal_nat(n)[0] != '0',
        decimal(n as int) == decimal_nat(n),
        n > 0 ==> decimal(-(n as int)) == seq!['-'] + decimal_nat(n),
    decreases n,
{
    if n < 10 {
        let text = decimal_nat(n);
        assert(text.drop_last() =~= Seq::empty());
        assert(read_digits(text.drop_last()) == 0);
        assert(digit_value(digit_char(n)) == n);
    } else {
        numbers_read_as_they_are_written(n / 10);
        let text = decimal_nat(n);
        assert(text.drop_last() =~= decimal_nat(n / 10));
        assert(digit_value(digit_char(n % 10)) == n % 10);
        assert(text[0] == decimal_nat(n / 10)[0]);
    }
}

/// A name a script could have written starts with a letter after any underscores
/// and goes on with letters, digits and underscores; nothing else is one.
pub proof fn identifiers_start_with_a_letter(name: Seq<char>, lead: char, tail: char)
    ensures
        name.len() == 0 ==> !identifier(name),
        'a' <= lead <= 'z' || 'A' <= lead <= 'Z' ==> identifier(seq![lead]),
        '0' <= lead <= '9' ==> !identifier(seq![lead] + name),
        lead == '_' ==> !identifier(seq![lead]),
        identifier(name) && ('a' <= tail <= 'z' || 'A' <= tail <= 'Z' || '0' <= tail <= '9' || tail
            == '_') ==> identifier(name.push(tail)),
        !('a' <= tail <= 'z' || 'A' <= tail <= 'Z' || '0' <= tail <= '9' || tail == '_')
            ==> !identifier(name.push(tail)),
{
    if 'a' <= lead <= 'z' || 'A' <= lead <= 'Z' {
        assert(crate::text::is_letter(seq![lead][0]));
    }
    if '0' <= lead <= '9' {
        let whole = seq![lead] + name;
        assert(whole[0] == lead);
        if identifier(whole) {
            let i = choose|i: int|
                0 <= i < whole.len() && crate::text::is_letter(#[trigger] whole[i]) && forall|
                    j: int,
                |
                    0 <= j < i ==> #[trigger] whole[j] == '_';
            assert(i == 0 || whole[0] == '_');
        }
    }
    if lead == '_' {
        assert forall|i: int| 0 <= i < 1 implies !crate::text::is_letter(
            #[trigger] seq![lead][i],
        ) by {}
    }
    let longer = name.push(tail);
    if identifier(name) && ('a' <= tail <= 'z' || 'A' <= tail <= 'Z' || '0' <= tail <= '9' || tail
        == '_') {
        let i = choose|i: int|
            0 <= i < name.len() && crate::text::is_letter(#[trigger] name[i]) && forall|j: int|
                0 <= j < i ==> #[trigger] name[j] == '_';
        assert(crate::text::is_letter(longer[i]));
        assert forall|j: int| 0 <= j < i implies #[trigger] longer[j] == '_' by {
            assert(name[j] == '_');
        }
        assert forall|j: int| 0 <= j < longer.len() implies (#[trigger] longer[j] == '_'
            || crate::text::is_letter(longer[j]) || crate::text::is_digit(longer[j])) by {
            if j < name.len() {
                assert(longer[j] == name[j]);
            }
        }
    }
    assert(longer[name.len() as int] == tail);
}

} // verus!
