//! The operators that run without resolving a function.
//!
//! Two integers are computed here; a pair the floating-point rules cover is
//! recognised here and computed by the host. Anything else is declined, and
//! the caller dispatches.
use vstd::prelude::*;
use vstd::arithmetic::power::{lemma_pow0, pow};

use crate::error::{fail, raised, Error, Fail, FailureKind};
use crate::position::{nowhere, Position};
use crate::text::{append_i64, decimal};
use crate::value::{datum, Data, Datum, Dynamic, Union};

verus! {

/// The binary operators an instruction can say by number.
#[derive(Clone, Copy, Debug, PartialEq, Eq, Structural)]
pub enum BinOpKind {
    Add,
    Subtract,
    Multiply,
    Divide,
    Modulo,
    Power,
    ShiftRight,
    ShiftLeft,
    And,
    Or,
    Xor,
    Equals,
    NotEquals,
    Greater,
    GreaterEquals,
    Less,
    LessEquals,
}

/// The unary operators an instruction can say by number.
#[derive(Clone, Copy, Debug, PartialEq, Eq, Structural)]
pub enum UnOpKind {
    Not,
}

/// The operator a byte says.
pub open spec fn kind_of(byte: u8) -> Option<BinOpKind> {
    match byte {
        0u8 => Some(BinOpKind::Add),
        1u8 => Some(BinOpKind::Subtract),
        2u8 => Some(BinOpKind::Multiply),
        3u8 => Some(BinOpKind::Divide),
        4u8 => Some(BinOpKind::Modulo),
        5u8 => Some(BinOpKind::Power),
        6u8 => Some(BinOpKind::ShiftRight),
        7u8 => Some(BinOpKind::ShiftLeft),
        8u8 => Some(BinOpKind::And),
        9u8 => Some(BinOpKind::Or),
        10u8 => Some(BinOpKind::Xor),
        11u8 => Some(BinOpKind::Equals),
        12u8 => Some(BinOpKind::NotEquals),
        13u8 => Some(BinOpKind::Greater),
        14u8 => Some(BinOpKind::GreaterEquals),
        15u8 => Some(BinOpKind::Less),
        16u8 => Some(BinOpKind::LessEquals),
        _ => None,
    }
}

impl BinOpKind {
    /// The operator a byte says.
    pub fn from_byte(byte: u8) -> (kind: Option<BinOpKind>)
        ensures
            kind == kind_of(byte),
    {
        match byte {
            0u8 => Some(BinOpKind::Add),
            1u8 => Some(BinOpKind::Subtract),
            2u8 => Some(BinOpKind::Multiply),
            3u8 => Some(BinOpKind::Divide),
            4u8 => Some(BinOpKind::Modulo),
            5u8 => Some(BinOpKind::Power),
            6u8 => Some(BinOpKind::ShiftRight),
            7u8 => Some(BinOpKind::ShiftLeft),
            8u8 => Some(BinOpKind::And),
            9u8 => Some(BinOpKind::Or),
            10u8 => Some(BinOpKind::Xor),
            11u8 => Some(BinOpKind::Equals),
            12u8 => Some(BinOpKind::NotEquals),
            13u8 => Some(BinOpKind::Greater),
            14u8 => Some(BinOpKind::GreaterEquals),
            15u8 => Some(BinOpKind::Less),
            16u8 => Some(BinOpKind::LessEquals),
            _ => None,
        }
    }
}

/// The operator a byte says.
pub open spec fn unary_of(byte: u8) -> Option<UnOpKind> {
    if byte == 0 {
        Some(UnOpKind::Not)
    } else {
        None
    }
}

impl UnOpKind {
    /// The operator a byte says.
    pub fn from_byte(byte: u8) -> (kind: Option<UnOpKind>)
        ensures
            kind == unary_of(byte),
    {
        if byte == 0 {
            Some(UnOpKind::Not)
        } else {
            None
        }
    }
}

/// Whether a whole number is one the machine's integers hold.
pub open spec fn fits(n: int) -> bool {
    i64::MIN <= n <= i64::MAX
}

/// Division rounding towards zero.
pub open spec fn quotient(x: int, y: int) -> int {
    if x >= 0 {
        if y > 0 {
            x / y
        } else {
            -(x / (-y))
        }
    } else if y > 0 {
        -((-x) / y)
    } else {
        (-x) / (-y)
    }
}

/// What is left of `x` after that division, with the sign of `x`.
pub open spec fn remainder(x: int, y: int) -> int {
    let d = if y < 0 {
        -y
    } else {
        y
    };
    if x >= 0 {
        x % d
    } else {
        -((-x) % d)
    }
}

/// The failure of an operator on two integers: `what`, then the operation.
pub open spec fn int_fail(what: Seq<char>, x: i64, op: Seq<char>, y: i64) -> Fail {
    fail(
        FailureKind::ErrorArithmetic(what + decimal(x as int) + op + decimal(y as int)),
        nowhere(),
    )
}

fn int_error(what: &str, x: i64, op: &str, y: i64) -> (err: Error)
    ensures
        err@ == int_fail(what@, x, op@, y),
{
    let mut text = what.to_owned();
    append_i64(&mut text, x);
    text.append(op);
    append_i64(&mut text, y);
    raised(FailureKind::ErrorArithmetic(text), Position::none())
}

/// A shift to the left, or to the right by a negative distance.
pub open spec fn shifted_left(x: i64, y: i64) -> i64 {
    if y >= 64 {
        0
    } else if y >= 0 {
        x << y
    } else if y > -64 {
        x >> ((-y) as i64)
    } else {
        x >> 63
    }
}

/// A shift to the right keeping the sign, or to the left by a negative
/// distance.
pub open spec fn shifted_right(x: i64, y: i64) -> i64 {
    if y >= 64 {
        x >> 63
    } else if y >= 0 {
        x >> y
    } else if y > -64 {
        x << ((-y) as i64)
    } else {
        0
    }
}

/// A value where it fits, and a failure where it does not.
pub open spec fn fitted(n: int, failure: Fail) -> Result<i64, Fail> {
    if fits(n) {
        Ok(n as i64)
    } else {
        Err(failure)
    }
}

/// `x op y` for two integers and an operator that gives an integer.
pub open spec fn arithmetic(kind: BinOpKind, x: i64, y: i64) -> Option<Result<i64, Fail>> {
    match kind {
        BinOpKind::Add => Some(fitted(x + y, int_fail("Addition overflow: "@, x, " + "@, y))),
        BinOpKind::Subtract => Some(
            fitted(x - y, int_fail("Subtraction overflow: "@, x, " - "@, y)),
        ),
        BinOpKind::Multiply => Some(
            fitted(x * y, int_fail("Multiplication overflow: "@, x, " * "@, y)),
        ),
        BinOpKind::Divide => Some(
            if y == 0 {
                Err(int_fail("Division by zero: "@, x, " / "@, y))
            } else {
                fitted(
                    quotient(x as int, y as int),
                    int_fail("Division overflow: "@, x, " / "@, y),
                )
            },
        ),
        BinOpKind::Modulo => Some(
            if y == 0 {
                Err(int_fail("Modulo division by zero: "@, x, " % "@, y))
            } else if x == i64::MIN && y == -1 {
                Err(int_fail("Modulo division overflow: "@, x, " % "@, y))
            } else {
                Ok(remainder(x as int, y as int) as i64)
            },
        ),
        BinOpKind::Power => Some(
            if y > u32::MAX {
                Err(int_fail("Exponential overflow: "@, x, " ** "@, y))
            } else if y < 0 {
                Err(int_fail("Integer raised to a negative power: "@, x, " ** "@, y))
            } else {
                fitted(
                    pow(x as int, y as nat),
                    int_fail("Exponential overflow: "@, x, " ** "@, y),
                )
            },
        ),
        BinOpKind::ShiftRight => Some(Ok(shifted_right(x, y))),
        BinOpKind::ShiftLeft => Some(Ok(shifted_left(x, y))),
        BinOpKind::And => Some(Ok(x & y)),
        BinOpKind::Or => Some(Ok(x | y)),
        BinOpKind::Xor => Some(Ok(x ^ y)),
        _ => None,
    }
}

/// `x op y` for two integers and an operator that compares.
pub open spec fn comparison(kind: BinOpKind, x: i64, y: i64) -> Option<bool> {
    match kind {
        BinOpKind::Equals => Some(x == y),
        BinOpKind::NotEquals => Some(x != y),
        BinOpKind::Greater => Some(x > y),
        BinOpKind::GreaterEquals => Some(x >= y),
        BinOpKind::Less => Some(x < y),
        BinOpKind::LessEquals => Some(x <= y),
        _ => None,
    }
}

/// What the two together answer for two integers.
pub open spec fn int_answer(kind: BinOpKind, x: i64, y: i64) -> Option<Result<Datum, Fail>> {
    match arithmetic(kind, x, y) {
        Some(Ok(n)) => Some(Ok(datum(Data::Int(n)))),
        Some(Err(err)) => Some(Err(err)),
        None => match comparison(kind, x, y) {
            Some(held) => Some(Ok(datum(Data::Bool(held)))),
            None => None,
        },
    }
}

/// The model of what an integer operator gives.
pub open spec fn int_outcome(out: Option<Result<i64, Error>>) -> Option<Result<i64, Fail>> {
    match out {
        Some(Ok(n)) => Some(Ok(n)),
        Some(Err(err)) => Some(Err(err@)),
        None => None,
    }
}

/// A power of a number of magnitude two or more at least doubles at each step.
proof fn power_doubles(x: int, k: nat)
    requires
        x >= 2 || x <= -2,
    ensures
        pow(x, k + 1) == x * pow(x, k),
        pow(x, k) >= 1 || pow(x, k) <= -1,
        pow(x, k) >= 0 ==> (pow(x, k + 1) >= 2 * pow(x, k) || pow(x, k + 1) <= -2 * pow(x, k)),
        pow(x, k) < 0 ==> (pow(x, k + 1) <= 2 * pow(x, k) || pow(x, k + 1) >= -2 * pow(x, k)),
    decreases k,
{
    reveal(pow);
    if k > 0 {
        power_doubles(x, (k - 1) as nat);
    }
    let p = pow(x, k);
    assert(p >= 0 ==> (x * p >= 2 * p || x * p <= -2 * p)) by (nonlinear_arith)
        requires
            x >= 2 || x <= -2,
    ;
    assert(p < 0 ==> (x * p <= 2 * p || x * p >= -2 * p)) by (nonlinear_arith)
        requires
            x >= 2 || x <= -2,
    ;
}

/// A power that does not fit stays out of reach as the exponent grows.
proof fn power_stays_large(x: int, k: nat, n: nat)
    requires
        x >= 2 || x <= -2,
        k <= n,
        !fits(pow(x, k)),
    ensures
        !fits(pow(x, n)),
    decreases n - k,
{
    if k < n {
        power_doubles(x, k);
        power_stays_large(x, k + 1, n);
    }
}

/// The powers of one, minus one and zero.
proof fn small_powers(x: int, n: nat)
    ensures
        pow(1, n) == 1,
        pow(-1, n) == (if n % 2 == 0 {
            1int
        } else {
            -1
        }),
        n > 0 ==> pow(0, n) == 0,
        pow(0, 0) == 1,
    decreases n,
{
    reveal(pow);
    if n > 0 {
        small_powers(x, (n - 1) as nat);
    }
}

/// `x` raised to `y`, or nothing where the result does not fit.
fn checked_power(x: i64, y: u32) -> (out: Option<i64>)
    ensures
        out == (if fits(pow(x as int, y as nat)) {
            Some(pow(x as int, y as nat) as i64)
        } else {
            None
        }),
{
    proof {
        small_powers(x as int, y as nat);
        lemma_pow0(x as int);
    }
    if x == 1 || y == 0 {
        return Some(1);
    }
    if x == 0 {
        return Some(0);
    }
    if x == -1 {
        return Some(
            if y % 2 == 0 {
                1
            } else {
                -1
            },
        );
    }
    let mut value: i64 = 1;
    let mut k: u32 = 0;
    while k < y
        invariant
            x >= 2 || x <= -2,
            k <= y,
            value == pow(x as int, k as nat),
        decreases y - k,
    {
        proof {
            power_doubles(x as int, k as nat);
        }
        match value.checked_mul(x) {
            Some(next) => {
                proof {
                    assert(value * x == x * value) by (nonlinear_arith);
                }
                value = next;
                k = k + 1;
            },
            None => {
                proof {
                    assert(value * x == x * value) by (nonlinear_arith);
                    power_stays_large(x as int, (k + 1) as nat, y as nat);
                }
                return None;
            },
        }
    }
    Some(value)
}

fn shift_left(x: i64, y: i64) -> (r: i64)
    ensures
        r == shifted_left(x, y),
{
    if y >= 64 {
        0
    } else if y >= 0 {
        x << y
    } else if y > -64 {
        x >> (-y)
    } else {
        x >> 63
    }
}

fn shift_right(x: i64, y: i64) -> (r: i64)
    ensures
        r == shifted_right(x, y),
{
    if y >= 64 {
        x >> 63
    } else if y >= 0 {
        x >> y
    } else if y > -64 {
        x << (-y)
    } else {
        0
    }
}

/// `x op y` for two integers, where the operator gives an integer.
fn int_arithmetic(kind: BinOpKind, x: i64, y: i64) -> (out: Option<Result<i64, Error>>)
    ensures
        int_outcome(out) == arithmetic(kind, x, y),
{
    Some(
        match kind {
            BinOpKind::Add => match x.checked_add(y) {
                Some(n) => Ok(n),
                None => Err(int_error("Addition overflow: ", x, " + ", y)),
            },
            BinOpKind::Subtract => match x.checked_sub(y) {
                Some(n) => Ok(n),
                None => Err(int_error("Subtraction overflow: ", x, " - ", y)),
            },
            BinOpKind::Multiply => match x.checked_mul(y) {
                Some(n) => Ok(n),
                None => Err(int_error("Multiplication overflow: ", x, " * ", y)),
            },
            BinOpKind::Divide => if y == 0 {
                Err(int_error("Division by zero: ", x, " / ", y))
            } else {
                match x.checked_div(y) {
                    Some(n) => Ok(n),
                    None => Err(int_error("Division overflow: ", x, " / ", y)),
                }
            },
            BinOpKind::Modulo => if y == 0 {
                Err(int_error("Modulo division by zero: ", x, " % ", y))
            } else {
                proof {
                    remainder_fits(x as int, y as int);
                }
                match x.checked_rem(y) {
                    Some(n) => Ok(n),
                    None => Err(int_error("Modulo division overflow: ", x, " % ", y)),
                }
            },
            BinOpKind::Power => if y > 0xffff_ffff {
                Err(int_error("Exponential overflow: ", x, " ** ", y))
            } else if y < 0 {
                Err(int_error("Integer raised to a negative power: ", x, " ** ", y))
            } else {
                match checked_power(x, y as u32) {
                    Some(n) => Ok(n),
                    None => Err(int_error("Exponential overflow: ", x, " ** ", y)),
                }
            },
            BinOpKind::ShiftRight => Ok(shift_right(x, y)),
            BinOpKind::ShiftLeft => Ok(shift_left(x, y)),
            BinOpKind::And => Ok(x & y),
            BinOpKind::Or => Ok(x | y),
            BinOpKind::Xor => Ok(x ^ y),
            _ => return None,
        },
    )
}

/// A remainder is smaller than what it is a remainder of division by.
proof fn remainder_fits(x: int, y: int)
    requires
        fits(x),
        fits(y),
        y != 0,
    ensures
        fits(remainder(x, y)),
{
}

/// `x op y` for two integers, where the operator compares.
fn int_comparison(kind: BinOpKind, x: i64, y: i64) -> (out: Option<bool>)
    ensures
        out == comparison(kind, x, y),
{
    match kind {
        BinOpKind::Equals => Some(x == y),
        BinOpKind::NotEquals => Some(x != y),
        BinOpKind::Greater => Some(x > y),
        BinOpKind::GreaterEquals => Some(x >= y),
        BinOpKind::Less => Some(x < y),
        BinOpKind::LessEquals => Some(x <= y),
        _ => None,
    }
}

/// The model of what an operator on values gives.
pub open spec fn value_outcome(out: Option<Result<Dynamic, Error>>) -> Option<Result<Datum, Fail>> {
    match out {
        Some(Ok(v)) => Some(Ok(v@)),
        Some(Err(err)) => Some(Err(err@)),
        None => None,
    }
}

/// `x op y` for two integers, or nothing for an operator they have not.
pub fn int_binary(kind: BinOpKind, x: i64, y: i64) -> (out: Option<Result<Dynamic, Error>>)
    ensures
        value_outcome(out) == int_answer(kind, x, y),
{
    match int_arithmetic(kind, x, y) {
        Some(Ok(n)) => Some(Ok(Dynamic::from_int(n))),
        Some(Err(err)) => Some(Err(err)),
        None => match int_comparison(kind, x, y) {
            Some(held) => Some(Ok(Dynamic::from_bool(held))),
            None => None,
        },
    }
}

/// `x op= y` for two integers: the value to write back, or nothing for an
/// operator with no assignment of its own.
pub fn int_assign(kind: BinOpKind, x: i64, y: i64) -> (out: Option<Result<i64, Error>>)
    ensures
        int_outcome(out) == arithmetic(kind, x, y),
{
    int_arithmetic(kind, x, y)
}

/// An operator assignment gives what the operator gives, where it is one.
pub proof fn assignment_is_the_operator(kind: BinOpKind, x: i64, y: i64)
    ensures
        arithmetic(kind, x, y) matches Some(Ok(n)) ==> int_answer(kind, x, y) == Some(
            Ok::<Datum, Fail>(datum(Data::Int(n))),
        ),
        arithmetic(kind, x, y) matches Some(Err(e)) ==> int_answer(kind, x, y) == Some(
            Err::<Datum, Fail>(e),
        ),
{
}

/// Division rounds towards zero and its remainder makes up the difference.
pub proof fn division_law(x: int, y: int)
    requires
        y != 0,
    ensures
        x == quotient(x, y) * y + remainder(x, y),
        -(if y < 0 {
            -y
        } else {
            y
        }) < remainder(x, y) < (if y < 0 {
            -y
        } else {
            y
        }),
{
    let d = if y < 0 {
        -y
    } else {
        y
    };
    let a = if x < 0 {
        -x
    } else {
        x
    };
    vstd::arithmetic::div_mod::lemma_fundamental_div_mod(a, d);
    let q = a / d;
    assert(d * q == q * d) by (nonlinear_arith);
    assert((-q) * y == q * (-y)) by (nonlinear_arith);
    assert((-q) * y == -(q * y)) by (nonlinear_arith);
}

/// A number as an operand of floating-point arithmetic.
#[derive(Clone, Copy, Debug, PartialEq, Eq, Structural)]
pub enum FloatOperand {
    /// A floating-point number, by its bits.
    Bits(u64),
    /// An integer, to be widened.
    Whole(i64),
}

/// A value as an operand of floating-point arithmetic, and whether it is a
/// floating-point number itself.
pub open spec fn float_operand(data: Data) -> Option<(FloatOperand, bool)> {
    match data {
        Data::Float(bits) => Some((FloatOperand::Bits(bits), true)),
        Data::Int(n) => Some((FloatOperand::Whole(n), false)),
        _ => None,
    }
}

/// A value as an operand of floating-point arithmetic.
pub fn as_float_operand(value: &Dynamic) -> (out: Option<(FloatOperand, bool)>)
    ensures
        out == float_operand(value@.data),
{
    match &value.value {
        Union::Float(bits) => Some((FloatOperand::Bits(*bits), true)),
        Union::Int(n) => Some((FloatOperand::Whole(*n), false)),
        _ => None,
    }
}

/// The operators floating-point arithmetic has.
pub open spec fn float_kind(kind: BinOpKind) -> bool {
    kind is Add || kind is Subtract || kind is Multiply || kind is Divide || kind is Modulo
        || kind is Power
}

fn is_float_kind(kind: BinOpKind) -> (r: bool)
    ensures
        r == float_kind(kind),
{
    matches!(
        kind,
        BinOpKind::Add | BinOpKind::Subtract | BinOpKind::Multiply | BinOpKind::Divide
        | BinOpKind::Modulo | BinOpKind::Power
    )
}

/// What the fast operators make of a pair of operands.
#[derive(Debug)]
pub enum Applied<V> {
    /// Computed.
    Done(V),
    /// Floating-point arithmetic, for the host to compute.
    Float,
    /// Not one of the pairs they cover.
    Declined,
}

/// What the fast operators make of `lhs op rhs`.
pub open spec fn applied(kind: BinOpKind, lhs: Data, rhs: Data) -> Result<Applied<Datum>, Fail> {
    match (lhs, rhs) {
        (Data::Int(x), Data::Int(y)) => match int_answer(kind, x, y) {
            Some(Ok(v)) => Ok(Applied::Done(v)),
            Some(Err(err)) => Err(err),
            None => Ok(Applied::Declined),
        },
        _ => if float_operand(lhs) is Some && float_operand(rhs) is Some && float_kind(kind) {
            Ok(Applied::Float)
        } else {
            Ok(Applied::Declined)
        },
    }
}

/// The model of what the fast operators make of a pair.
pub open spec fn applied_view(out: Result<Applied<Dynamic>, Error>) -> Result<
    Applied<Datum>,
    Fail,
> {
    match out {
        Ok(Applied::Done(v)) => Ok(Applied::Done(v@)),
        Ok(Applied::Float) => Ok(Applied::Float),
        Ok(Applied::Declined) => Ok(Applied::Declined),
        Err(err) => Err(err@),
    }
}

/// Apply an operator to a pair the fast operators cover.
pub fn apply_binary(kind: BinOpKind, lhs: &Dynamic, rhs: &Dynamic) -> (out: Result<
    Applied<Dynamic>,
    Error,
>)
    ensures
        applied_view(out) == applied(kind, lhs@.data, rhs@.data),
{
    if let (Union::Int(x), Union::Int(y)) = (&lhs.value, &rhs.value) {
        return match int_binary(kind, *x, *y) {
            Some(Ok(v)) => Ok(Applied::Done(v)),
            Some(Err(err)) => Err(err),
            None => Ok(Applied::Declined),
        };
    }
    if as_float_operand(lhs).is_some() && as_float_operand(rhs).is_some() && is_float_kind(kind) {
        Ok(Applied::Float)
    } else {
        Ok(Applied::Declined)
    }
}

/// What `!` makes of a boolean, and of nothing else.
pub open spec fn negated(operand: Data) -> Option<Datum> {
    match operand {
        Data::Bool(b) => Some(datum(Data::Bool(!b))),
        _ => None,
    }
}

/// Apply a unary operator the fast operators cover.
pub fn apply_unary(kind: UnOpKind, operand: &Dynamic) -> (out: Option<Dynamic>)
    ensures
        match out {
            Some(v) => negated(operand@.data) == Some(v@),
            None => negated(operand@.data) is None,
        },
{
    match (kind, &operand.value) {
        (UnOpKind::Not, Union::Bool(b)) => Some(Dynamic::from_bool(!*b)),
        _ => None,
    }
}

/// What the fast operators make of `target op= rhs`: the integer to write, or
/// floating-point arithmetic for the host, or nothing.
///
/// An integer target with a floating-point operand is not one of the pairs: it
/// becomes `target = target op rhs`, which is another answer.
pub open spec fn assign_applied(kind: BinOpKind, target: Data, rhs: Data) -> Result<
    Applied<i64>,
    Fail,
> {
    match (target, rhs) {
        (Data::Int(x), Data::Int(y)) => match arithmetic(kind, x, y) {
            Some(Ok(n)) => Ok(Applied::Done(n)),
            Some(Err(err)) => Err(err),
            None => Ok(Applied::Declined),
        },
        (Data::Float(_), Data::Float(_)) => if float_kind(kind) {
            Ok(Applied::Float)
        } else {
            Ok(Applied::Declined)
        },
        (Data::Float(_), Data::Int(_)) => if float_kind(kind) {
            Ok(Applied::Float)
        } else {
            Ok(Applied::Declined)
        },
        _ => Ok(Applied::Declined),
    }
}

/// A target after an operator assignment: the integer written where there is
/// one, with its tag and mode kept, and the target untouched otherwise.
pub open spec fn assigned(target: Datum, out: Result<Applied<i64>, Fail>) -> Datum {
    match out {
        Ok(Applied::Done(n)) => Datum { data: Data::Int(n), tag: target.tag, mode: target.mode },
        _ => target,
    }
}

/// The model of what an operator assignment gives.
pub open spec fn assign_view(out: Result<Applied<i64>, Error>) -> Result<Applied<i64>, Fail> {
    match out {
        Ok(done) => Ok(done),
        Err(err) => Err(err@),
    }
}

/// Apply an operator assignment to a pair the fast operators cover.
pub fn apply_assign(kind: BinOpKind, target: &mut Dynamic, rhs: &Dynamic) -> (out: Result<
    Applied<i64>,
    Error,
>)
    ensures
        assign_view(out) == assign_applied(kind, old(target)@.data, rhs@.data),
        final(target)@ == assigned(old(target)@, assign_view(out)),
{
    if let (Union::Int(x), Union::Int(y)) = (&target.value, &rhs.value) {
        return match int_assign(kind, *x, *y) {
            Some(Ok(n)) => {
                target.value = Union::Int(n);
                Ok(Applied::Done(n))
            },
            Some(Err(err)) => Err(err),
            None => Ok(Applied::Declined),
        };
    }
    if matches!(target.value, Union::Float(_)) && matches!(
        rhs.value,
        Union::Float(_) | Union::Int(_)
    ) && is_float_kind(kind) {
        Ok(Applied::Float)
    } else {
        Ok(Applied::Declined)
    }
}

} // verus!
