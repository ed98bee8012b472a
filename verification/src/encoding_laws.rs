//! How instructions are written: a tag, then the fields in a fixed order, each
//! with its low byte first.
use vstd::prelude::*;

use crate::tag;
use crate::bytecode::{
    decoded, dword, word, Branch, IndexSet, Op, Operator, Receiver, Shape, Source, Unreadable,
};

verus! {

/// A sixteen-bit number, low byte first.
pub open spec fn two_bytes(n: u16) -> Seq<u8> {
    seq![(n % 256) as u8, (n / 256) as u8]
}

/// A thirty-two-bit number, low byte first.
pub open spec fn four_bytes(n: u32) -> Seq<u8> {
    seq![
        (n % 256) as u8,
        (n / 256 % 256) as u8,
        (n / 65536 % 256) as u8,
        (n / 16777216) as u8,
    ]
}

/// Whether these bytes, wherever they stand, are read as this instruction and no
/// more of the code than them.
pub open spec fn read_as(before: Seq<u8>, bytes: Seq<u8>, after: Seq<u8>, op: Op) -> bool {
    decoded(before + bytes + after, before.len() as int) == Ok::<(Op, int), Unreadable>(
        (op, bytes.len() as int),
    )
}

/// A number written low byte first is read as it was.
pub proof fn numbers_are_read_as_written(code: Seq<u8>, at: int, n: u16, long: u32)
    requires
        0 <= at,
    ensures
        at + 2 <= code.len() && code.subrange(at, at + 2) == two_bytes(n) ==> word(code, at) == n,
        at + 4 <= code.len() && code.subrange(at, at + 4) == four_bytes(long) ==> dword(code, at)
            == long,
{
    if at + 2 <= code.len() && code.subrange(at, at + 2) == two_bytes(n) {
        let s = code.subrange(at, at + 2);
        assert(s[0] == code[at] && s[1] == code[at + 1]);
    }
    if at + 4 <= code.len() && code.subrange(at, at + 4) == four_bytes(long) {
        let s = code.subrange(at, at + 4);
        assert(s[0] == code[at] && s[1] == code[at + 1] && s[2] == code[at + 2] && s[3] == code[at
            + 3]);
        assert(long % 256 + 256 * (long / 256 % 256) + 65536 * (long / 65536 % 256) + 16777216 * (
        long / 16777216) == long);
    }
}

/// Reading past the end, or an instruction cut short, or a tag no instruction
/// has, is refused.
pub proof fn unreadable_code_is_refused(code: Seq<u8>, pc: int)
    requires
        0 <= pc,
    ensures
        pc >= code.len() ==> decoded(code, pc) == Err::<(Op, int), Unreadable>(Unreadable::End),
        pc < code.len() && code[pc] > 104 ==> decoded(code, pc) == Err::<(Op, int), Unreadable>(
            Unreadable::Unknown,
        ),
        pc < code.len() && code[pc] <= 104 ==> !(decoded(code, pc) matches Err(Unreadable::Unknown))
            && !(decoded(code, pc) matches Err(Unreadable::End)),
        decoded(code, pc) matches Ok((_, n)) ==> 0 < n && pc + n <= code.len(),
{
}

proof fn byte_stands(before: Seq<u8>, bytes: Seq<u8>, after: Seq<u8>, at: int)
    requires
        0 <= at < bytes.len(),
    ensures
        (before + bytes + after)[before.len() + at] == bytes[at],
{
}

proof fn two_bytes_stand(before: Seq<u8>, bytes: Seq<u8>, after: Seq<u8>, at: int, n: u16)
    requires
        0 <= at,
        at + 2 <= bytes.len(),
        bytes[at] == two_bytes(n)[0],
        bytes[at + 1] == two_bytes(n)[1],
    ensures
        word(before + bytes + after, before.len() + at) == n,
{
    let code = before + bytes + after;
    assert(code.subrange(before.len() + at, before.len() + at + 2) =~= two_bytes(n));
    numbers_are_read_as_written(code, before.len() + at, n, 0);
}

proof fn four_bytes_stand(before: Seq<u8>, bytes: Seq<u8>, after: Seq<u8>, at: int, n: u32)
    requires
        0 <= at,
        at + 4 <= bytes.len(),
        bytes[at] == four_bytes(n)[0],
        bytes[at + 1] == four_bytes(n)[1],
        bytes[at + 2] == four_bytes(n)[2],
        bytes[at + 3] == four_bytes(n)[3],
    ensures
        dword(before + bytes + after, before.len() + at) == n,
{
    let code = before + bytes + after;
    assert(code.subrange(before.len() + at, before.len() + at + 4) =~= four_bytes(n));
    numbers_are_read_as_written(code, before.len() + at, 0, n);
}

proof fn stands_alone(before: Seq<u8>, after: Seq<u8>, t: u8)
    ensures
        ({
            let bytes: Seq<u8> = seq![t];
            let code = before + bytes + after;
            let at: int = before.len() as int;
            &&& code[at] == t
            &&& bytes.len() == 1
        }),
{
    let bytes: Seq<u8> = seq![t];
    byte_stands(before, bytes, after, 0);
}

proof fn stands_with_one(before: Seq<u8>, after: Seq<u8>, t: u8, a: u8)
    ensures
        ({
            let bytes: Seq<u8> = seq![t] + seq![a];
            let code = before + bytes + after;
            let at: int = before.len() as int;
            &&& code[at] == t
            &&& code[at + 1] == a
            &&& bytes.len() == 2
        }),
{
    let bytes: Seq<u8> = seq![t] + seq![a];
    byte_stands(before, bytes, after, 0);
    byte_stands(before, bytes, after, 1);
}

proof fn stands_with_four(before: Seq<u8>, after: Seq<u8>, t: u8, a: u32)
    ensures
        ({
            let bytes: Seq<u8> = seq![t] + four_bytes(a);
            let code = before + bytes + after;
            let at: int = before.len() as int;
            &&& code[at] == t
            &&& dword(code, at + 1) == a
            &&& bytes.len() == 5
        }),
{
    let bytes: Seq<u8> = seq![t] + four_bytes(a);
    byte_stands(before, bytes, after, 0);
    four_bytes_stand(before, bytes, after, 1, a);
}

proof fn stands_with_two(before: Seq<u8>, after: Seq<u8>, t: u8, a: u16)
    ensures
        ({
            let bytes: Seq<u8> = seq![t] + two_bytes(a);
            let code = before + bytes + after;
            let at: int = before.len() as int;
            &&& code[at] == t
            &&& word(code, at + 1) == a
            &&& bytes.len() == 3
        }),
{
    let bytes: Seq<u8> = seq![t] + two_bytes(a);
    byte_stands(before, bytes, after, 0);
    two_bytes_stand(before, bytes, after, 1, a);
}

proof fn stands_with_one_two(before: Seq<u8>, after: Seq<u8>, t: u8, a: u8, b: u16)
    ensures
        ({
            let bytes: Seq<u8> = seq![t] + seq![a] + two_bytes(b);
            let code = before + bytes + after;
            let at: int = before.len() as int;
            &&& code[at] == t
            &&& code[at + 1] == a
            &&& word(code, at + 2) == b
            &&& bytes.len() == 4
        }),
{
    let bytes: Seq<u8> = seq![t] + seq![a] + two_bytes(b);
    byte_stands(before, bytes, after, 0);
    byte_stands(before, bytes, after, 1);
    two_bytes_stand(before, bytes, after, 2, b);
}

proof fn stands_with_four_two(before: Seq<u8>, after: Seq<u8>, t: u8, a: u32, b: u16)
    ensures
        ({
            let bytes: Seq<u8> = seq![t] + four_bytes(a) + two_bytes(b);
            let code = before + bytes + after;
            let at: int = before.len() as int;
            &&& code[at] == t
            &&& dword(code, at + 1) == a
            &&& word(code, at + 5) == b
            &&& bytes.len() == 7
        }),
{
    let bytes: Seq<u8> = seq![t] + four_bytes(a) + two_bytes(b);
    byte_stands(before, bytes, after, 0);
    four_bytes_stand(before, bytes, after, 1, a);
    two_bytes_stand(before, bytes, after, 5, b);
}

proof fn stands_with_two_one(before: Seq<u8>, after: Seq<u8>, t: u8, a: u16, b: u8)
    ensures
        ({
            let bytes: Seq<u8> = seq![t] + two_bytes(a) + seq![b];
            let code = before + bytes + after;
            let at: int = before.len() as int;
            &&& code[at] == t
            &&& word(code, at + 1) == a
            &&& code[at + 3] == b
            &&& bytes.len() == 4
        }),
{
    let bytes: Seq<u8> = seq![t] + two_bytes(a) + seq![b];
    byte_stands(before, bytes, after, 0);
    two_bytes_stand(before, bytes, after, 1, a);
    byte_stands(before, bytes, after, 3);
}

proof fn stands_with_two_two(before: Seq<u8>, after: Seq<u8>, t: u8, a: u16, b: u16)
    ensures
        ({
            let bytes: Seq<u8> = seq![t] + two_bytes(a) + two_bytes(b);
            let code = before + bytes + after;
            let at: int = before.len() as int;
            &&& code[at] == t
            &&& word(code, at + 1) == a
            &&& word(code, at + 3) == b
            &&& bytes.len() == 5
        }),
{
    let bytes: Seq<u8> = seq![t] + two_bytes(a) + two_bytes(b);
    byte_stands(before, bytes, after, 0);
    two_bytes_stand(before, bytes, after, 1, a);
    two_bytes_stand(before, bytes, after, 3, b);
}

proof fn stands_with_two_one_four(before: Seq<u8>, after: Seq<u8>, t: u8, a: u16, b: u8, c: u32)
    ensures
        ({
            let bytes: Seq<u8> = seq![t] + two_bytes(a) + seq![b] + four_bytes(c);
            let code = before + bytes + after;
            let at: int = before.len() as int;
            &&& code[at] == t
            &&& word(code, at + 1) == a
            &&& code[at + 3] == b
            &&& dword(code, at + 4) == c
            &&& bytes.len() == 8
        }),
{
    let bytes: Seq<u8> = seq![t] + two_bytes(a) + seq![b] + four_bytes(c);
    byte_stands(before, bytes, after, 0);
    two_bytes_stand(before, bytes, after, 1, a);
    byte_stands(before, bytes, after, 3);
    four_bytes_stand(before, bytes, after, 4, c);
}

proof fn stands_with_two_one_two(before: Seq<u8>, after: Seq<u8>, t: u8, a: u16, b: u8, c: u16)
    ensures
        ({
            let bytes: Seq<u8> = seq![t] + two_bytes(a) + seq![b] + two_bytes(c);
            let code = before + bytes + after;
            let at: int = before.len() as int;
            &&& code[at] == t
            &&& word(code, at + 1) == a
            &&& code[at + 3] == b
            &&& word(code, at + 4) == c
            &&& bytes.len() == 6
        }),
{
    let bytes: Seq<u8> = seq![t] + two_bytes(a) + seq![b] + two_bytes(c);
    byte_stands(before, bytes, after, 0);
    two_bytes_stand(before, bytes, after, 1, a);
    byte_stands(before, bytes, after, 3);
    two_bytes_stand(before, bytes, after, 4, c);
}

proof fn stands_with_two_two_one(before: Seq<u8>, after: Seq<u8>, t: u8, a: u16, b: u16, c: u8)
    ensures
        ({
            let bytes: Seq<u8> = seq![t] + two_bytes(a) + two_bytes(b) + seq![c];
            let code = before + bytes + after;
            let at: int = before.len() as int;
            &&& code[at] == t
            &&& word(code, at + 1) == a
            &&& word(code, at + 3) == b
            &&& code[at + 5] == c
            &&& bytes.len() == 6
        }),
{
    let bytes: Seq<u8> = seq![t] + two_bytes(a) + two_bytes(b) + seq![c];
    byte_stands(before, bytes, after, 0);
    two_bytes_stand(before, bytes, after, 1, a);
    two_bytes_stand(before, bytes, after, 3, b);
    byte_stands(before, bytes, after, 5);
}

proof fn stands_with_two_two_two(before: Seq<u8>, after: Seq<u8>, t: u8, a: u16, b: u16, c: u16)
    ensures
        ({
            let bytes: Seq<u8> = seq![t] + two_bytes(a) + two_bytes(b) + two_bytes(c);
            let code = before + bytes + after;
            let at: int = before.len() as int;
            &&& code[at] == t
            &&& word(code, at + 1) == a
            &&& word(code, at + 3) == b
            &&& word(code, at + 5) == c
            &&& bytes.len() == 7
        }),
{
    let bytes: Seq<u8> = seq![t] + two_bytes(a) + two_bytes(b) + two_bytes(c);
    byte_stands(before, bytes, after, 0);
    two_bytes_stand(before, bytes, after, 1, a);
    two_bytes_stand(before, bytes, after, 3, b);
    two_bytes_stand(before, bytes, after, 5, c);
}

proof fn stands_with_two_one_two_four(
    before: Seq<u8>,
    after: Seq<u8>,
    t: u8,
    a: u16,
    b: u8,
    c: u16,
    d: u32,
)
    ensures
        ({
            let bytes: Seq<u8> = seq![t] + two_bytes(a) + seq![b] + two_bytes(c) + four_bytes(d);
            let code = before + bytes + after;
            let at: int = before.len() as int;
            &&& code[at] == t
            &&& word(code, at + 1) == a
            &&& code[at + 3] == b
            &&& word(code, at + 4) == c
            &&& dword(code, at + 6) == d
            &&& bytes.len() == 10
        }),
{
    let bytes: Seq<u8> = seq![t] + two_bytes(a) + seq![b] + two_bytes(c) + four_bytes(d);
    byte_stands(before, bytes, after, 0);
    two_bytes_stand(before, bytes, after, 1, a);
    byte_stands(before, bytes, after, 3);
    two_bytes_stand(before, bytes, after, 4, c);
    four_bytes_stand(before, bytes, after, 6, d);
}

proof fn stands_with_two_one_two_two(
    before: Seq<u8>,
    after: Seq<u8>,
    t: u8,
    a: u16,
    b: u8,
    c: u16,
    d: u16,
)
    ensures
        ({
            let bytes: Seq<u8> = seq![t] + two_bytes(a) + seq![b] + two_bytes(c) + two_bytes(d);
            let code = before + bytes + after;
            let at: int = before.len() as int;
            &&& code[at] == t
            &&& word(code, at + 1) == a
            &&& code[at + 3] == b
            &&& word(code, at + 4) == c
            &&& word(code, at + 6) == d
            &&& bytes.len() == 8
        }),
{
    let bytes: Seq<u8> = seq![t] + two_bytes(a) + seq![b] + two_bytes(c) + two_bytes(d);
    byte_stands(before, bytes, after, 0);
    two_bytes_stand(before, bytes, after, 1, a);
    byte_stands(before, bytes, after, 3);
    two_bytes_stand(before, bytes, after, 4, c);
    two_bytes_stand(before, bytes, after, 6, d);
}

proof fn stands_with_two_two_two_one(
    before: Seq<u8>,
    after: Seq<u8>,
    t: u8,
    a: u16,
    b: u16,
    c: u16,
    d: u8,
)
    ensures
        ({
            let bytes: Seq<u8> = seq![t] + two_bytes(a) + two_bytes(b) + two_bytes(c) + seq![d];
            let code = before + bytes + after;
            let at: int = before.len() as int;
            &&& code[at] == t
            &&& word(code, at + 1) == a
            &&& word(code, at + 3) == b
            &&& word(code, at + 5) == c
            &&& code[at + 7] == d
            &&& bytes.len() == 8
        }),
{
    let bytes: Seq<u8> = seq![t] + two_bytes(a) + two_bytes(b) + two_bytes(c) + seq![d];
    byte_stands(before, bytes, after, 0);
    two_bytes_stand(before, bytes, after, 1, a);
    two_bytes_stand(before, bytes, after, 3, b);
    two_bytes_stand(before, bytes, after, 5, c);
    byte_stands(before, bytes, after, 7);
}

proof fn stands_with_two_two_two_two(
    before: Seq<u8>,
    after: Seq<u8>,
    t: u8,
    a: u16,
    b: u16,
    c: u16,
    d: u16,
)
    ensures
        ({
            let bytes: Seq<u8> = seq![t] + two_bytes(a) + two_bytes(b) + two_bytes(c)
                + two_bytes(d);
            let code = before + bytes + after;
            let at: int = before.len() as int;
            &&& code[at] == t
            &&& word(code, at + 1) == a
            &&& word(code, at + 3) == b
            &&& word(code, at + 5) == c
            &&& word(code, at + 7) == d
            &&& bytes.len() == 9
        }),
{
    let bytes: Seq<u8> = seq![t] + two_bytes(a) + two_bytes(b) + two_bytes(c) + two_bytes(d);
    byte_stands(before, bytes, after, 0);
    two_bytes_stand(before, bytes, after, 1, a);
    two_bytes_stand(before, bytes, after, 3, b);
    two_bytes_stand(before, bytes, after, 5, c);
    two_bytes_stand(before, bytes, after, 7, d);
}

proof fn stands_with_two_one_two_two_four(
    before: Seq<u8>,
    after: Seq<u8>,
    t: u8,
    a: u16,
    b: u8,
    c: u16,
    d: u16,
    e: u32,
)
    ensures
        ({
            let bytes: Seq<u8> = seq![t] + two_bytes(a) + seq![b] + two_bytes(c) + two_bytes(d)
                + four_bytes(e);
            let code = before + bytes + after;
            let at: int = before.len() as int;
            &&& code[at] == t
            &&& word(code, at + 1) == a
            &&& code[at + 3] == b
            &&& word(code, at + 4) == c
            &&& word(code, at + 6) == d
            &&& dword(code, at + 8) == e
            &&& bytes.len() == 12
        }),
{
    let bytes: Seq<u8> = seq![t] + two_bytes(a) + seq![b] + two_bytes(c) + two_bytes(d)
        + four_bytes(e);
    byte_stands(before, bytes, after, 0);
    two_bytes_stand(before, bytes, after, 1, a);
    byte_stands(before, bytes, after, 3);
    two_bytes_stand(before, bytes, after, 4, c);
    two_bytes_stand(before, bytes, after, 6, d);
    four_bytes_stand(before, bytes, after, 8, e);
}

proof fn stands_with_two_one_two_two_two(
    before: Seq<u8>,
    after: Seq<u8>,
    t: u8,
    a: u16,
    b: u8,
    c: u16,
    d: u16,
    e: u16,
)
    ensures
        ({
            let bytes: Seq<u8> = seq![t] + two_bytes(a) + seq![b] + two_bytes(c) + two_bytes(d)
                + two_bytes(e);
            let code = before + bytes + after;
            let at: int = before.len() as int;
            &&& code[at] == t
            &&& word(code, at + 1) == a
            &&& code[at + 3] == b
            &&& word(code, at + 4) == c
            &&& word(code, at + 6) == d
            &&& word(code, at + 8) == e
            &&& bytes.len() == 10
        }),
{
    let bytes: Seq<u8> = seq![t] + two_bytes(a) + seq![b] + two_bytes(c) + two_bytes(d)
        + two_bytes(e);
    byte_stands(before, bytes, after, 0);
    two_bytes_stand(before, bytes, after, 1, a);
    byte_stands(before, bytes, after, 3);
    two_bytes_stand(before, bytes, after, 4, c);
    two_bytes_stand(before, bytes, after, 6, d);
    two_bytes_stand(before, bytes, after, 8, e);
}

proof fn stands_with_two_two_two_two_one(
    before: Seq<u8>,
    after: Seq<u8>,
    t: u8,
    a: u16,
    b: u16,
    c: u16,
    d: u16,
    e: u8,
)
    ensures
        ({
            let bytes: Seq<u8> = seq![t] + two_bytes(a) + two_bytes(b) + two_bytes(c)
                + two_bytes(d) + seq![e];
            let code = before + bytes + after;
            let at: int = before.len() as int;
            &&& code[at] == t
            &&& word(code, at + 1) == a
            &&& word(code, at + 3) == b
            &&& word(code, at + 5) == c
            &&& word(code, at + 7) == d
            &&& code[at + 9] == e
            &&& bytes.len() == 10
        }),
{
    let bytes: Seq<u8> = seq![t] + two_bytes(a) + two_bytes(b) + two_bytes(c) + two_bytes(d)
        + seq![e];
    byte_stands(before, bytes, after, 0);
    two_bytes_stand(before, bytes, after, 1, a);
    two_bytes_stand(before, bytes, after, 3, b);
    two_bytes_stand(before, bytes, after, 5, c);
    two_bytes_stand(before, bytes, after, 7, d);
    byte_stands(before, bytes, after, 9);
}

proof fn stands_with_two_one_two_two_two_four(
    before: Seq<u8>,
    after: Seq<u8>,
    t: u8,
    a: u16,
    b: u8,
    c: u16,
    d: u16,
    e: u16,
    f: u32,
)
    ensures
        ({
            let bytes: Seq<u8> = seq![t] + two_bytes(a) + seq![b] + two_bytes(c) + two_bytes(d)
                + two_bytes(e) + four_bytes(f);
            let code = before + bytes + after;
            let at: int = before.len() as int;
            &&& code[at] == t
            &&& word(code, at + 1) == a
            &&& code[at + 3] == b
            &&& word(code, at + 4) == c
            &&& word(code, at + 6) == d
            &&& word(code, at + 8) == e
            &&& dword(code, at + 10) == f
            &&& bytes.len() == 14
        }),
{
    let bytes: Seq<u8> = seq![t] + two_bytes(a) + seq![b] + two_bytes(c) + two_bytes(d)
        + two_bytes(e) + four_bytes(f);
    byte_stands(before, bytes, after, 0);
    two_bytes_stand(before, bytes, after, 1, a);
    byte_stands(before, bytes, after, 3);
    two_bytes_stand(before, bytes, after, 4, c);
    two_bytes_stand(before, bytes, after, 6, d);
    two_bytes_stand(before, bytes, after, 8, e);
    four_bytes_stand(before, bytes, after, 10, f);
}

/// An instruction without fields is its tag.
#[verifier::spinoff_prover]
#[verifier::rlimit(30)]
pub proof fn bare_instructions_are_read(
    before: Seq<u8>,
    after: Seq<u8>,
)
    ensures
        read_as(before, seq![tag::UNIT], after, Op::Unit),
        read_as(before, seq![tag::FALSE], after, Op::Bool(false)),
        read_as(before, seq![tag::TRUE], after, Op::Bool(true)),
        read_as(before, seq![tag::LOAD_THIS], after, Op::LoadThis { flatten: true }),
        read_as(before, seq![tag::LOAD_THIS_SHARED], after, Op::LoadThis { flatten: false }),
        read_as(before, seq![tag::REQUIRE_THIS], after, Op::RequireThis),
        read_as(before, seq![tag::ASSIGN_THIS], after, Op::AssignThis { op: None }),
        read_as(before, seq![tag::POP], after, Op::Pop),
        read_as(before, seq![tag::IS_SHARED], after, Op::IsShared),
        read_as(before, seq![tag::MAKE_FN_PTR], after, Op::MakeFnPtr),
        read_as(before, seq![tag::INTERPOLATE_START], after, Op::InterpolateStart),
        read_as(before, seq![tag::INTERPOLATE_APPEND], after, Op::InterpolateAppend),
        read_as(before, seq![tag::INTERPOLATE_END], after, Op::InterpolateEnd),
        read_as(before, seq![tag::TICK], after, Op::Tick),
        read_as(before, seq![tag::CHECKPOINT], after, Op::Checkpoint),
        read_as(before, seq![tag::POP_HANDLER], after, Op::PopHandler),
        read_as(before, seq![tag::ITER_INIT], after, Op::IterInit),
        read_as(before, seq![tag::ITER_DROP], after, Op::IterDrop),
        read_as(before, seq![tag::THROW], after, Op::Throw),
        read_as(before, seq![tag::RETURN], after, Op::Return),
{
    stands_alone(before, after, tag::UNIT);
    stands_alone(before, after, tag::FALSE);
    stands_alone(before, after, tag::TRUE);
    stands_alone(before, after, tag::LOAD_THIS);
    stands_alone(before, after, tag::LOAD_THIS_SHARED);
    stands_alone(before, after, tag::REQUIRE_THIS);
    stands_alone(before, after, tag::ASSIGN_THIS);
    stands_alone(before, after, tag::POP);
    stands_alone(before, after, tag::IS_SHARED);
    stands_alone(before, after, tag::MAKE_FN_PTR);
    stands_alone(before, after, tag::INTERPOLATE_START);
    stands_alone(before, after, tag::INTERPOLATE_APPEND);
    stands_alone(before, after, tag::INTERPOLATE_END);
    stands_alone(before, after, tag::TICK);
    stands_alone(before, after, tag::CHECKPOINT);
    stands_alone(before, after, tag::POP_HANDLER);
    stands_alone(before, after, tag::ITER_INIT);
    stands_alone(before, after, tag::ITER_DROP);
    stands_alone(before, after, tag::THROW);
    stands_alone(before, after, tag::RETURN);
}

/// A count is one byte, and the receiver of a pointer call follows it.
#[verifier::spinoff_prover]
#[verifier::rlimit(30)]
pub proof fn counted_instructions_are_read(
    before: Seq<u8>,
    after: Seq<u8>,
    n: u8,
    a: u16,
)
    ensures
        read_as(before, seq![tag::ROTATE] + seq![n], after, Op::Rotate(n)),
        read_as(before, seq![tag::CURRY] + seq![n], after, Op::Curry(n)),
        read_as(
            before,
            seq![tag::CALL_FN_PTR] + seq![n],
            after,
            Op::CallFnPtr { argc: n, method: false, receiver: None },
        ),
        read_as(
            before,
            seq![tag::CALL_FN_PTR_METHOD] + seq![n],
            after,
            Op::CallFnPtr { argc: n, method: true, receiver: None },
        ),
        read_as(
            before,
            seq![tag::CALL_FN_PTR_ON_THIS] + seq![n],
            after,
            Op::CallFnPtr { argc: n, method: true, receiver: Some(Receiver::This) },
        ),
        read_as(
            before,
            seq![tag::CALL_FN_PTR_ON_LOCAL] + seq![n] + two_bytes(a),
            after,
            Op::CallFnPtr { argc: n, method: true, receiver: Some(Receiver::Local(a)) },
        ),
        read_as(
            before,
            seq![tag::CALL_FN_PTR_ON_NAMED] + seq![n] + two_bytes(a),
            after,
            Op::CallFnPtr { argc: n, method: true, receiver: Some(Receiver::Named(a as u32)) },
        ),
{
    stands_with_one(before, after, tag::ROTATE, n);
    stands_with_one(before, after, tag::CURRY, n);
    stands_with_one(before, after, tag::CALL_FN_PTR, n);
    stands_with_one(before, after, tag::CALL_FN_PTR_METHOD, n);
    stands_with_one(before, after, tag::CALL_FN_PTR_ON_THIS, n);
    stands_with_one_two(before, after, tag::CALL_FN_PTR_ON_LOCAL, n, a);
    stands_with_one_two(before, after, tag::CALL_FN_PTR_ON_NAMED, n, a);
}

/// A slot, a name or an index into a table is two bytes.
#[verifier::spinoff_prover]
#[verifier::rlimit(30)]
pub proof fn numbered_instructions_are_read(
    before: Seq<u8>,
    after: Seq<u8>,
    a: u16,
)
    ensures
        read_as(before, seq![tag::CONST] + two_bytes(a), after, Op::Const(a)),
        read_as(before, seq![tag::LOAD_LOCAL] + two_bytes(a), after, Op::LoadLocal(a)),
        read_as(
            before,
            seq![tag::STORE_LOCAL] + two_bytes(a),
            after,
            Op::StoreLocal { slot: a, constant: false },
        ),
        read_as(
            before,
            seq![tag::STORE_CONST] + two_bytes(a),
            after,
            Op::StoreLocal { slot: a, constant: true },
        ),
        read_as(
            before,
            seq![tag::LOAD_NAMED] + two_bytes(a),
            after,
            Op::LoadNamed { name: a, flatten: true },
        ),
        read_as(
            before,
            seq![tag::LOAD_SHARED_NAMED] + two_bytes(a),
            after,
            Op::LoadNamed { name: a, flatten: false },
        ),
        read_as(
            before,
            seq![tag::ASSIGN_NAMED] + two_bytes(a),
            after,
            Op::AssignNamed { name: a, op: None },
        ),
        read_as(
            before,
            seq![tag::DECLARE_LOCAL] + two_bytes(a),
            after,
            Op::Declare { name: a, constant: false },
        ),
        read_as(
            before,
            seq![tag::DECLARE_CONST] + two_bytes(a),
            after,
            Op::Declare { name: a, constant: true },
        ),
        read_as(
            before,
            seq![tag::ASSIGN_THIS_OP] + two_bytes(a),
            after,
            Op::AssignThis { op: Some(a) },
        ),
        read_as(
            before,
            seq![tag::EVAL_AST] + two_bytes(a),
            after,
            Op::EvalAst { index: a, rewind: true },
        ),
        read_as(
            before,
            seq![tag::EVAL_AST_KEEP] + two_bytes(a),
            after,
            Op::EvalAst { index: a, rewind: false },
        ),
        read_as(before, seq![tag::MAKE_ARRAY] + two_bytes(a), after, Op::MakeArray(a)),
        read_as(before, seq![tag::MAKE_MAP] + two_bytes(a), after, Op::MakeMap(a)),
{
    stands_with_two(before, after, tag::CONST, a);
    stands_with_two(before, after, tag::LOAD_LOCAL, a);
    stands_with_two(before, after, tag::STORE_LOCAL, a);
    stands_with_two(before, after, tag::STORE_CONST, a);
    stands_with_two(before, after, tag::LOAD_NAMED, a);
    stands_with_two(before, after, tag::LOAD_SHARED_NAMED, a);
    stands_with_two(before, after, tag::ASSIGN_NAMED, a);
    stands_with_two(before, after, tag::DECLARE_LOCAL, a);
    stands_with_two(before, after, tag::DECLARE_CONST, a);
    stands_with_two(before, after, tag::ASSIGN_THIS_OP, a);
    stands_with_two(before, after, tag::EVAL_AST, a);
    stands_with_two(before, after, tag::EVAL_AST_KEEP, a);
    stands_with_two(before, after, tag::MAKE_ARRAY, a);
    stands_with_two(before, after, tag::MAKE_MAP, a);
}

/// So it is for the instructions on literals, cells, chains and blocks.
#[verifier::spinoff_prover]
#[verifier::rlimit(30)]
pub proof fn more_numbered_instructions_are_read(
    before: Seq<u8>,
    after: Seq<u8>,
    a: u16,
)
    ensures
        read_as(
            before,
            seq![tag::CHECK_ARRAY_SIZE] + two_bytes(a),
            after,
            Op::CheckSize { index: a, map: false },
        ),
        read_as(
            before,
            seq![tag::CHECK_MAP_SIZE] + two_bytes(a),
            after,
            Op::CheckSize { index: a, map: true },
        ),
        read_as(before, seq![tag::SWITCH] + two_bytes(a), after, Op::Switch(a)),
        read_as(before, seq![tag::LOAD_SHARED] + two_bytes(a), after, Op::LoadShared(a)),
        read_as(before, seq![tag::SHARE] + two_bytes(a), after, Op::Share(a)),
        read_as(before, seq![tag::SHARE_NAMED] + two_bytes(a), after, Op::ShareNamed(a)),
        read_as(before, seq![tag::MAKE_CLOSURE] + two_bytes(a), after, Op::MakeClosure(a)),
        read_as(
            before,
            seq![tag::CHAIN] + two_bytes(a),
            after,
            Op::Chain { index: a, discard: false },
        ),
        read_as(
            before,
            seq![tag::CHAIN_DISCARD] + two_bytes(a),
            after,
            Op::Chain { index: a, discard: true },
        ),
        read_as(before, seq![tag::UNWIND_TO] + two_bytes(a), after, Op::UnwindTo(a)),
        read_as(before, seq![tag::STATEMENT] + two_bytes(a), after, Op::Statement(a)),
        read_as(before, seq![tag::STORE_SHARED] + two_bytes(a), after, Op::StoreShared(a)),
{
    stands_with_two(before, after, tag::CHECK_ARRAY_SIZE, a);
    stands_with_two(before, after, tag::CHECK_MAP_SIZE, a);
    stands_with_two(before, after, tag::SWITCH, a);
    stands_with_two(before, after, tag::LOAD_SHARED, a);
    stands_with_two(before, after, tag::SHARE, a);
    stands_with_two(before, after, tag::SHARE_NAMED, a);
    stands_with_two(before, after, tag::MAKE_CLOSURE, a);
    stands_with_two(before, after, tag::CHAIN, a);
    stands_with_two(before, after, tag::CHAIN_DISCARD, a);
    stands_with_two(before, after, tag::UNWIND_TO, a);
    stands_with_two(before, after, tag::STATEMENT, a);
    stands_with_two(before, after, tag::STORE_SHARED, a);
}

/// A target is four bytes, and what else a branch names follows it.
#[verifier::spinoff_prover]
#[verifier::rlimit(30)]
pub proof fn branches_are_read(
    before: Seq<u8>,
    after: Seq<u8>,
    to: u32,
    a: u16,
)
    ensures
        read_as(before, seq![tag::JUMP] + four_bytes(to), after, Op::Jump(to)),
        read_as(
            before,
            seq![tag::JUMP_IF_FALSE] + four_bytes(to),
            after,
            Op::JumpIf { target: to, when: false },
        ),
        read_as(
            before,
            seq![tag::JUMP_IF_TRUE] + four_bytes(to),
            after,
            Op::JumpIf { target: to, when: true },
        ),
        read_as(before, seq![tag::SKIP_IF_NOT_UNIT] + four_bytes(to), after, Op::SkipIfNotUnit(to)),
        read_as(
            before,
            seq![tag::PUSH_HANDLER] + four_bytes(to),
            after,
            Op::PushHandler { target: to, var: None },
        ),
        read_as(
            before,
            seq![tag::PUSH_HANDLER_VAR] + four_bytes(to) + two_bytes(a),
            after,
            Op::PushHandler { target: to, var: Some(a) },
        ),
        read_as(
            before,
            seq![tag::ITER_NEXT] + four_bytes(to),
            after,
            Op::IterNext { body: to, indexed: false, store: None },
        ),
        read_as(
            before,
            seq![tag::ITER_NEXT_INDEXED] + four_bytes(to),
            after,
            Op::IterNext { body: to, indexed: true, store: None },
        ),
        read_as(
            before,
            seq![tag::ITER_NEXT_STORE] + four_bytes(to) + two_bytes(a),
            after,
            Op::IterNext { body: to, indexed: false, store: Some(a) },
        ),
{
    stands_with_four(before, after, tag::JUMP, to);
    stands_with_four(before, after, tag::JUMP_IF_FALSE, to);
    stands_with_four(before, after, tag::JUMP_IF_TRUE, to);
    stands_with_four(before, after, tag::SKIP_IF_NOT_UNIT, to);
    stands_with_four(before, after, tag::PUSH_HANDLER, to);
    stands_with_four_two(before, after, tag::PUSH_HANDLER_VAR, to, a);
    stands_with_four(before, after, tag::ITER_NEXT, to);
    stands_with_four(before, after, tag::ITER_NEXT_INDEXED, to);
    stands_with_four_two(before, after, tag::ITER_NEXT_STORE, to, a);
}

/// An assignment names the slot, the name, the value if it is not an operand, and
/// the operator if it has one.
#[verifier::spinoff_prover]
#[verifier::rlimit(30)]
pub proof fn assignments_are_read(
    before: Seq<u8>,
    after: Seq<u8>,
    a: u16,
    b: u16,
    c: u16,
    d: u16,
)
    ensures
        read_as(
            before,
            seq![tag::ASSIGN_NAMED_OP] + two_bytes(a) + two_bytes(b),
            after,
            Op::AssignNamed { name: a, op: Some(b) },
        ),
        read_as(
            before,
            seq![tag::ASSIGN_LOCAL] + two_bytes(a) + two_bytes(b),
            after,
            Op::AssignLocal { slot: a, name: b, from: Source::Stack, op: None },
        ),
        read_as(
            before,
            seq![tag::ASSIGN_LOCAL_OP] + two_bytes(a) + two_bytes(b) + two_bytes(c),
            after,
            Op::AssignLocal { slot: a, name: b, from: Source::Stack, op: Some(c) },
        ),
        read_as(
            before,
            seq![tag::ASSIGN_LOCAL_FROM] + two_bytes(a) + two_bytes(b) + two_bytes(c),
            after,
            Op::AssignLocal { slot: a, name: b, from: Source::Local(c), op: None },
        ),
        read_as(
            before,
            seq![tag::ASSIGN_LOCAL_FROM_OP] + two_bytes(a) + two_bytes(b) + two_bytes(c)
                + two_bytes(d),
            after,
            Op::AssignLocal { slot: a, name: b, from: Source::Local(c), op: Some(d) },
        ),
        read_as(
            before,
            seq![tag::ASSIGN_LOCAL_FROM_CONST] + two_bytes(a) + two_bytes(b) + two_bytes(c),
            after,
            Op::AssignLocal { slot: a, name: b, from: Source::Const(c as u32), op: None },
        ),
        read_as(
            before,
            seq![tag::ASSIGN_LOCAL_FROM_CONST_OP] + two_bytes(a) + two_bytes(b) + two_bytes(c)
                + two_bytes(d),
            after,
            Op::AssignLocal { slot: a, name: b, from: Source::Const(c as u32), op: Some(d) },
        ),
{
    stands_with_two_two(before, after, tag::ASSIGN_NAMED_OP, a, b);
    stands_with_two_two(before, after, tag::ASSIGN_LOCAL, a, b);
    stands_with_two_two_two(before, after, tag::ASSIGN_LOCAL_OP, a, b, c);
    stands_with_two_two_two(before, after, tag::ASSIGN_LOCAL_FROM, a, b, c);
    stands_with_two_two_two_two(before, after, tag::ASSIGN_LOCAL_FROM_OP, a, b, c, d);
    stands_with_two_two_two(before, after, tag::ASSIGN_LOCAL_FROM_CONST, a, b, c);
    stands_with_two_two_two_two(before, after, tag::ASSIGN_LOCAL_FROM_CONST_OP, a, b, c, d);
}

/// A call names the function and counts its arguments, and an operator may name
/// its token; a call by reference names its receiver last.
#[verifier::spinoff_prover]
#[verifier::rlimit(30)]
pub proof fn calls_are_read(
    before: Seq<u8>,
    after: Seq<u8>,
    a: u16,
    n: u8,
    b: u16,
    to: u32,
)
    ensures
        read_as(
            before,
            seq![tag::CALL] + two_bytes(a) + seq![n],
            after,
            Op::Operate(
                Operator {
                    name: a,
                    argc: n,
                    capture: false,
                    shape: Shape::Plain,
                    lhs: Source::Stack,
                    rhs: Source::Stack,
                    token: None,
                    branch: None,
                },
            ),
        ),
        read_as(
            before,
            seq![tag::CALL_CAPTURE] + two_bytes(a) + seq![n],
            after,
            Op::Operate(
                Operator {
                    name: a,
                    argc: n,
                    capture: true,
                    shape: Shape::Plain,
                    lhs: Source::Stack,
                    rhs: Source::Stack,
                    token: None,
                    branch: None,
                },
            ),
        ),
        read_as(
            before,
            seq![tag::CALL_OP] + two_bytes(a) + seq![n] + two_bytes(b),
            after,
            Op::Operate(
                Operator {
                    name: a,
                    argc: n,
                    capture: false,
                    shape: Shape::Plain,
                    lhs: Source::Stack,
                    rhs: Source::Stack,
                    token: Some(b),
                    branch: None,
                },
            ),
        ),
        read_as(
            before,
            seq![tag::UN_OP] + two_bytes(a) + seq![n],
            after,
            Op::Operate(
                Operator {
                    name: a,
                    argc: 1,
                    capture: false,
                    shape: Shape::Unary(n),
                    lhs: Source::Stack,
                    rhs: Source::Stack,
                    token: None,
                    branch: None,
                },
            ),
        ),
        read_as(
            before,
            seq![tag::UN_OP_JF] + two_bytes(a) + seq![n] + four_bytes(to),
            after,
            Op::Operate(
                Operator {
                    name: a,
                    argc: 1,
                    capture: false,
                    shape: Shape::Unary(n),
                    lhs: Source::Stack,
                    rhs: Source::Stack,
                    token: None,
                    branch: Some(Branch { when: false, target: to }),
                },
            ),
        ),
        read_as(
            before,
            seq![tag::CALL_LOCAL_REF] + two_bytes(a) + seq![n] + two_bytes(b),
            after,
            Op::CallRef { name: a, argc: n, receiver: Receiver::Local(b), capture: false },
        ),
        read_as(
            before,
            seq![tag::CALL_LOCAL_REF_CAPTURE] + two_bytes(a) + seq![n] + two_bytes(b),
            after,
            Op::CallRef { name: a, argc: n, receiver: Receiver::Local(b), capture: true },
        ),
        read_as(
            before,
            seq![tag::CALL_NAMED_REF] + two_bytes(a) + seq![n] + two_bytes(b),
            after,
            Op::CallRef { name: a, argc: n, receiver: Receiver::Named(b as u32), capture: false },
        ),
        read_as(
            before,
            seq![tag::CALL_NAMED_REF_CAPTURE] + two_bytes(a) + seq![n] + two_bytes(b),
            after,
            Op::CallRef { name: a, argc: n, receiver: Receiver::Named(b as u32), capture: true },
        ),
        read_as(
            before,
            seq![tag::CALL_THIS_REF] + two_bytes(a) + seq![n],
            after,
            Op::CallRef { name: a, argc: n, receiver: Receiver::This, capture: false },
        ),
        read_as(
            before,
            seq![tag::CALL_THIS_REF_CAPTURE] + two_bytes(a) + seq![n],
            after,
            Op::CallRef { name: a, argc: n, receiver: Receiver::This, capture: true },
        ),
{
    stands_with_two_one(before, after, tag::CALL, a, n);
    stands_with_two_one(before, after, tag::CALL_CAPTURE, a, n);
    stands_with_two_one_two(before, after, tag::CALL_OP, a, n, b);
    stands_with_two_one(before, after, tag::UN_OP, a, n);
    stands_with_two_one_four(before, after, tag::UN_OP_JF, a, n, to);
    stands_with_two_one_two(before, after, tag::CALL_LOCAL_REF, a, n, b);
    stands_with_two_one_two(before, after, tag::CALL_LOCAL_REF_CAPTURE, a, n, b);
    stands_with_two_one_two(before, after, tag::CALL_NAMED_REF, a, n, b);
    stands_with_two_one_two(before, after, tag::CALL_NAMED_REF_CAPTURE, a, n, b);
    stands_with_two_one(before, after, tag::CALL_THIS_REF, a, n);
    stands_with_two_one(before, after, tag::CALL_THIS_REF_CAPTURE, a, n);
}

/// An operator with two operands names itself, its kind, its token, the operands
/// that are not on the stack in order, and the branch it swallowed.
#[verifier::spinoff_prover]
#[verifier::rlimit(30)]
pub proof fn operators_are_read(
    before: Seq<u8>,
    after: Seq<u8>,
    a: u16,
    n: u8,
    b: u16,
    c: u16,
    d: u16,
)
    ensures
        read_as(
            before,
            seq![tag::BIN_OP] + two_bytes(a) + seq![n] + two_bytes(b),
            after,
            Op::Operate(
                Operator {
                    name: a,
                    argc: 2,
                    capture: false,
                    shape: Shape::Binary(n),
                    lhs: Source::Stack,
                    rhs: Source::Stack,
                    token: Some(b),
                    branch: None,
                },
            ),
        ),
        read_as(
            before,
            seq![tag::BIN_OP_FROM_LOCAL] + two_bytes(a) + seq![n] + two_bytes(b) + two_bytes(c)
                + two_bytes(d),
            after,
            Op::Operate(
                Operator {
                    name: a,
                    argc: 2,
                    capture: false,
                    shape: Shape::Binary(n),
                    lhs: Source::Local(c),
                    rhs: Source::Local(d),
                    token: Some(b),
                    branch: None,
                },
            ),
        ),
        read_as(
            before,
            seq![tag::BIN_OP_FROM_CONST] + two_bytes(a) + seq![n] + two_bytes(b) + two_bytes(c)
                + two_bytes(d),
            after,
            Op::Operate(
                Operator {
                    name: a,
                    argc: 2,
                    capture: false,
                    shape: Shape::Binary(n),
                    lhs: Source::Local(c),
                    rhs: Source::Const(d as u32),
                    token: Some(b),
                    branch: None,
                },
            ),
        ),
        read_as(
            before,
            seq![tag::BIN_OP_RHS_LOCAL] + two_bytes(a) + seq![n] + two_bytes(b) + two_bytes(d),
            after,
            Op::Operate(
                Operator {
                    name: a,
                    argc: 2,
                    capture: false,
                    shape: Shape::Binary(n),
                    lhs: Source::Stack,
                    rhs: Source::Local(d),
                    token: Some(b),
                    branch: None,
                },
            ),
        ),
        read_as(
            before,
            seq![tag::BIN_OP_RHS_CONST] + two_bytes(a) + seq![n] + two_bytes(b) + two_bytes(d),
            after,
            Op::Operate(
                Operator {
                    name: a,
                    argc: 2,
                    capture: false,
                    shape: Shape::Binary(n),
                    lhs: Source::Stack,
                    rhs: Source::Const(d as u32),
                    token: Some(b),
                    branch: None,
                },
            ),
        ),
{
    stands_with_two_one_two(before, after, tag::BIN_OP, a, n, b);
    stands_with_two_one_two_two_two(before, after, tag::BIN_OP_FROM_LOCAL, a, n, b, c, d);
    stands_with_two_one_two_two_two(before, after, tag::BIN_OP_FROM_CONST, a, n, b, c, d);
    stands_with_two_one_two_two(before, after, tag::BIN_OP_RHS_LOCAL, a, n, b, d);
    stands_with_two_one_two_two(before, after, tag::BIN_OP_RHS_CONST, a, n, b, d);
}

/// The branch an operator swallowed stands last.
#[verifier::spinoff_prover]
#[verifier::rlimit(30)]
pub proof fn branching_operators_are_read(
    before: Seq<u8>,
    after: Seq<u8>,
    a: u16,
    n: u8,
    b: u16,
    c: u16,
    d: u16,
    to: u32,
)
    ensures
        read_as(
            before,
            seq![tag::BIN_OP_JF] + two_bytes(a) + seq![n] + two_bytes(b) + four_bytes(to),
            after,
            Op::Operate(
                Operator {
                    name: a,
                    argc: 2,
                    capture: false,
                    shape: Shape::Binary(n),
                    lhs: Source::Stack,
                    rhs: Source::Stack,
                    token: Some(b),
                    branch: Some(Branch { when: false, target: to }),
                },
            ),
        ),
        read_as(
            before,
            seq![tag::BIN_OP_FROM_LOCAL_JF] + two_bytes(a) + seq![n] + two_bytes(b)
                + two_bytes(c) + two_bytes(d) + four_bytes(to),
            after,
            Op::Operate(
                Operator {
                    name: a,
                    argc: 2,
                    capture: false,
                    shape: Shape::Binary(n),
                    lhs: Source::Local(c),
                    rhs: Source::Local(d),
                    token: Some(b),
                    branch: Some(Branch { when: false, target: to }),
                },
            ),
        ),
        read_as(
            before,
            seq![tag::BIN_OP_FROM_CONST_JF] + two_bytes(a) + seq![n] + two_bytes(b)
                + two_bytes(c) + two_bytes(d) + four_bytes(to),
            after,
            Op::Operate(
                Operator {
                    name: a,
                    argc: 2,
                    capture: false,
                    shape: Shape::Binary(n),
                    lhs: Source::Local(c),
                    rhs: Source::Const(d as u32),
                    token: Some(b),
                    branch: Some(Branch { when: false, target: to }),
                },
            ),
        ),
        read_as(
            before,
            seq![tag::BIN_OP_FROM_LOCAL_JT] + two_bytes(a) + seq![n] + two_bytes(b)
                + two_bytes(c) + two_bytes(d) + four_bytes(to),
            after,
            Op::Operate(
                Operator {
                    name: a,
                    argc: 2,
                    capture: false,
                    shape: Shape::Binary(n),
                    lhs: Source::Local(c),
                    rhs: Source::Local(d),
                    token: Some(b),
                    branch: Some(Branch { when: true, target: to }),
                },
            ),
        ),
        read_as(
            before,
            seq![tag::BIN_OP_FROM_CONST_JT] + two_bytes(a) + seq![n] + two_bytes(b)
                + two_bytes(c) + two_bytes(d) + four_bytes(to),
            after,
            Op::Operate(
                Operator {
                    name: a,
                    argc: 2,
                    capture: false,
                    shape: Shape::Binary(n),
                    lhs: Source::Local(c),
                    rhs: Source::Const(d as u32),
                    token: Some(b),
                    branch: Some(Branch { when: true, target: to }),
                },
            ),
        ),
        read_as(
            before,
            seq![tag::BIN_OP_RHS_LOCAL_JF] + two_bytes(a) + seq![n] + two_bytes(b)
                + two_bytes(d) + four_bytes(to),
            after,
            Op::Operate(
                Operator {
                    name: a,
                    argc: 2,
                    capture: false,
                    shape: Shape::Binary(n),
                    lhs: Source::Stack,
                    rhs: Source::Local(d),
                    token: Some(b),
                    branch: Some(Branch { when: false, target: to }),
                },
            ),
        ),
        read_as(
            before,
            seq![tag::BIN_OP_RHS_CONST_JF] + two_bytes(a) + seq![n] + two_bytes(b)
                + two_bytes(d) + four_bytes(to),
            after,
            Op::Operate(
                Operator {
                    name: a,
                    argc: 2,
                    capture: false,
                    shape: Shape::Binary(n),
                    lhs: Source::Stack,
                    rhs: Source::Const(d as u32),
                    token: Some(b),
                    branch: Some(Branch { when: false, target: to }),
                },
            ),
        ),
{
    stands_with_two_one_two_four(before, after, tag::BIN_OP_JF, a, n, b, to);
    stands_with_two_one_two_two_two_four(
        before,
        after,
        tag::BIN_OP_FROM_LOCAL_JF,
        a,
        n,
        b,
        c,
        d,
        to,
    );
    stands_with_two_one_two_two_two_four(
        before,
        after,
        tag::BIN_OP_FROM_CONST_JF,
        a,
        n,
        b,
        c,
        d,
        to,
    );
    stands_with_two_one_two_two_two_four(
        before,
        after,
        tag::BIN_OP_FROM_LOCAL_JT,
        a,
        n,
        b,
        c,
        d,
        to,
    );
    stands_with_two_one_two_two_two_four(
        before,
        after,
        tag::BIN_OP_FROM_CONST_JT,
        a,
        n,
        b,
        c,
        d,
        to,
    );
    stands_with_two_one_two_two_four(before, after, tag::BIN_OP_RHS_LOCAL_JF, a, n, b, d, to);
    stands_with_two_one_two_two_four(before, after, tag::BIN_OP_RHS_CONST_JF, a, n, b, d, to);
}

/// An access to an element names the chain it stands for, the variable, the
/// index, the value and the operator.
#[verifier::spinoff_prover]
#[verifier::rlimit(30)]
pub proof fn element_accesses_are_read(
    before: Seq<u8>,
    after: Seq<u8>,
    a: u16,
    b: u16,
    c: u16,
    d: u16,
    n: u8,
)
    ensures
        read_as(
            before,
            seq![tag::INDEX_SET] + two_bytes(a) + two_bytes(b),
            after,
            Op::IndexSet(
                IndexSet { chain: a, root: b, index: Source::Stack, value: None, kind: None },
            ),
        ),
        read_as(
            before,
            seq![tag::INDEX_SET_FROM_LOCAL] + two_bytes(a) + two_bytes(b) + two_bytes(c),
            after,
            Op::IndexSet(
                IndexSet { chain: a, root: b, index: Source::Local(c), value: None, kind: None },
            ),
        ),
        read_as(
            before,
            seq![tag::INDEX_SET_FROM_CONST] + two_bytes(a) + two_bytes(b) + two_bytes(c),
            after,
            Op::IndexSet(
                IndexSet {
                    chain: a,
                    root: b,
                    index: Source::Const(c as u32),
                    value: None,
                    kind: None,
                },
            ),
        ),
        read_as(
            before,
            seq![tag::INDEX_SET_FROM_LOCAL_VALUE_CONST] + two_bytes(a) + two_bytes(b)
                + two_bytes(c) + two_bytes(d),
            after,
            Op::IndexSet(
                IndexSet { chain: a, root: b, index: Source::Local(c), value: Some(d), kind: None },
            ),
        ),
        read_as(
            before,
            seq![tag::INDEX_SET_FROM_CONST_VALUE_CONST] + two_bytes(a) + two_bytes(b)
                + two_bytes(c) + two_bytes(d),
            after,
            Op::IndexSet(
                IndexSet {
                    chain: a,
                    root: b,
                    index: Source::Const(c as u32),
                    value: Some(d),
                    kind: None,
                },
            ),
        ),
        read_as(
            before,
            seq![tag::INDEX_SET_OP] + two_bytes(a) + two_bytes(b) + seq![n],
            after,
            Op::IndexSet(
                IndexSet { chain: a, root: b, index: Source::Stack, value: None, kind: Some(n) },
            ),
        ),
        read_as(
            before,
            seq![tag::INDEX_SET_OP_FROM_LOCAL] + two_bytes(a) + two_bytes(b) + two_bytes(c)
                + seq![n],
            after,
            Op::IndexSet(
                IndexSet { chain: a, root: b, index: Source::Local(c), value: None, kind: Some(n) },
            ),
        ),
        read_as(
            before,
            seq![tag::INDEX_SET_OP_FROM_CONST] + two_bytes(a) + two_bytes(b) + two_bytes(c)
                + seq![n],
            after,
            Op::IndexSet(
                IndexSet {
                    chain: a,
                    root: b,
                    index: Source::Const(c as u32),
                    value: None,
                    kind: Some(n),
                },
            ),
        ),
        read_as(
            before,
            seq![tag::INDEX_SET_OP_FROM_LOCAL_VALUE_CONST] + two_bytes(a) + two_bytes(b)
                + two_bytes(c) + two_bytes(d) + seq![n],
            after,
            Op::IndexSet(
                IndexSet {
                    chain: a,
                    root: b,
                    index: Source::Local(c),
                    value: Some(d),
                    kind: Some(n),
                },
            ),
        ),
        read_as(
            before,
            seq![tag::INDEX_SET_OP_FROM_CONST_VALUE_CONST] + two_bytes(a) + two_bytes(b)
                + two_bytes(c) + two_bytes(d) + seq![n],
            after,
            Op::IndexSet(
                IndexSet {
                    chain: a,
                    root: b,
                    index: Source::Const(c as u32),
                    value: Some(d),
                    kind: Some(n),
                },
            ),
        ),
        read_as(
            before,
            seq![tag::INDEX_GET] + two_bytes(a) + two_bytes(b),
            after,
            Op::IndexGet { chain: a, root: b, index: Source::Stack },
        ),
        read_as(
            before,
            seq![tag::INDEX_GET_FROM_LOCAL] + two_bytes(a) + two_bytes(b) + two_bytes(c),
            after,
            Op::IndexGet { chain: a, root: b, index: Source::Local(c) },
        ),
        read_as(
            before,
            seq![tag::INDEX_GET_FROM_CONST] + two_bytes(a) + two_bytes(b) + two_bytes(c),
            after,
            Op::IndexGet { chain: a, root: b, index: Source::Const(c as u32) },
        ),
{
    stands_with_two_two(before, after, tag::INDEX_SET, a, b);
    stands_with_two_two_two(before, after, tag::INDEX_SET_FROM_LOCAL, a, b, c);
    stands_with_two_two_two(before, after, tag::INDEX_SET_FROM_CONST, a, b, c);
    stands_with_two_two_two_two(before, after, tag::INDEX_SET_FROM_LOCAL_VALUE_CONST, a, b, c, d);
    stands_with_two_two_two_two(before, after, tag::INDEX_SET_FROM_CONST_VALUE_CONST, a, b, c, d);
    stands_with_two_two_one(before, after, tag::INDEX_SET_OP, a, b, n);
    stands_with_two_two_two_one(before, after, tag::INDEX_SET_OP_FROM_LOCAL, a, b, c, n);
    stands_with_two_two_two_one(before, after, tag::INDEX_SET_OP_FROM_CONST, a, b, c, n);
    stands_with_two_two_two_two_one(
        before,
        after,
        tag::INDEX_SET_OP_FROM_LOCAL_VALUE_CONST,
        a,
        b,
        c,
        d,
        n,
    );
    stands_with_two_two_two_two_one(
        before,
        after,
        tag::INDEX_SET_OP_FROM_CONST_VALUE_CONST,
        a,
        b,
        c,
        d,
        n,
    );
    stands_with_two_two(before, after, tag::INDEX_GET, a, b);
    stands_with_two_two_two(before, after, tag::INDEX_GET_FROM_LOCAL, a, b, c);
    stands_with_two_two_two(before, after, tag::INDEX_GET_FROM_CONST, a, b, c);
}

} // verus!
