//! Plain text helpers: decimal numbers, concatenation and name tests.
use vstd::prelude::*;

verus! {

/// The character of one decimal digit.
pub open spec fn digit_char(d: nat) -> char {
    if d == 0 {
        '0'
    } else if d == 1 {
        '1'
    } else if d == 2 {
        '2'
    } else if d == 3 {
        '3'
    } else if d == 4 {
        '4'
    } else if d == 5 {
        '5'
    } else if d == 6 {
        '6'
    } else if d == 7 {
        '7'
    } else if d == 8 {
        '8'
    } else {
        '9'
    }
}

/// A natural number in decimal, most significant digit first.
pub open spec fn decimal_nat(n: nat) -> Seq<char>
    decreases n,
{
    if n < 10 {
        seq![digit_char(n)]
    } else {
        decimal_nat(n / 10).push(digit_char(n % 10))
    }
}

/// An integer in decimal, with a leading minus sign where it is negative.
pub open spec fn decimal(n: int) -> Seq<char> {
    if n < 0 {
        seq!['-'] + decimal_nat((-n) as nat)
    } else {
        decimal_nat(n as nat)
    }
}

fn append_digit(text: &mut String, d: u64)
    requires
        d < 10,
    ensures
        final(text)@ == old(text)@.push(digit_char(d as nat)),
{
    proof {
        reveal_strlit("0");
        reveal_strlit("1");
        reveal_strlit("2");
        reveal_strlit("3");
        reveal_strlit("4");
        reveal_strlit("5");
        reveal_strlit("6");
        reveal_strlit("7");
        reveal_strlit("8");
        reveal_strlit("9");
    }
    let digit = if d == 0 {
        "0"
    } else if d == 1 {
        "1"
    } else if d == 2 {
        "2"
    } else if d == 3 {
        "3"
    } else if d == 4 {
        "4"
    } else if d == 5 {
        "5"
    } else if d == 6 {
        "6"
    } else if d == 7 {
        "7"
    } else if d == 8 {
        "8"
    } else {
        "9"
    };
    assert(digit@ =~= seq![digit_char(d as nat)]);
    text.append(digit);
    assert(text@ =~= old(text)@.push(digit_char(d as nat)));
}

/// Append a number in decimal.
pub fn append_u64(text: &mut String, n: u64)
    ensures
        final(text)@ == old(text)@ + decimal_nat(n as nat),
    decreases n,
{
    if n >= 10 {
        append_u64(text, n / 10);
    }
    append_digit(text, n % 10);
    assert(text@ =~= old(text)@ + decimal_nat(n as nat));
}

/// Append a signed number in decimal.
pub fn append_i64(text: &mut String, n: i64)
    ensures
        final(text)@ == old(text)@ + decimal(n as int),
{
    if n < 0 {
        proof {
            reveal_strlit("-");
        }
        text.append("-");
        assert("-"@ =~= seq!['-']);
        let magnitude: u64 = if n == i64::MIN {
            0x8000_0000_0000_0000
        } else {
            (-n) as u64
        };
        append_u64(text, magnitude);
        assert(text@ =~= old(text)@ + decimal(n as int));
    } else {
        append_u64(text, n as u64);
    }
}

/// `before`, then `n` in decimal, then `after`.
pub fn numbered(before: &str, n: u64, after: &str) -> (text: String)
    ensures
        text@ == before@ + decimal_nat(n as nat) + after@,
{
    let mut text = before.to_owned();
    append_u64(&mut text, n);
    text.append(after);
    text
}

/// `before`, then `middle`, then `after`.
pub fn joined(before: &str, middle: &str, after: &str) -> (text: String)
    ensures
        text@ == before@ + middle@ + after@,
{
    let mut text = before.to_owned();
    text.append(middle);
    text.append(after);
    text
}

/// Whether two strings hold the same characters.
pub fn same_text(a: &str, b: &str) -> (same: bool)
    ensures
        same == (a@ == b@),
{
    a.to_owned().eq(&b.to_owned())
}

/// `text` starts with `prefix`.
pub open spec fn starts_with(text: Seq<char>, prefix: Seq<char>) -> bool {
    prefix.len() <= text.len() && text.subrange(0, prefix.len() as int) == prefix
}

/// Whether `text` starts with `prefix`.
pub fn has_prefix(text: &str, prefix: &str) -> (starts: bool)
    ensures
        starts == starts_with(text@, prefix@),
{
    let whole: usize = text.unicode_len();
    let part: usize = prefix.unicode_len();
    if part > whole {
        return false;
    }
    let mut i: usize = 0;
    while i < part
        invariant
            i <= part <= whole,
            whole == text@.len(),
            part == prefix@.len(),
            forall|j: int| 0 <= j < i ==> text@[j] == prefix@[j],
        decreases part - i,
    {
        if text.get_char(i) != prefix.get_char(i) {
            assert(text@.subrange(0, part as int)[i as int] != prefix@[i as int]);
            return false;
        }
        i = i + 1;
    }
    assert(text@.subrange(0, part as int) =~= prefix@);
    true
}

pub open spec fn is_letter(c: char) -> bool {
    ('a' <= c && c <= 'z') || ('A' <= c && c <= 'Z')
}

pub open spec fn is_digit(c: char) -> bool {
    '0' <= c && c <= '9'
}

fn letter(c: char) -> (r: bool)
    ensures
        r == is_letter(c),
{
    ('a' <= c && c <= 'z') || ('A' <= c && c <= 'Z')
}

fn digit(c: char) -> (r: bool)
    ensures
        r == is_digit(c),
{
    '0' <= c && c <= '9'
}

/// A name a script could have written: underscores, letters and digits, with
/// a letter before the first digit.
pub open spec fn identifier(name: Seq<char>) -> bool {
    &&& forall|i: int|
        0 <= i < name.len() ==> (#[trigger] name[i] == '_' || is_letter(name[i]) || is_digit(
            name[i],
        ))
    &&& exists|i: int|
        0 <= i < name.len() && is_letter(#[trigger] name[i]) && forall|j: int|
            0 <= j < i ==> #[trigger] name[j] == '_'
}

/// Whether a name is one a script could have written.
pub fn is_valid_identifier(name: &str) -> (valid: bool)
    ensures
        valid == identifier(name@),
{
    let len: usize = name.unicode_len();
    let mut lettered = false;
    let mut i: usize = 0;
    while i < len
        invariant
            i <= len == name@.len(),
            forall|j: int|
                0 <= j < i ==> (#[trigger] name@[j] == '_' || is_letter(name@[j]) || is_digit(
                    name@[j],
                )),
            lettered ==> exists|k: int|
                0 <= k < i && is_letter(#[trigger] name@[k]) && forall|j: int|
                    0 <= j < k ==> #[trigger] name@[j] == '_',
            !lettered ==> forall|j: int| 0 <= j < i ==> #[trigger] name@[j] == '_',
        decreases len - i,
    {
        let c = name.get_char(i);
        if letter(c) {
            if !lettered {
                assert(is_letter(name@[i as int]));
            }
            lettered = true;
        } else if digit(c) {
            if !lettered {
                assert(name@[i as int] != '_' && !is_letter(name@[i as int]));
                return false;
            }
        } else if c != '_' {
            assert(!(name@[i as int] == '_'));
            return false;
        }
        i = i + 1;
    }
    lettered
}

/// A name the compiler gives a closure.
pub open spec fn anonymous(name: Seq<char>) -> bool {
    starts_with(name, "anon$"@)
}

/// A name a script function can carry, as against one only a native can.
pub open spec fn callable_name(name: Seq<char>) -> bool {
    identifier(name) || anonymous(name)
}

/// Whether a script function of this name would be looked for.
pub fn is_identifier(name: &str) -> (r: bool)
    ensures
        r == callable_name(name@),
{
    is_valid_identifier(name) || has_prefix(name, "anon$")
}

/// The position of a name in a list, if it is there.
pub open spec fn listed(list: Seq<String>, name: Seq<char>) -> bool {
    exists|i: int| 0 <= i < list.len() && #[trigger] list[i]@ == name
}

/// Whether a list of names holds this one.
pub fn is_listed(list: &Vec<String>, name: &str) -> (r: bool)
    ensures
        r == listed(list@, name@),
{
    let mut i: usize = 0;
    while i < list.len()
        invariant
            i <= list.len(),
            forall|j: int| 0 <= j < i ==> #[trigger] list@[j]@ != name@,
        decreases list.len() - i,
    {
        if same_text(list[i].as_str(), name) {
            assert(list@[i as int]@ == name@);
            return true;
        }
        i = i + 1;
    }
    false
}

} // verus!
