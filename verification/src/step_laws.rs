//! What single steps come to: an item taken, an operation counted, a failure
//! described, an element reached the short way, a lookup remembered.
use vstd::prelude::*;

use crate::arith::{arithmetic, kind_of, BinOpKind};
use crate::assign::stored_through;
use crate::bytecode::{IndexSet, Source};
use crate::call::receiver_returned;
use crate::dict::{bound, find_key};
use crate::element::{advanced, chain_kept, did_index_get, did_index_set};
use crate::error::{Fail, FailureKind};
use crate::frame::{described, leaving, Runner};
use crate::host::{Ask, Reply};
use crate::machine::{counted, Items, Machine};
use crate::memo::OPERATOR_MEMO_SLOTS;
use crate::position::{nowhere, Position};
use crate::program::Program;
use crate::scope::{found, newest_at, Names};
use crate::site::{defines, operator_resolved, syntactic};
use crate::value::{code_of, copied, AccessMode, Data, Datum};

verus! {

// ---------------------------------------------------------------------------
// Items.

/// A loop that keeps its item in a variable puts the next integer there and
/// nothing on the stack, and moves on by one.
pub proof fn items_go_into_their_variable(
    p: Program,
    m: Machine,
    scope: Names,
    base: usize,
    indexed: bool,
    slot: u16,
    pos: Position,
    next: i64,
    end: i64,
)
    requires
        m.iterators.len() > 0,
        m.iterators.last().items == (Items::IntRange { next, end }),
        m.iterators.last().count < i64::MAX,
        next < end,
        base + slot < scope.len(),
        !(scope[base + slot].1.data is Shared),
    ensures
        ({
            let (r, after, left) = advanced(p, m, scope, base, indexed, Some(slot), pos);
            &&& r == Ok::<bool, Fail>(true)
            &&& after.stack == m.stack && after.heap == m.heap
            &&& left.len() == scope.len()
            &&& left[base + slot].0 == scope[base + slot].0
            &&& left[base + slot].1.data == Data::Int(next)
            &&& forall|j: int|
                0 <= j < scope.len() && j != base + slot ==> #[trigger] left[j] == scope[j]
            &&& after.iterators.len() == m.iterators.len()
            &&& after.iterators.drop_last() == m.iterators.drop_last()
            &&& after.iterators.last().items == (Items::IntRange { next: (next + 1) as i64, end })
            &&& after.iterators.last().count == m.iterators.last().count + 1
        }),
{
    reveal(advanced);
    reveal(stored_through);
    reveal(crate::assign::stored_value);
    let (_, after, _) = advanced(p, m, scope, base, indexed, Some(slot), pos);
    assert(after.iterators.drop_last() =~= m.iterators.drop_last());
}

/// A loop the host walks asks it for the next item by the loop's handle: an item
/// goes on the stack, behind its number where the loop counts; where there is
/// none the loop is over and gone.
pub proof fn hosted_items_are_the_hosts(
    p: Program,
    m: Machine,
    scope: Names,
    base: usize,
    indexed: bool,
    pos: Position,
    handle: u64,
    v: Datum,
)
    requires
        m.iterators.len() > 0,
        m.iterators.last().items == (Items::Hosted { handle }),
        m.iterators.last().count < i64::MAX,
        !(v.data is Shared),
    ensures
        ({
            let (r, after, left) = advanced(p, m, scope, base, indexed, None, pos);
            &&& left == scope
            &&& m.answers.len() > 0 ==> match m.answers.last().reply {
                Reply::Value(item) => item == v ==> {
                    &&& r == Ok::<bool, Fail>(true)
                    &&& !indexed ==> after.stack == m.stack.push(v)
                    &&& indexed ==> after.stack.len() == m.stack.len() + 2 && after.stack.last()
                        == v && after.stack[m.stack.len() as int].data == Data::Int(
                        (m.iterators.last().count + 1) as i64,
                    ) && after.stack.subrange(0, m.stack.len() as int) == m.stack
                    &&& after.iterators.len() == m.iterators.len()
                },
                Reply::Raised(err) => r == Err::<bool, Fail>(err.placed(pos)) && after.stack
                    == m.stack,
                _ => r == Ok::<bool, Fail>(false) && after.iterators == m.iterators.drop_last()
                    && after.stack == m.stack,
            }
            &&& m.answers.len() == 0 && m.request is None ==> (r matches Err(err)
                && err.kind is ErrorSuspended) && (after.request matches Some(q) && q.ask == (
            Ask::NextItem { handle })) && after.iterators == m.iterators
        }),
{
    reveal(advanced);
    let (_, after, _) = advanced(p, m, scope, base, indexed, None, pos);
    if m.answers.len() == 0 && m.request is None {
        assert(after.iterators =~= m.iterators);
    }
    if m.answers.len() > 0 && m.answers.last().reply == Reply::<Datum, Fail>::Value(v) && indexed {
        assert(after.stack.subrange(0, m.stack.len() as int) =~= m.stack);
    }
}

// ---------------------------------------------------------------------------
// Counting.

/// An operation is counted once; one more than the limit allows is refused, and
/// so is one the host ends the run at.
pub proof fn operations_are_counted_once(m: Machine, pos: Position)
    requires
        m.regs.operations < u64::MAX,
    ensures
        ({
            let (r, after) = counted(m, pos);
            let over = m.engine.max_operations > 0 && m.regs.operations + 1
                > m.engine.max_operations;
            &&& over ==> (r matches Err(err) && err.kind is ErrorTooManyOperations && err.pos
                == pos)
            &&& !over && !m.engine.watches_progress ==> r is Ok
            &&& over || !m.engine.watches_progress ==> after.regs.operations == m.regs.operations
                + 1 && after.stack == m.stack && after.heap == m.heap && after.answers == m.answers
            &&& !over && m.engine.watches_progress && m.answers.len() > 0 ==> match m.answers.last().reply {
                Reply::Value(token) => (r matches Err(err) && err.kind == FailureKind::<
                    Datum,
                    Seq<char>,
                >::ErrorTerminated(token) && err.pos == pos),
                _ => r is Ok,
            }
            &&& !over && m.engine.watches_progress && m.answers.len() == 0 && m.request is None
                ==> (after.request matches Some(q) && q.ask == (Ask::Progress {
                operations: (m.regs.operations + 1) as u64,
            }))
        }),
{
}

// ---------------------------------------------------------------------------
// Failures.

proof fn bindings_are_kept(pairs: Seq<(Seq<char>, Datum)>, key: Seq<char>, value: Datum)
    requires
        crate::dict::keys_once(pairs),
    ensures
        crate::dict::keys_once(bound(pairs, key, value)),
        bound(pairs, key, value).contains((key, value)),
        forall|i: int|
            0 <= i < pairs.len() && (#[trigger] pairs[i]).0 != key ==> bound(
                pairs,
                key,
                value,
            ).contains(pairs[i]),
{
    crate::dict::binding_keeps_keys_once(pairs, key, value);
    let after = bound(pairs, key, value);
    match find_key(pairs, key) {
        Some(j) => {
            assert(crate::dict::key_at(pairs, key, j));
            assert(after[j] == (key, value));
        },
        None => {
            assert(after[pairs.len() as int] == (key, value));
        },
    }
    assert forall|i: int| 0 <= i < pairs.len() && (#[trigger] pairs[i]).0 != key implies bound(
        pairs,
        key,
        value,
    ).contains(pairs[i]) by {
        assert(after[i] == pairs[i]);
    }
}

/// A failure that was not thrown is described to its handler by a message, by the
/// source it was in where that is known, and by its line and its place in it
/// where those are.
pub proof fn failures_are_described(source: Option<Seq<char>>, pos: Position, said: Datum)
    requires
        !(said.data is Array),
    ensures
        described(source, pos, said).data is Dict,
        ({
            let pairs = described(source, pos, said).data->Dict_0;
            &&& pairs.contains(("message"@, said))
            &&& source matches Some(s) ==> exists|i: int|
                0 <= i < pairs.len() && (#[trigger] pairs[i]).0 == "source"@ && pairs[i].1.data
                    == Data::Str(s)
            &&& pos != nowhere() ==> exists|i: int|
                0 <= i < pairs.len() && (#[trigger] pairs[i]).0 == "line"@ && pairs[i].1.data
                    == Data::Int(pos.line as i64)
            &&& pos != nowhere() ==> exists|i: int|
                0 <= i < pairs.len() && (#[trigger] pairs[i]).0 == "position"@ && pairs[i].1.data
                    == Data::Int(pos.column as i64)
        }),
{
    reveal_strlit("message");
    reveal_strlit("source");
    reveal_strlit("line");
    reveal_strlit("position");
    assert("message"@[0] != "source"@[0]);
    assert("message"@[0] != "line"@[0]);
    assert("message"@[0] != "position"@[0]);
    assert("source"@[0] != "line"@[0]);
    assert("source"@[0] != "position"@[0]);
    assert("line"@[0] != "position"@[0]);
    let none = Seq::<(Seq<char>, Datum)>::empty();
    let first = bound(none, "message"@, said);
    bindings_are_kept(none, "message"@, said);
    let named = match source {
        Some(s) => bound(first, "source"@, crate::value::datum(Data::Str(s))),
        None => first,
    };
    if let Some(s) = source {
        let v = crate::value::datum(Data::Str(s));
        bindings_are_kept(first, "source"@, v);
        let i = choose|i: int| 0 <= i < first.len() && first[i] == ("message"@, said);
        assert(first[i].0 == "message"@);
        assert(named.contains(first[i]));
    }
    assert(named.contains(("message"@, said)));
    if pos != nowhere() {
        let line = crate::value::datum(Data::Int(pos.line as i64));
        let column = crate::value::datum(Data::Int(pos.column as i64));
        let lined = bound(named, "line"@, line);
        bindings_are_kept(named, "line"@, line);
        let i = choose|i: int| 0 <= i < named.len() && named[i] == ("message"@, said);
        assert(named[i].0 == "message"@);
        assert(lined.contains(named[i]));
        let whole = bound(lined, "position"@, column);
        bindings_are_kept(lined, "position"@, column);
        assert(described(source, pos, said).data == Data::Dict(whole));
        let j = choose|j: int| 0 <= j < lined.len() && lined[j] == ("message"@, said);
        assert(lined[j].0 == "message"@);
        assert(whole.contains(lined[j]));
        let k = choose|k: int| 0 <= k < lined.len() && lined[k] == ("line"@, line);
        assert(lined[k].0 == "line"@);
        assert(whole.contains(lined[k]));
        let at = choose|at: int| 0 <= at < whole.len() && whole[at] == ("line"@, line);
        assert(whole[at].0 == "line"@);
        let there = choose|there: int|
            0 <= there < whole.len() && whole[there] == ("position"@, column);
        assert(whole[there].0 == "position"@);
        if let Some(s) = source {
            let v = crate::value::datum(Data::Str(s));
            let a = choose|a: int| 0 <= a < named.len() && named[a] == ("source"@, v);
            assert(named[a].0 == "source"@);
            assert(lined.contains(named[a]));
            let b = choose|b: int| 0 <= b < lined.len() && lined[b] == ("source"@, v);
            assert(lined[b].0 == "source"@);
            assert(whole.contains(lined[b]));
            let c = choose|c: int| 0 <= c < whole.len() && whole[c] == ("source"@, v);
            assert(whole[c].0 == "source"@);
        }
    } else {
        assert(described(source, pos, said).data == Data::Dict(named));
        if let Some(s) = source {
            let v = crate::value::datum(Data::Str(s));
            let c = choose|c: int| 0 <= c < named.len() && named[c] == ("source"@, v);
            assert(named[c].0 == "source"@);
        }
    }
}

/// A bare throw in a handler raises again what the handler caught, where the
/// throw is; any other failure in a handler is itself. Either way the handler is
/// left, and one that caught nothing yet stays.
pub proof fn bare_throws_raise_again(
    m: Machine,
    err: Fail,
    handler_base: int,
    original: Fail,
)
    requires
        0 <= handler_base < m.handlers.len(),
    ensures
        ({
            let left = Machine { handlers: m.handlers.drop_last(), ..m };
            let bare = err.kind matches FailureKind::ErrorRuntime(v) && v.data is Unit;
            &&& m.handlers.last().caught is None ==> leaving(m, err, handler_base) == (err, m)
            &&& m.handlers.last().caught == Some(original) && bare ==> leaving(m, err, handler_base)
                == leaving(left, Fail { kind: original.kind, pos: err.pos }, handler_base)
            &&& m.handlers.last().caught == Some(original) && !bare ==> leaving(
                m,
                err,
                handler_base,
            ) == leaving(left, err, handler_base)
        }),
        m.handlers.len() == handler_base ==> leaving(m, err, handler_base) == (err, m),
{
}

// ---------------------------------------------------------------------------
// Elements the short way.

/// The short read of an element gives the element of that index, in place of the
/// index where that was an operand.
pub proof fn short_reads_give_the_element(
    k: Runner,
    p: Program,
    m: Machine,
    scope: Names,
    base: usize,
    chain: u16,
    root: u16,
    pos: Position,
    row: Seq<Datum>,
    slot: u16,
    n: i64,
)
    requires
        base + root < scope.len(),
        scope[base + root].1.data == Data::Array(row),
        0 <= n < row.len(),
        !(row[n as int].data is Shared),
    ensures
        m.stack.len() > 0 && m.stack.last().data == Data::Int(n) ==> ({
            let (r, after, left) = did_index_get(
                k,
                p,
                m,
                scope,
                base,
                chain,
                root,
                Source::Stack,
                pos,
            );
            r is Ok && left == scope && after.stack == m.stack.drop_last().push(
                copied(row[n as int]),
            )
        }),
        base + slot < scope.len() && scope[base + slot].1.data == Data::Int(n) ==> ({
            let (r, after, left) = did_index_get(
                k,
                p,
                m,
                scope,
                base,
                chain,
                root,
                Source::Local(slot),
                pos,
            );
            r is Ok && left == scope && after.stack == m.stack.push(copied(row[n as int]))
        }),
{
    reveal(did_index_get);
}

/// The short write of an element puts the value, or what the operator computes of
/// the element and the value, in that place of the variable's array, and leaves
/// everything else alone.
pub proof fn short_writes_reach_the_element(
    k: Runner,
    p: Program,
    m: Machine,
    scope: Names,
    base: usize,
    chain: u16,
    root: u16,
    pos: Position,
    row: Seq<Datum>,
    n: i64,
    byte: u8,
    kind: BinOpKind,
    x: i64,
    y: i64,
    sum: i64,
)
    requires
        base + root < scope.len(),
        scope[base + root].1.data == Data::Array(row),
        scope[base + root].1.mode == AccessMode::ReadWrite,
        0 <= n < row.len(),
        !(row[n as int].data is Shared),
        m.stack.len() >= 2,
        m.stack[m.stack.len() - 2].data == Data::Int(n),
    ensures
        ({
            let o = IndexSet { chain, root, index: Source::Stack, value: None, kind: None };
            let (r, after, left) = did_index_set(k, p, m, scope, base, o, pos);
            &&& r is Ok
            &&& after.stack == m.stack.subrange(0, m.stack.len() - 2) && after.heap == m.heap
            &&& left.len() == scope.len()
            &&& left[base + root].0 == scope[base + root].0
            &&& left[base + root].1.data == Data::Array(row.update(n as int, m.stack.last()))
            &&& forall|j: int|
                0 <= j < scope.len() && j != base + root ==> #[trigger] left[j] == scope[j]
        }),
        kind_of(byte) == Some(kind) && m.engine.fast_operators && row[n as int].data == Data::Int(x)
            && m.stack.last().data == Data::Int(y) && arithmetic(kind, x, y) == Some(
            Ok::<i64, Fail>(sum),
        ) ==> ({
            let o = IndexSet { chain, root, index: Source::Stack, value: None, kind: Some(byte) };
            let (r, after, left) = did_index_set(k, p, m, scope, base, o, pos);
            &&& r is Ok
            &&& after.stack == m.stack.subrange(0, m.stack.len() - 2)
            &&& left[base + root].1.data matches Data::Array(now) && now.len() == row.len()
                && now[n as int].data == Data::Int(sum) && (forall|j: int|
                0 <= j < row.len() && j != n ==> #[trigger] now[j] == row[j])
            &&& forall|j: int|
                0 <= j < scope.len() && j != base + root ==> #[trigger] left[j] == scope[j]
        }),
{
    reveal(did_index_set);
    assert(m.stack.drop_last().drop_last() =~= m.stack.subrange(0, m.stack.len() - 2));
}

// ---------------------------------------------------------------------------
// Lookups.

/// What an operator was found to be is asked for once: the same instruction on
/// operands of the same kinds in the same frame has the same answer without
/// asking.
pub proof fn operators_are_looked_up_once(
    m: Machine,
    at: usize,
    token: Seq<char>,
    lhs: Datum,
    rhs: Datum,
    again_lhs: Datum,
    again_rhs: Datum,
    pos: Position,
)
    requires
        at <= u32::MAX,
        m.regs.generation != 0,
        m.operator_memo.len() == OPERATOR_MEMO_SLOTS,
        code_of(lhs.data) != 0,
        code_of(rhs.data) != 0,
        code_of(again_lhs.data) == code_of(lhs.data),
        code_of(again_rhs.data) == code_of(rhs.data),
    ensures
        ({
            let (first, m1) = operator_resolved(m, at, token, lhs, rhs, pos);
            first is Ok ==> operator_resolved(m1, at, token, again_lhs, again_rhs, pos) == (
                first,
                m1,
            )
        }),
{
    reveal(operator_resolved);
}

/// Whether a variable is defined is whether one of that name is in scope.
pub proof fn definedness_is_of_the_scope(
    p: Program,
    m: Machine,
    scope: Names,
    first: int,
    pos: Position,
    name: Seq<char>,
)
    requires
        0 <= first < m.stack.len(),
        m.stack[first].data == Data::Str(name),
    ensures
        ({
            let (r, after) = syntactic(p, m, scope, "is_def_var"@, 1, first, pos);
            let there = exists|i: int| 0 <= i < scope.len() && (#[trigger] scope[i]).0 == name;
            &&& r matches Ok(Some(v)) && v.data == Data::Bool(there)
            &&& after == m
        }),
{
    reveal(syntactic);
    let there = exists|i: int| 0 <= i < scope.len() && (#[trigger] scope[i]).0 == name;
    if there {
        let i = choose|i: int| 0 <= i < scope.len() && (#[trigger] scope[i]).0 == name;
        newest_from(scope, name, i);
    } else {
        assert forall|i: int| !newest_at(scope, name, i) by {}
    }
}

proof fn newest_from(scope: Names, name: Seq<char>, i: int)
    requires
        0 <= i < scope.len(),
        scope[i].0 == name,
    ensures
        found(scope, name) is Some,
    decreases scope.len() - i,
{
    if forall|j: int| i < j < scope.len() ==> (#[trigger] scope[j]).0 != name {
        assert(newest_at(scope, name, i));
    } else {
        let j = choose|j: int| i < j < scope.len() && (#[trigger] scope[j]).0 == name;
        newest_from(scope, name, j);
    }
}

proof fn definitions_are_found_from(
    p: Program,
    this_type: Option<Seq<char>>,
    name: Seq<char>,
    arity: int,
    from: int,
)
    requires
        0 <= from <= p.functions@.len(),
        forall|i: int|
            0 <= i < p.functions@.len() ==> p.name_of((#[trigger] p.functions@[i]).name as int)
                is Some,
        forall|i: int|
            0 <= i < p.functions@.len() ==> ((#[trigger] p.functions@[i]).this_type matches Some(t)
                ==> p.name_of(t as int) is Some),
    ensures
        defines(p, this_type, name, arity, from) == Ok::<bool, Fail>(
            exists|i: int|
                from <= i < p.functions@.len() && is_called(p, this_type, name, arity, i),
        ),
    decreases p.functions@.len() - from,
{
    if from < p.functions@.len() {
        definitions_are_found_from(p, this_type, name, arity, from + 1);
        let f = p.functions@[from];
        assert(p.name_of(f.name as int) is Some);
        let whole = exists|i: int|
            from <= i < p.functions@.len() && is_called(p, this_type, name, arity, i);
        let later = exists|i: int|
            from + 1 <= i < p.functions@.len() && is_called(p, this_type, name, arity, i);
        if is_called(p, this_type, name, arity, from) {
            assert(whole);
            assert(defines(p, this_type, name, arity, from) == Ok::<bool, Fail>(true));
        } else {
            if whole {
                let i = choose|i: int|
                    from <= i < p.functions@.len() && is_called(p, this_type, name, arity, i);
                assert(is_called(p, this_type, name, arity, i) && from + 1 <= i);
            }
            if later {
                let i = choose|i: int|
                    from + 1 <= i < p.functions@.len() && is_called(p, this_type, name, arity, i);
                assert(is_called(p, this_type, name, arity, i));
            }
            assert(whole == later);
            assert(defines(p, this_type, name, arity, from) == defines(
                p,
                this_type,
                name,
                arity,
                from + 1,
            ));
        }
    }
}

/// Whether a function goes by a name, takes so many arguments, and belongs to the
/// type of that name or to none.
pub open spec fn is_called(
    p: Program,
    this_type: Option<Seq<char>>,
    name: Seq<char>,
    arity: int,
    i: int,
) -> bool {
    let f = p.functions@[i];
    &&& p.name_of(f.name as int) == Some(name)
    &&& f.param_names@.len() == arity
    &&& match this_type {
        None => f.this_type is None,
        Some(wanted) => f.this_type matches Some(t) && p.name_of(t as int) == Some(wanted),
    }
}

/// Whether a function is defined is whether the program has one of that name and
/// as many parameters, of the type that is named first where one is; what the
/// program does not have the host is asked for.
pub proof fn definedness_is_of_the_program(
    p: Program,
    m: Machine,
    scope: Names,
    first: int,
    pos: Position,
    typed: Seq<char>,
    name: Seq<char>,
    arity: i64,
)
    requires
        0 <= first,
        first + 3 == m.stack.len(),
        m.stack[first].data == Data::Str(typed),
        m.stack[first + 1].data == Data::Str(name),
        m.stack[first + 2].data == Data::Int(arity),
        forall|i: int|
            0 <= i < p.functions@.len() ==> p.name_of((#[trigger] p.functions@[i]).name as int)
                is Some,
        forall|i: int|
            0 <= i < p.functions@.len() ==> ((#[trigger] p.functions@[i]).this_type matches Some(t)
                ==> p.name_of(t as int) is Some),
        m.answers.len() == 0,
    ensures
        ({
            let there = exists|i: int|
                0 <= i < p.functions@.len() && is_called(p, None, name, arity as int, i);
            let (r, after) = syntactic(p, m, scope, "is_def_fn"@, 2, first + 1, pos);
            &&& there ==> (r matches Ok(Some(v)) && v.data == Data::Bool(true)) && after == m
            &&& !there ==> (r matches Err(err) && err.kind is ErrorSuspended)
        }),
        ({
            let there = exists|i: int|
                0 <= i < p.functions@.len() && is_called(p, Some(typed), name, arity as int, i);
            let (r, after) = syntactic(p, m, scope, "is_def_fn"@, 3, first, pos);
            &&& there ==> (r matches Ok(Some(v)) && v.data == Data::Bool(true)) && after == m
            &&& !there ==> (r matches Err(err) && err.kind is ErrorSuspended)
        }),
        syntactic(p, m, scope, "is_def_fn"@, 1, first, pos).0 is Err,
{
    reveal(syntactic);
    reveal_strlit("is_def_fn");
    reveal_strlit("is_def_var");
    assert("is_def_fn"@.len() != "is_def_var"@.len());
    definitions_are_found_from(p, None, name, arity as int, 0);
    definitions_are_found_from(p, Some(typed), name, arity as int, 0);
}

/// Where there is no short write the chain does it, with the index and then the
/// value on top of the stack.
pub proof fn other_writes_are_the_chains(
    k: Runner,
    p: Program,
    m: Machine,
    scope: Names,
    base: usize,
    o: IndexSet,
    slot: u16,
    pos: Position,
)
    requires
        m.stack.len() > 0,
        o.value is None,
        base + o.root < scope.len(),
        !(scope[base + o.root].1.data is Array),
        base + slot < scope.len(),
        !(scope[base + slot].1.data is Shared),
    ensures
        ({
            let (r, after, left) = did_index_set(k, p, m, scope, base, o, pos);
            let stacked = Machine {
                stack: m.stack.drop_last().push(copied(scope[base + slot].1)).push(m.stack.last()),
                ..m
            };
            &&& o.index is Stack ==> (r, after, left) == chain_kept(
                k,
                p,
                m,
                scope,
                base,
                o.chain,
                false,
                pos,
            )
            &&& o.index == Source::Local(slot) ==> exists|ready: Machine|
                #![trigger chain_kept(k, p, ready, scope, base, o.chain, false, pos)]
                ready.stack == stacked.stack && ready.heap == m.heap && ready.this == m.this
                    && ready.answers == m.answers && (r, after, left) == chain_kept(
                    k,
                    p,
                    ready,
                    scope,
                    base,
                    o.chain,
                    false,
                    pos,
                )
        }),
{
    reveal(did_index_set);
}

// ---------------------------------------------------------------------------
// Receivers.

/// What a method leaves of its value goes back to where the value came from: the
/// variable of that slot, the newest one of that name if it may be written, or
/// the receiver.
pub proof fn receivers_go_back_where_they_came_from(
    p: Program,
    m: Machine,
    scope: Names,
    base: usize,
    slot: u16,
    value: Datum,
)
    requires
        !(value.data is Shared),
        value.mode == AccessMode::ReadWrite,
    ensures
        receiver_returned(p, m, scope, base, None, value) == (Ok::<(), Fail>(()), m, scope),
        ({
            let (r, after, left) = receiver_returned(
                p,
                m,
                scope,
                base,
                Some(crate::bytecode::Receiver::Local(slot)),
                value,
            );
            base + slot < scope.len() ==> r is Ok && after == m && left.len() == scope.len()
                && left[base + slot] == (scope[base + slot].0, value) && (forall|j: int|
                0 <= j < scope.len() && j != base + slot ==> #[trigger] left[j] == scope[j])
        }),
        ({
            let (r, after, left) = receiver_returned(
                p,
                m,
                scope,
                base,
                Some(crate::bytecode::Receiver::This),
                value,
            );
            r is Ok && left == scope && (m.this is Some ==> after.this == Some(value)) && (
            m.this is None ==> after == m)
        }),
{
}

} // verus!
