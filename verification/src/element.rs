//! The short ways to an element of a local, and the turns of a loop.
use vstd::prelude::*;

use crate::arith::{assign_applied, kind_of, Applied, BinOpKind};
use crate::assign::{no_operands, stored_through};
use crate::bytecode::{IndexSet, Source};
use crate::call::levels_left;
use crate::chain::chain_ran;
use crate::error::{
    dispatch_failure, fail, malformed, malformed_fail, malformed_number, raised, result_view,
    unnumbered, Error, Fail, FailureKind, VmResult,
};
use crate::frame::{below, Runner};
use crate::heap::flattened;
use crate::host::{Ask, Reply};
use crate::machine::{asked, question, Items, Iteration, Machine, Vm};
use crate::operate::{named_operand, stepped_as, transferred, Flow, Stepped};
use crate::ops::{constant, local_at, local_index, pool_constant, Did};
use crate::position::Position;
use crate::program::{Chain, Program};
use crate::scope::{stored, taken_and_put_back, Names, Scope};
use crate::text::{append_i64, decimal};
use crate::value::{
    all_views, clone_value, copied, datum, unit, AccessMode, Data, Datum, Dynamic, Union,
};

verus! {

/// The chain an instruction gives by number.
pub open spec fn chain_at(p: Program, i: u16) -> Result<Chain, Fail> {
    if i < p.chains@.len() {
        Ok(p.chains@[i as int])
    } else {
        Err(unnumbered("no chain "@, i as nat, ""@))
    }
}

/// The chain an instruction gives by number.
pub(crate) fn pool_chain(p: &Program, i: u16) -> (out: Result<&Chain, Error>)
    ensures
        match out {
            Ok(chain) => chain_at(*p, i) == Ok::<Chain, Fail>(*chain),
            Err(err) => chain_at(*p, i) == Err::<Chain, Fail>(err@),
        },
{
    if (i as usize) < p.chains.len() {
        Ok(&p.chains[i as usize])
    } else {
        Err(malformed_number("no chain ", i as u64, ""))
    }
}

/// An integer index, wherever the instruction finds it: in a local, among the
/// constants, or at `under` on the stack.
pub open spec fn int_index(
    p: Program,
    m: Machine,
    scope: Names,
    base: usize,
    index: Source,
    under: int,
) -> Option<i64> {
    match index {
        Source::Local(slot) => match local_at(scope, base, slot) {
            Ok(i) => int_of(scope[i].1.data),
            Err(_) => None,
        },
        Source::Const(i) => match constant(p, i) {
            Ok(v) => int_of(v.data),
            Err(_) => None,
        },
        Source::Stack => if 0 <= under < m.stack.len() {
            int_of(m.stack[under].data)
        } else {
            None
        },
    }
}

pub open spec fn int_of(d: Data) -> Option<i64> {
    match d {
        Data::Int(n) => Some(n),
        _ => None,
    }
}

/// The element of a local array an index names directly.
pub open spec fn direct_element(
    scope: Names,
    base: usize,
    root: u16,
    index: Option<i64>,
) -> Option<(int, int)> {
    match (local_at(scope, base, root), index) {
        (Ok(at), Some(n)) => match scope[at].1.data {
            Data::Array(row) => if 0 <= n < row.len() {
                Some((at, n as int))
            } else {
                None
            },
            _ => None,
        },
        _ => None,
    }
}

/// The array a scope's variable holds.
pub open spec fn row_at(scope: Names, at: int) -> Seq<Datum> {
    scope[at].1.data->Array_0
}

/// A chain run, with its value kept.
pub open spec fn chain_kept(
    k: Runner,
    p: Program,
    m: Machine,
    scope: Names,
    base: usize,
    chain: u16,
    keep: bool,
    pos: Position,
) -> Did {
    match chain_at(p, chain) {
        Err(err) => (Err(err), m, scope),
        Ok(c) => match chain_ran(k, p, m, chain, c, scope, base, pos) {
            (Err(err), m1, left) => (Err(err), m1, left),
            (Ok(v), m1, left) => (
                Ok(()),
                if keep {
                    m1.push(v)
                } else {
                    m1
                },
                left,
            ),
        },
    }
}

/// An element of a local read: directly where the local is an array and the
/// index is inside it, and by the chain that says the same otherwise.
#[verifier::opaque]
pub open spec fn did_index_get(
    k: Runner,
    p: Program,
    m: Machine,
    scope: Names,
    base: usize,
    chain: u16,
    root: u16,
    index: Source,
    pos: Position,
) -> Did {
    let n = int_index(p, m, scope, base, index, m.stack.len() - 1);
    match direct_element(scope, base, root, n) {
        Some((at, i)) if !(row_at(scope, at)[i].data is Shared) => (
            Ok(()),
            if index is Stack {
                m.with_stack(m.stack.drop_last()).push(copied(row_at(scope, at)[i]))
            } else {
                m.push(copied(row_at(scope, at)[i]))
            },
            scope,
        ),
        _ => match named_operand(p, m, scope, base, index) {
            Err(err) => (Err(err), m, scope),
            Ok(v) => chain_kept(
                k,
                p,
                if index is Stack {
                    m
                } else {
                    m.push(v)
                },
                scope,
                base,
                chain,
                true,
                pos,
            ),
        },
    }
}

/// The machine without its top operand, where it has one.
pub open spec fn dropped(m: Machine) -> Machine {
    if m.stack.len() > 0 {
        m.with_stack(m.stack.drop_last())
    } else {
        m
    }
}

/// The top operand, or unit where there is none.
pub open spec fn top(m: Machine) -> Datum {
    if m.stack.len() > 0 {
        m.stack.last()
    } else {
        unit()
    }
}

/// The value an assignment to an element assigns: a constant the instruction
/// names, or the top operand.
pub open spec fn assigned_value(p: Program, m: Machine, value: Option<u16>) -> Result<Datum, Fail> {
    match value {
        Some(i) => match constant(p, i as u32) {
            Ok(v) => Ok(copied(v)),
            Err(err) => Err(err),
        },
        None => Ok(top(m)),
    }
}

/// An element's new value, where it can be had without a walk: one in a cell
/// is the walk's to write.
pub open spec fn direct_value(m: Machine, kind: Option<u8>, element: Datum, value: Datum) -> Option<
    Datum,
> {
    match kind {
        None => if element.data is Shared {
            None
        } else {
            Some(value)
        },
        Some(byte) => match kind_of(byte) {
            Some(kind) => if m.engine.fast_operators {
                match assign_applied(kind, element.data, value.data) {
                    Ok(Applied::Done(n)) => Some(
                        Datum { data: Data::Int(n), tag: element.tag, mode: element.mode },
                    ),
                    _ => None,
                }
            } else {
                None
            },
            None => None,
        },
    }
}

/// An element of a local assigned to: directly where the local is an array that
/// may be written and the index is inside it, and by the chain that says the
/// same otherwise.
#[verifier::opaque]
pub open spec fn did_index_set(
    k: Runner,
    p: Program,
    m: Machine,
    scope: Names,
    base: usize,
    o: IndexSet,
    pos: Position,
) -> Did {
    let under = m.stack.len() - (if o.value is Some {
        1int
    } else {
        2
    });
    let n = int_index(p, m, scope, base, o.index, under);
    match assigned_value(p, m, o.value) {
        Err(err) => (Err(err), m, scope),
        Ok(value) => {
            let m1 = if o.value is Some {
                m
            } else {
                dropped(m)
            };
            match direct_element(scope, base, o.root, n) {
                Some((at, i)) if scope[at].1.mode == AccessMode::ReadWrite && direct_value(
                    m,
                    o.kind,
                    row_at(scope, at)[i],
                    value,
                ) is Some => {
                    let after = direct_value(m, o.kind, row_at(scope, at)[i], value)->0;
                    (
                        Ok(()),
                        if o.index is Stack {
                            dropped(m1)
                        } else {
                            m1
                        },
                        stored(
                            scope,
                            at,
                            Datum {
                                data: Data::Array(row_at(scope, at).update(i, after)),
                                ..scope[at].1
                            },
                        ),
                    )
                },
                _ => match named_operand(p, m1, scope, base, o.index) {
                    Err(err) => (Err(err), m1, scope),
                    Ok(index) => chain_kept(
                        k,
                        p,
                        if o.index is Stack && o.value is None {
                            m
                        } else if o.index is Stack {
                            m1.push(value)
                        } else {
                            m1.push(index).push(value)
                        },
                        scope,
                        base,
                        o.chain,
                        false,
                        pos,
                    ),
                },
            }
        },
    }
}

// ---------------------------------------------------------------------------
// Loops.

/// The next item of an iteration: an item or its failure, or nothing at the
/// end, and the iteration after.
pub open spec fn item_of(m: Machine, it: Iteration, pos: Position) -> (
    Result<Option<Result<Datum, Fail>>, Fail>,
    Iteration,
    Machine,
) {
    match it.items {
        Items::IntRange { next, end } => if next >= end {
            (Ok(None), it, m)
        } else {
            (
                Ok(Some(Ok(datum(Data::Int(next))))),
                Iteration { items: Items::IntRange { next: (next + 1) as i64, end }, ..it },
                m,
            )
        },
        Items::Hosted { handle } => match asked(
            m,
            question(Ask::NextItem { handle }, ""@, Seq::empty(), pos),
        ) {
            (Err(err), m1) => (Err(err), it, m1),
            (Ok(a), m1) => (
                match a.reply {
                    Reply::Value(v) => Ok(Some(Ok(v))),
                    Reply::Raised(err) => Ok(Some(Err(err))),
                    _ => Ok(None),
                },
                it,
                m1,
            ),
        },
    }
}

/// An item put where the loop's body wants it: in the loop variable, through
/// any cell it is in, or on the stack, after its index where that is wanted.
pub open spec fn item_placed(
    p: Program,
    m: Machine,
    scope: Names,
    base: usize,
    value: Datum,
    count: i64,
    indexed: bool,
    store: Option<u16>,
    pos: Position,
) -> Did {
    match store {
        Some(slot) => match local_at(scope, base, slot) {
            Err(err) => (Err(err), m, scope),
            Ok(i) => {
                let (r, entry, m1) = stored_through(
                    m,
                    p,
                    None,
                    scope[i].1,
                    flattened(m.heap, value),
                    ""@,
                    pos,
                );
                (r, m1, stored(scope, i, entry))
            },
        },
        None => (
            Ok(()),
            if indexed {
                m.push(datum(Data::Int(count))).push(flattened(m.heap, value))
            } else {
                m.push(flattened(m.heap, value))
            },
            scope,
        ),
    }
}

/// A loop moved on: whether it had another item, which is then put where the
/// body wants it. A loop that has none is over.
#[verifier::opaque]
pub open spec fn advanced(
    p: Program,
    m: Machine,
    scope: Names,
    base: usize,
    indexed: bool,
    store: Option<u16>,
    pos: Position,
) -> (Result<bool, Fail>, Machine, Names) {
    if m.iterators.len() == 0 {
        (Err(malformed_fail("no iterator to advance"@)), m, scope)
    } else {
        let held = m.iterators.last();
        let without = Machine { iterators: m.iterators.drop_last(), ..m };
        match item_of(without, held, pos) {
            (Err(err), it, m1) => (
                Err(err),
                Machine { iterators: m1.iterators.push(it), ..m1 },
                scope,
            ),
            (Ok(None), _, m1) => (Ok(false), m1, scope),
            (Ok(Some(item)), it, m1) => if it.count == i64::MAX {
                (
                    Err(
                        fail(
                            FailureKind::ErrorArithmetic(
                                "for-loop counter overflow: "@ + decimal(it.count as int),
                            ),
                            pos,
                        ),
                    ),
                    Machine { iterators: m1.iterators.push(it), ..m1 },
                    scope,
                )
            } else {
                let it2 = Iteration { count: (it.count + 1) as i64, ..it };
                let m2 = Machine { iterators: m1.iterators.push(it2), ..m1 };
                match item {
                    Err(err) => (Err(err.placed(pos)), m2, scope),
                    Ok(v) => match item_placed(
                        p,
                        m2,
                        scope,
                        base,
                        v,
                        it2.count,
                        indexed,
                        store,
                        pos,
                    ) {
                        (Err(err), m3, left) => (Err(err), m3, left),
                        (Ok(_), m3, left) => (Ok(true), m3, left),
                    },
                }
            },
        }
    }
}

/// One turn of a loop: on into the body with the next item, or past it when
/// there are no more.
#[verifier::opaque]
pub open spec fn turned(
    p: Program,
    m: Machine,
    scope: Names,
    base: usize,
    pc: usize,
    next: usize,
    body: u32,
    indexed: bool,
    store: Option<u16>,
) -> Stepped {
    match advanced(p, m, scope, base, indexed, store, p.pos_of(pc as int)) {
        (Err(err), m1, left) => (Err(err), m1, left),
        (Ok(false), m1, left) => (Ok(Flow::Next(next)), m1, left),
        (Ok(true), m1, left) => transferred(p, m1, left, pc, body),
    }
}

/// The model of an item.
pub open spec fn item_model(out: Result<Option<VmResult>, Error>) -> Result<
    Option<Result<Datum, Fail>>,
    Fail,
> {
    match out {
        Ok(Some(item)) => Ok(Some(result_view(item))),
        Ok(None) => Ok(None),
        Err(err) => Err(err@),
    }
}

fn int_value(value: &Dynamic) -> (n: Option<i64>)
    ensures
        n == int_of(value@.data),
{
    match &value.value {
        Union::Int(n) => Some(*n),
        _ => None,
    }
}

fn find_element(scope: &Scope, base: usize, root: u16, index: Option<i64>) -> (out: Option<
    (usize, usize),
>)
    ensures
        match out {
            Some((at, i)) => direct_element(scope@, base, root, index) == Some(
                (at as int, i as int),
            ) && at < scope@.len() && scope@[at as int].1.data is Array && i < row_at(
                scope@,
                at as int,
            ).len(),
            None => direct_element(scope@, base, root, index) is None,
        },
{
    broadcast use crate::value::view_of_composite;

    let n: i64 = match index {
        None => {
            return None;
        },
        Some(n) => n,
    };
    let at: usize = match local_index(scope, base, root) {
        Err(_) => {
            return None;
        },
        Ok(at) => at,
    };
    match &scope.get_by_index(at).value {
        Union::Array(row) => if n >= 0 && (n as u64) < row.len() as u64 {
            Some((at, n as usize))
        } else {
            None
        },
        _ => None,
    }
}

impl<'e> Vm<'e> {
    fn find_index(
        &self,
        program: &Program,
        scope: &Scope,
        base: usize,
        index: Source,
        below_top: usize,
    ) -> (n: Option<i64>)
        requires
            self.wf(),
            below_top < 2,
        ensures
            n == int_index(
                *program,
                self@,
                scope@,
                base,
                index,
                self@.stack.len() - 1 - below_top,
            ),
    {
        match index {
            Source::Local(slot) => match local_index(scope, base, slot) {
                Ok(i) => int_value(scope.get_by_index(i)),
                Err(_) => None,
            },
            Source::Const(i) => match pool_constant(program, i) {
                Ok(v) => int_value(v),
                Err(_) => None,
            },
            Source::Stack => {
                let depth: usize = self.stack.depth();
                if depth > below_top {
                    int_value(self.stack.get(depth - 1 - below_top))
                } else {
                    None
                }
            },
        }
    }

    pub(crate) fn keep_chain(
        &mut self,
        program: &Program,
        scope: &mut Scope,
        base: usize,
        chain: u16,
        keep: bool,
        pos: Position,
    ) -> (out: Result<(), Error>)
        requires
            old(self).wf(),
        ensures
            final(self).did(
                old(self)@,
                out,
                final(scope)@,
                chain_kept(
                    below(levels_left(old(self)@)),
                    *program,
                    old(self)@,
                    old(scope)@,
                    base,
                    chain,
                    keep,
                    pos,
                ),
            ),
        decreases levels_left(old(self)@), 5nat, 0nat, 0nat,
    {
        let c = pool_chain(program, chain)?;
        let v = self.run_chain(program, chain, c, scope, base, pos)?;
        if keep {
            self.push(v);
        }
        Ok(())
    }

    /// Read an element of a local.
    pub(crate) fn op_index_get(
        &mut self,
        program: &Program,
        scope: &mut Scope,
        base: usize,
        chain: u16,
        root: u16,
        index: Source,
        pos: Position,
    ) -> (out: Result<(), Error>)
        requires
            old(self).wf(),
        ensures
            final(self).did(
                old(self)@,
                out,
                final(scope)@,
                did_index_get(
                    below(levels_left(old(self)@)),
                    *program,
                    old(self)@,
                    old(scope)@,
                    base,
                    chain,
                    root,
                    index,
                    pos,
                ),
            ),
        decreases levels_left(old(self)@), 5nat, 1nat, 0nat,
    {
        broadcast use crate::value::view_of_composite;

        proof {
            reveal(did_index_get);
        }
        let stacked = matches!(index, Source::Stack);
        let n = self.find_index(program, scope, base, index, 0);
        if let Some((at, i)) = find_element(scope, base, root, n) {
            if let Union::Array(row) = &scope.get_by_index(at).value {
                if !row[i].is_shared() {
                    let value = clone_value(&row[i]);
                    if stacked {
                        let _ = self.stack.pop();
                    }
                    self.push(value);
                    return Ok(());
                }
            }
        }
        let v = self.operand_value(program, scope, base, index)?;
        if !stacked {
            self.push(v);
        }
        self.keep_chain(program, scope, base, chain, true, pos)
    }

    pub(crate) fn pop_or_unit(&mut self) -> (value: Dynamic)
        requires
            old(self).wf(),
        ensures
            value@ == top(old(self)@),
            final(self).reached(old(self)@, dropped(old(self)@)),
    {
        match self.stack.pop() {
            Some(value) => value,
            None => Dynamic::unit(),
        }
    }

    fn direct_operated(&self, byte: u8, element: &Dynamic, value: &Dynamic) -> (out: Option<
        Dynamic,
    >)
        requires
            self.wf(),
        ensures
            crate::machine::opt_view(out) == direct_value(self@, Some(byte), element@, value@),
    {
        if !self.engine.fast_operators {
            return None;
        }
        let kind = match BinOpKind::from_byte(byte) {
            None => {
                return None;
            },
            Some(kind) => kind,
        };
        match (&element.value, &value.value) {
            (Union::Int(x), Union::Int(y)) => match crate::arith::int_assign(kind, *x, *y) {
                Some(Ok(n)) => Some(
                    Dynamic { value: Union::Int(n), tag: element.tag, mode: element.mode },
                ),
                _ => None,
            },
            _ => None,
        }
    }

    /// Assign to an element of a local.
    pub(crate) fn op_index_set(
        &mut self,
        program: &Program,
        scope: &mut Scope,
        base: usize,
        o: IndexSet,
        pos: Position,
    ) -> (out: Result<(), Error>)
        requires
            old(self).wf(),
        ensures
            final(self).did(
                old(self)@,
                out,
                final(scope)@,
                did_index_set(
                    below(levels_left(old(self)@)),
                    *program,
                    old(self)@,
                    old(scope)@,
                    base,
                    o,
                    pos,
                ),
            ),
        decreases levels_left(old(self)@), 5nat, 1nat, 0nat,
    {
        broadcast use crate::value::view_of_composite;

        proof {
            reveal(did_index_set);
        }
        let ghost m = self@;
        let ghost names = scope@;
        let stacked = matches!(o.index, Source::Stack);
        let under: usize = if o.value.is_some() {
            0
        } else {
            1
        };
        let n = self.find_index(program, scope, base, o.index, under);
        proof {
            self.stack.fits();
        }
        let untouched = stacked && o.value.is_none() && self.stack.depth() == 0;
        let value = match o.value {
            Some(i) => clone_value(pool_constant(program, i as u32)?),
            None => self.pop_or_unit(),
        };
        if let Some((at, i)) = find_element(scope, base, o.root, n) {
            let entry = scope.get_by_index(at);
            if matches!(entry.mode, AccessMode::ReadWrite) {
                if let Union::Array(row) = &entry.value {
                    match o.kind {
                        None => {
                            if !row[i].is_shared() {
                                set_element(scope, at, i, value);
                                if stacked {
                                    let _ = self.pop_or_unit();
                                }
                                return Ok(());
                            }
                        },
                        Some(byte) => {
                            if let Some(after) = self.direct_operated(byte, &row[i], &value) {
                                set_element(scope, at, i, after);
                                if stacked {
                                    let _ = self.pop_or_unit();
                                }
                                return Ok(());
                            }
                        },
                    }
                }
            }
        }
        let index = self.operand_value(program, scope, base, o.index)?;
        if !stacked {
            self.push(index);
        }
        if !untouched {
            self.push(value);
        }
        assert(stacked && o.value is None ==> self@ =~= m) by {
            if m.stack.len() > 0 {
                assert(m.stack.drop_last().push(m.stack.last()) =~= m.stack);
            }
        }
        self.keep_chain(program, scope, base, o.chain, false, pos)
    }

    fn next_item(&mut self, it: &mut Iteration, pos: Position) -> (out: Result<
        Option<VmResult>,
        Error,
    >)
        requires
            old(self).wf(),
        ensures
            ({
                let (r, after, m) = item_of(old(self)@, *old(it), pos);
                item_model(out) == r && *final(it) == after && final(self).reached(old(self)@, m)
            }),
    {
        match it.items {
            Items::IntRange { next, end } => {
                if next >= end {
                    return Ok(None);
                }
                it.items = Items::IntRange { next: next + 1, end };
                Ok(Some(Ok(Dynamic::from_int(next))))
            },
            Items::Hosted { handle } => {
                let answer = self.ask(Ask::NextItem { handle }, "", no_operands(), pos)?;
                match answer.reply {
                    Reply::Value(v) => Ok(Some(Ok(v))),
                    Reply::Raised(err) => Ok(Some(Err(err))),
                    _ => Ok(None),
                }
            },
        }
    }

    fn place_item(
        &mut self,
        program: &Program,
        scope: &mut Scope,
        base: usize,
        value: Dynamic,
        count: i64,
        indexed: bool,
        store: Option<u16>,
        pos: Position,
    ) -> (out: Result<(), Error>)
        requires
            old(self).wf(),
        ensures
            final(self).did(
                old(self)@,
                out,
                final(scope)@,
                item_placed(
                    *program,
                    old(self)@,
                    old(scope)@,
                    base,
                    value@,
                    count,
                    indexed,
                    store,
                    pos,
                ),
            ),
    {
        let value = self.heap.flatten(value);
        match store {
            Some(slot) => {
                let i: usize = local_index(scope, base, slot)?;
                let ghost before = scope@;
                let mut entry = scope.take(i);
                let out = self.store_through(program, None, &mut entry, value, "", pos);
                proof {
                    taken_and_put_back(before, i as int, entry@);
                }
                scope.put(i, entry);
                out
            },
            None => {
                if indexed {
                    self.push(Dynamic::from_int(count));
                }
                self.push(value);
                Ok(())
            },
        }
    }

    /// Move a loop on, and say whether it had another item.
    pub(crate) fn advance(
        &mut self,
        program: &Program,
        scope: &mut Scope,
        base: usize,
        indexed: bool,
        store: Option<u16>,
        pos: Position,
    ) -> (out: Result<bool, Error>)
        requires
            old(self).wf(),
        ensures
            ({
                let (r, m, left) = advanced(
                    *program,
                    old(self)@,
                    old(scope)@,
                    base,
                    indexed,
                    store,
                    pos,
                );
                &&& match out {
                    Ok(had) => r == Ok::<bool, Fail>(had),
                    Err(err) => r == Err::<bool, Fail>(err@),
                }
                &&& final(self).reached(old(self)@, m)
                &&& final(scope)@ == left
            }),
    {
        proof {
            reveal(advanced);
        }
        let mut it = match self.iterators.pop() {
            None => {
                return Err(malformed("no iterator to advance".to_owned()));
            },
            Some(it) => it,
        };
        let item = match self.next_item(&mut it, pos) {
            Err(err) => {
                self.iterators.push(it);
                return Err(err);
            },
            Ok(None) => {
                return Ok(false);
            },
            Ok(Some(item)) => item,
        };
        if it.count == i64::MAX {
            self.iterators.push(it);
            let mut text = "for-loop counter overflow: ".to_owned();
            append_i64(&mut text, it.count);
            return Err(raised(FailureKind::ErrorArithmetic(text), pos));
        }
        it.count = it.count + 1;
        self.iterators.push(it);
        match item {
            Err(err) => Err(dispatch_failure(err, pos)),
            Ok(value) => {
                self.place_item(program, scope, base, value, it.count, indexed, store, pos)?;
                Ok(true)
            },
        }
    }

    /// Take one turn of a loop.
    pub(crate) fn op_iter_next(
        &mut self,
        program: &Program,
        scope: &mut Scope,
        base: usize,
        pc: usize,
        next: usize,
        body: u32,
        indexed: bool,
        store: Option<u16>,
    ) -> (out: Result<Flow<Dynamic>, Error>)
        requires
            old(self).wf(),
            next > pc,
        ensures
            stepped_as(
                *final(self),
                old(self)@,
                out,
                final(scope)@,
                turned(
                    *program,
                    old(self)@,
                    old(scope)@,
                    base,
                    pc,
                    next,
                    body,
                    indexed,
                    store,
                ),
            ),
            out matches Ok(Flow::Next(to)) ==> to > pc
                || final(self)@.regs.operations > old(self)@.regs.operations,
    {
        proof {
            reveal(turned);
        }
        let pos = program.position(pc);
        if self.advance(program, scope, base, indexed, store, pos)? {
            self.transfer(program, scope, pc, body)
        } else {
            Ok(Flow::Next(next))
        }
    }
}

fn set_element(scope: &mut Scope, at: usize, i: usize, value: Dynamic)
    requires
        at < old(scope)@.len(),
        old(scope)@[at as int].1.data is Array,
        i < row_at(old(scope)@, at as int).len(),
    ensures
        final(scope)@ == stored(
            old(scope)@,
            at as int,
            Datum {
                data: Data::Array(row_at(old(scope)@, at as int).update(i as int, value@)),
                ..old(scope)@[at as int].1
            },
        ),
{
    broadcast use crate::value::view_of_composite;

    let ghost before = scope@;
    let mut entry = scope.take(at);
    if let Union::Array(row) = &mut entry.value {
        let ghost items = all_views(row@);
        row.set(i, value);
        assert(all_views(row@) =~= items.update(i as int, value@));
    }
    proof {
        taken_and_put_back(before, at as int, entry@);
    }
    scope.put(at, entry);
}

} // verus!
