//! Operators, the branches they swallow, and the short ways to an element.
use vstd::prelude::*;

use crate::arith::{
    applied, apply_binary, apply_unary, kind_of, negated, unary_of, Applied, BinOpKind, UnOpKind,
};
use crate::assign::pair;
use crate::bytecode::{Branch, Operator, Shape, Source};
use crate::call::{called, levels_left};
use crate::error::{
    malformed, malformed_fail, malformed_number, outcome, result_view, unnumbered, Error, Fail,
    VmResult,
};
use crate::frame::{below, Runner};
use crate::heap::{flat_copy, flattened};
use crate::host::{reply_value, value_of, Ask};
use crate::machine::{asked, counted, question, Machine, Vm};
use crate::ops::{constant, guard, local_at, local_index, mismatch, named, pool_constant, pool_name};
use crate::position::Position;
use crate::program::Program;
use crate::scope::{Names, Scope};
use crate::site::operator_resolved;
use crate::value::{clone_value, copied, is_host_data, type_text, unit, Datum, Dynamic, Union};

verus! {

/// Where control goes after an instruction.
#[derive(Debug)]
pub enum Flow<V> {
    /// On to an address.
    Next(usize),
    /// Out of the frame, with its value.
    Leave(V),
}

/// What an instruction gives: where control goes, the run and the scope.
pub type Stepped = (Result<Flow<Datum>, Fail>, Machine, Names);

/// The model of where control goes.
pub open spec fn flow_view(out: Result<Flow<Dynamic>, Error>) -> Result<Flow<Datum>, Fail> {
    match out {
        Ok(Flow::Next(pc)) => Ok(Flow::Next(pc)),
        Ok(Flow::Leave(v)) => Ok(Flow::Leave(v@)),
        Err(err) => Err(err@),
    }
}

/// A transfer of control: going back is charged an operation, so that every
/// cycle is metered.
#[verifier::opaque]
pub open spec fn transferred(
    p: Program,
    m: Machine,
    scope: Names,
    pc: usize,
    target: u32,
) -> Stepped {
    if target <= pc {
        match counted(m, p.pos_of(pc as int)) {
            (Ok(_), m1) => (Ok(Flow::Next(target as usize)), m1, scope),
            (Err(err), m1) => (Err(err), m1, scope),
        }
    } else {
        (Ok(Flow::Next(target as usize)), m, scope)
    }
}

/// An operator's result put to use: pushed in place of its operands, or read by
/// the branch the instruction swallowed and not pushed at all.
#[verifier::opaque]
pub open spec fn delivered(
    p: Program,
    m: Machine,
    scope: Names,
    pc: usize,
    next: usize,
    branch: Option<Branch>,
    floor: int,
    value: Datum,
) -> Stepped {
    let m1 = m.truncate(floor);
    match branch {
        None => (Ok(Flow::Next(next)), m1.push(value), scope),
        Some(b) => match guard(m1, value, p.pos_of(pc as int)) {
            Err(err) => (Err(err), m1, scope),
            Ok(holds) => if holds == b.when {
                transferred(p, m1, scope, pc, b.target)
            } else {
                (Ok(Flow::Next(next)), m1, scope)
            },
        },
    }
}

/// A named operand: what a local or a constant holds, read out of any cell.
pub open spec fn named_operand(
    p: Program,
    m: Machine,
    scope: Names,
    base: usize,
    from: Source,
) -> Result<Datum, Fail> {
    match from {
        Source::Stack => Ok(unit()),
        Source::Local(slot) => match local_at(scope, base, slot) {
            Ok(i) => Ok(flat_copy(m.heap, scope[i].1)),
            Err(err) => Err(err),
        },
        Source::Const(i) => match constant(p, i) {
            Ok(v) => Ok(copied(v)),
            Err(err) => Err(err),
        },
    }
}

/// An operator's named operands put on the stack with the others.
#[verifier::opaque]
pub open spec fn operands_pushed(
    p: Program,
    m: Machine,
    scope: Names,
    base: usize,
    o: Operator,
) -> (Result<(), Fail>, Machine) {
    if o.rhs is Stack {
        (Ok(()), m)
    } else if o.lhs is Stack && o.shape is Binary && m.engine.fast_operators && m.stack.len() == 0 {
        (Err(malformed_fail("operator with too few operands"@)), m)
    } else {
        match (
            named_operand(p, m, scope, base, o.lhs),
            named_operand(p, m, scope, base, o.rhs),
        ) {
            (Err(err), _) => (Err(err), m),
            (_, Err(err)) => (Err(err), m),
            (Ok(lhs), Ok(rhs)) => (
                Ok(()),
                if o.lhs is Stack {
                    m.push(rhs)
                } else {
                    m.push(lhs).push(rhs)
                },
            ),
        }
    }
}

/// What an operator says of the operands on the stack without resolving
/// anything: its value and where it goes, or nothing for a pair it has no
/// answer for.
#[verifier::opaque]
pub open spec fn fast_answer(m: Machine, shape: Shape, pos: Position) -> (
    Result<Option<(int, Datum)>, Fail>,
    Machine,
) {
    let depth = m.stack.len();
    if !m.engine.fast_operators {
        (Ok(None), m)
    } else {
        match shape {
            Shape::Plain => (Ok(None), m),
            Shape::Unary(byte) => if depth < 1 {
                (Err(malformed_fail("operator with too few operands"@)), m)
            } else {
                match unary_of(byte) {
                    None => (Ok(None), m),
                    Some(_) => match negated(m.stack.last().data) {
                        Some(v) => (Ok(Some((depth - 1, v))), m),
                        None => (Ok(None), m),
                    },
                }
            },
            Shape::Binary(byte) => if depth < 2 {
                (Err(malformed_fail("operator with too few operands"@)), m)
            } else {
                let lhs = m.stack[depth - 2];
                let rhs = m.stack[depth - 1];
                match kind_of(byte) {
                    None => (Ok(None), m),
                    Some(kind) => match applied(kind, lhs.data, rhs.data) {
                        Err(err) => (Err(err), m),
                        Ok(Applied::Done(v)) => (Ok(Some((depth - 2, v))), m),
                        Ok(Applied::Declined) => (Ok(None), m),
                        Ok(Applied::Float) => match asked(
                            m,
                            question(
                                Ask::Float { kind },
                                ""@,
                                seq![copied(lhs), copied(rhs)],
                                pos,
                            ),
                        ) {
                            (Err(err), m1) => (Err(err), m1),
                            (Ok(a), m1) => match reply_value(a.reply) {
                                Ok(v) => (Ok(Some((depth - 2, v))), m1),
                                Err(err) => (Err(err), m1),
                            },
                        },
                    },
                }
            },
        }
    }
}

/// The operator a call names in the token pool, if it names one.
pub open spec fn token_of(p: Program, token: Option<u16>) -> Result<Option<Seq<char>>, Fail> {
    match token {
        None => Ok(None),
        Some(i) => if i < p.tokens@.len() {
            Ok(Some(p.tokens@[i as int]@))
        } else {
            Err(unnumbered("no operator "@, i as nat, ""@))
        },
    }
}

/// The host's built-in run on an operator's two operands, if it has one for
/// them: custom types go to dispatch, so that a registered function still wins.
#[verifier::opaque]
pub open spec fn built_in(
    m: Machine,
    pc: usize,
    token: Option<Seq<char>>,
    name: Seq<char>,
    argc: int,
    first: int,
    pos: Position,
) -> (Result<Option<Datum>, Fail>, Machine) {
    match token {
        Some(token) if argc == 2 && m.engine.fast_operators => {
            let lhs = flattened(m.heap, m.stack[first]);
            let rhs = flattened(m.heap, m.stack[first + 1]);
            let m1 = m.truncate(first);
            if is_host_data(lhs.data) || is_host_data(rhs.data) {
                (Ok(None), m1.push(lhs).push(rhs))
            } else {
                match operator_resolved(m1, pc, token, lhs, rhs, pos) {
                    (Err(err), m2) => (Err(err), m2),
                    (Ok(None), m2) => (Ok(None), m2.push(lhs).push(rhs)),
                    (Ok(Some(b)), m2) => match asked(
                        m2,
                        question(
                            Ask::Builtin { handle: b.handle, context: b.context },
                            name,
                            seq![lhs, rhs],
                            pos,
                        ),
                    ) {
                        (Err(err), m3) => (Err(err), m3),
                        (Ok(a), m3) => match reply_value(a.reply) {
                            Ok(v) => (Ok(Some(v)), m3),
                            Err(err) => (Err(err), m3),
                        },
                    },
                }
            }
        },
        _ => (Ok(None), m),
    }
}

/// An operator or a call the fast operators left: a built-in of the host, or a
/// call by name.
#[verifier::opaque]
pub open spec fn resolved_call(
    k: Runner,
    p: Program,
    m: Machine,
    scope: Names,
    pc: usize,
    next: usize,
    o: Operator,
) -> Stepped {
    let pos = p.pos_of(pc as int);
    match (named(p, o.name as int), token_of(p, o.token)) {
        (Err(err), _) => (Err(err), m, scope),
        (_, Err(err)) => (Err(err), m, scope),
        (Ok(name), Ok(token)) => if m.stack.len() < o.argc {
            (Err(malformed_fail("call with too few arguments"@)), m, scope)
        } else {
            let first = m.stack.len() - o.argc;
            match built_in(m, pc, token, name, o.argc as int, first, pos) {
                (Err(err), m1) => (Err(err), m1, scope),
                (Ok(Some(v)), m1) => delivered(p, m1, scope, pc, next, o.branch, first, v),
                (Ok(None), m1) => match called(
                    k,
                    p,
                    m1,
                    scope,
                    o.name as u32,
                    name,
                    o.argc as int,
                    first,
                    o.capture,
                    pos,
                ) {
                    (Err(err), m2, left) => (Err(err), m2, left),
                    (Ok(v), m2, left) => delivered(p, m2, left, pc, next, o.branch, first, v),
                },
            }
        },
    }
}

/// A call or an operator.
#[verifier::opaque]
pub open spec fn operated(
    k: Runner,
    p: Program,
    m: Machine,
    scope: Names,
    base: usize,
    pc: usize,
    next: usize,
    o: Operator,
) -> Stepped {
    match operands_pushed(p, m, scope, base, o) {
        (Err(err), m1) => (Err(err), m1, scope),
        (Ok(_), m1) => match fast_answer(m1, o.shape, p.pos_of(pc as int)) {
            (Err(err), m2) => (Err(err), m2, scope),
            (Ok(Some((floor, v))), m2) => delivered(
                p,
                m2,
                scope,
                pc,
                next,
                o.branch,
                floor,
                v,
            ),
            (Ok(None), m2) => resolved_call(k, p, m2, scope, pc, next, o),
        },
    }
}

/// An instruction went as expected.
pub open(crate) spec fn stepped_as(
    vm: Vm,
    before: Machine,
    out: Result<Flow<Dynamic>, Error>,
    scope: Names,
    expected: Stepped,
) -> bool {
    &&& flow_view(out) == expected.0
    &&& vm.reached(before, expected.1)
    &&& scope == expected.2
}

/// The model of a fast answer.
pub open spec fn answer_model(out: Result<Option<(usize, Dynamic)>, Error>) -> Result<
    Option<(int, Datum)>,
    Fail,
> {
    match out {
        Ok(Some((floor, v))) => Ok(Some((floor as int, v@))),
        Ok(None) => Ok(None),
        Err(err) => Err(err@),
    }
}

impl<'e> Vm<'e> {
    /// Transfer control, metering a step back.
    pub(crate) fn transfer(
        &mut self,
        program: &Program,
        scope: &Scope,
        pc: usize,
        target: u32,
    ) -> (out:
        Result<Flow<Dynamic>, Error>)
        requires
            old(self).wf(),
        ensures
            stepped_as(
                *final(self),
                old(self)@,
                out,
                scope@,
                transferred(*program, old(self)@, scope@, pc, target),
            ),
            out matches Ok(Flow::Next(to)) ==> to > pc
                || final(self)@.regs.operations > old(self)@.regs.operations,
    {
        proof {
            reveal(transferred);
        }
        if target as usize <= pc {
            self.track_operation(program.position(pc))?;
        }
        Ok(Flow::Next(target as usize))
    }

    /// Whether a guard holds.
    pub(crate) fn guard_holds(&self, value: &Dynamic, pos: Position) -> (out: Result<bool, Error>)
        ensures
            crate::site::resolution(out) == guard(self@, value@, pos),
    {
        let flat = self.heap.flatten_clone_value(value);
        match &flat.value {
            Union::Bool(b) => Ok(*b),
            _ => Err(mismatch(self.engine, "bool", type_text(&flat), pos)),
        }
    }

    fn deliver(
        &mut self,
        program: &Program,
        scope: &Scope,
        pc: usize,
        next: usize,
        branch: Option<Branch>,
        floor: usize,
        value: Dynamic,
    ) -> (out: Result<Flow<Dynamic>, Error>)
        requires
            old(self).wf(),
            next > pc,
        ensures
            stepped_as(
                *final(self),
                old(self)@,
                out,
                scope@,
                delivered(
                    *program,
                    old(self)@,
                    scope@,
                    pc,
                    next,
                    branch,
                    floor as int,
                    value@,
                ),
            ),
            out matches Ok(Flow::Next(to)) ==> to > pc
                || final(self)@.regs.operations > old(self)@.regs.operations,
    {
        proof {
            reveal(delivered);
        }
        self.truncate_stack(floor);
        match branch {
            None => {
                self.push(value);
                Ok(Flow::Next(next))
            },
            Some(b) => {
                if self.guard_holds(&value, program.position(pc))? == b.when {
                    self.transfer(program, scope, pc, b.target)
                } else {
                    Ok(Flow::Next(next))
                }
            },
        }
    }

    pub(crate) fn operand_value(
        &self,
        program: &Program,
        scope: &Scope,
        base: usize,
        from: Source,
    ) -> (out:
        VmResult)
        ensures
            result_view(out) == named_operand(*program, self@, scope@, base, from),
    {
        match from {
            Source::Stack => Ok(Dynamic::unit()),
            Source::Local(slot) => {
                let i: usize = local_index(scope, base, slot)?;
                Ok(self.heap.flatten_clone_value(scope.get_by_index(i)))
            },
            Source::Const(i) => Ok(clone_value(pool_constant(program, i)?)),
        }
    }

    fn push_operands(&mut self, program: &Program, scope: &Scope, base: usize, o: Operator) -> (out:
        Result<(), Error>)
        requires
            old(self).wf(),
        ensures
            ({
                let (r, m) = operands_pushed(*program, old(self)@, scope@, base, o);
                outcome(out) == r && final(self).reached(old(self)@, m)
            }),
    {
        proof {
            reveal(operands_pushed);
        }
        if matches!(o.rhs, Source::Stack) {
            return Ok(());
        }
        let stacked = matches!(o.lhs, Source::Stack);
        if stacked && matches!(o.shape, Shape::Binary(_)) && self.engine.fast_operators
            && self.stack.depth() == 0 {
            return Err(malformed("operator with too few operands".to_owned()));
        }
        let lhs = self.operand_value(program, scope, base, o.lhs)?;
        let rhs = self.operand_value(program, scope, base, o.rhs)?;
        if !stacked {
            self.push(lhs);
        }
        self.push(rhs);
        Ok(())
    }

    fn answer_fast(&mut self, shape: Shape, pos: Position) -> (out: Result<
        Option<(usize, Dynamic)>,
        Error,
    >)
        requires
            old(self).wf(),
        ensures
            ({
                let (r, m) = fast_answer(old(self)@, shape, pos);
                answer_model(out) == r && final(self).reached(old(self)@, m)
            }),
    {
        proof {
            reveal(fast_answer);
        }
        if !self.engine.fast_operators {
            return Ok(None);
        }
        let depth: usize = self.stack.depth();
        match shape {
            Shape::Plain => Ok(None),
            Shape::Unary(byte) => {
                if depth < 1 {
                    return Err(malformed("operator with too few operands".to_owned()));
                }
                match UnOpKind::from_byte(byte) {
                    None => Ok(None),
                    Some(kind) => match apply_unary(kind, self.stack.get(depth - 1)) {
                        Some(v) => Ok(Some((depth - 1, v))),
                        None => Ok(None),
                    },
                }
            },
            Shape::Binary(byte) => {
                if depth < 2 {
                    return Err(malformed("operator with too few operands".to_owned()));
                }
                let kind = match BinOpKind::from_byte(byte) {
                    None => {
                        return Ok(None);
                    },
                    Some(kind) => kind,
                };
                match apply_binary(kind, self.stack.get(depth - 2), self.stack.get(depth - 1)) {
                    Err(err) => Err(err),
                    Ok(Applied::Done(v)) => Ok(Some((depth - 2, v))),
                    Ok(Applied::Declined) => Ok(None),
                    Ok(Applied::Float) => {
                        let operands = pair(
                            clone_value(self.stack.get(depth - 2)),
                            clone_value(self.stack.get(depth - 1)),
                        );
                        let answer = self.ask(Ask::Float { kind }, "", operands, pos)?;
                        let v = value_of(answer.reply)?;
                        Ok(Some((depth - 2, v)))
                    },
                }
            },
        }
    }

    fn run_built_in(
        &mut self,
        pc: usize,
        token: Option<&str>,
        name: &str,
        argc: usize,
        first: usize,
        pos: Position,
    ) -> (out: Result<Option<Dynamic>, Error>)
        requires
            old(self).wf(),
            first + argc == old(self)@.stack.len(),
        ensures
            ({
                let (r, m) = built_in(
                    old(self)@,
                    pc,
                    match token {
                        Some(t) => Some(t@),
                        None => None,
                    },
                    name@,
                    argc as int,
                    first as int,
                    pos,
                );
                crate::assign::option_view(out) == r && final(self).reached(old(self)@, m)
                    && (out matches Ok(None) ==> m.stack.len() == old(self)@.stack.len())
            }),
    {
        proof {
            reveal(built_in);
        }
        let token = match token {
            None => {
                return Ok(None);
            },
            Some(token) => token,
        };
        if argc != 2 || !self.engine.fast_operators {
            return Ok(None);
        }
        let (lhs, rhs) = crate::assign::take_pair(self.stack.take_values_from(first));
        let lhs = self.heap.flatten(lhs);
        let rhs = self.heap.flatten(rhs);
        if !lhs.is_variant() && !rhs.is_variant() {
            proof {
                crate::site::resolving_keeps_operands(self@, pc, token@, lhs@, rhs@, pos);
            }
            if let Some(b) = self.resolve_operator(pc, token, &lhs, &rhs, pos)? {
                let ask = Ask::Builtin { handle: b.handle, context: b.context };
                let answer = self.ask(ask, name, pair(lhs, rhs), pos)?;
                let v = value_of(answer.reply)?;
                return Ok(Some(v));
            }
        }
        self.push(lhs);
        self.push(rhs);
        Ok(None)
    }

    /// Run a built-in of the host, or call by name.
    fn call_resolved(
        &mut self,
        program: &Program,
        scope: &mut Scope,
        pc: usize,
        next: usize,
        o: Operator,
    ) -> (out: Result<Flow<Dynamic>, Error>)
        requires
            old(self).wf(),
            next > pc,
        ensures
            stepped_as(
                *final(self),
                old(self)@,
                out,
                final(scope)@,
                resolved_call(
                    below(levels_left(old(self)@)),
                    *program,
                    old(self)@,
                    old(scope)@,
                    pc,
                    next,
                    o,
                ),
            ),
            out matches Ok(Flow::Next(to)) ==> to > pc
                || final(self)@.regs.operations > old(self)@.regs.operations,
        decreases levels_left(old(self)@), 5nat, 1nat, 0nat,
    {
        proof {
            reveal(resolved_call);
        }
        let pos = program.position(pc);
        let name = pool_name(program, o.name as u32)?;
        let token = match o.token {
            None => None,
            Some(i) => if (i as usize) < program.tokens.len() {
                Some(program.tokens[i as usize].as_str())
            } else {
                return Err(malformed_number("no operator ", i as u64, ""));
            },
        };
        let depth: usize = self.stack.depth();
        let argc: usize = o.argc as usize;
        if depth < argc {
            return Err(malformed("call with too few arguments".to_owned()));
        }
        let first: usize = depth - argc;
        if let Some(v) = self.run_built_in(pc, token, name, argc, first, pos)? {
            return self.deliver(program, scope, pc, next, o.branch, first, v);
        }
        let v = self.call_syntactic_or_stacked(
            program,
            o.name as u32,
            name,
            argc,
            first,
            scope,
            o.capture,
            pos,
        )?;
        self.deliver(program, scope, pc, next, o.branch, first, v)
    }

    /// Run a call or an operator.
    pub(crate) fn op_operate(
        &mut self,
        program: &Program,
        scope: &mut Scope,
        base: usize,
        pc: usize,
        next: usize,
        o: Operator,
    ) -> (out: Result<Flow<Dynamic>, Error>)
        requires
            old(self).wf(),
            next > pc,
        ensures
            stepped_as(
                *final(self),
                old(self)@,
                out,
                final(scope)@,
                operated(
                    below(levels_left(old(self)@)),
                    *program,
                    old(self)@,
                    old(scope)@,
                    base,
                    pc,
                    next,
                    o,
                ),
            ),
            out matches Ok(Flow::Next(to)) ==> to > pc
                || final(self)@.regs.operations > old(self)@.regs.operations,
        decreases levels_left(old(self)@), 5nat, 2nat, 0nat,
    {
        proof {
            reveal(operated);
        }
        self.push_operands(program, scope, base, o)?;
        if let Some((floor, v)) = self.answer_fast(o.shape, program.position(pc))? {
            return self.deliver(program, scope, pc, next, o.branch, floor, v);
        }
        self.call_resolved(program, scope, pc, next, o)
    }
}

} // verus!
