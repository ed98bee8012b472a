//! Resolving operators and calls, and remembering what they resolved to.
use vstd::prelude::*;

use crate::assign::{dispatch_ask, dispatched};
use crate::error::{
    dispatch_failure, fail, malformed_number, raised, result_view, unnumbered, Error, Fail,
    FailureKind, VmResult,
};
use crate::host::{reply_value, value_of, Ask, Reply};
use crate::machine::{asked, asked_in, question, Machine, Vm};
use crate::memo::{
    arg_codes, call_memo_slot, call_slot, codes_of, empty_call_memo, memos_stamped, operand_codes,
    pair_code, BuiltinFn, CallMemo, OperatorMemo, CALL_MEMO_SLOTS, OPERATOR_MEMO_SLOTS,
};
use crate::ops::{as_text, mismatch, mismatched};
use crate::position::Position;
use crate::program::Program;
use crate::scope::{found, Names, Scope};
use crate::stack::above;
use crate::text::{callable_name, is_identifier, listed, same_text};
use crate::value::{
    all_copied, all_views, clone_value, code_of, copied, datum, name_of_type, type_code, type_text,
    unit, Data, Datum, Dynamic, Union,
};

verus! {

/// Copy a row of values.
pub(crate) fn copy_values(row: &Vec<Dynamic>) -> (out: Vec<Dynamic>)
    ensures
        all_views(out@) == all_copied(all_views(row@)),
{
    let mut out: Vec<Dynamic> = Vec::new();
    let mut i: usize = 0;
    while i < row.len()
        invariant
            i <= row@.len(),
            out@.len() == i,
            forall|j: int| 0 <= j < i ==> (#[trigger] out@[j])@ == copied(row@[j]@),
        decreases row@.len() - i,
    {
        out.push(clone_value(&row[i]));
        i = i + 1;
    }
    assert(all_views(out@) =~= all_copied(all_views(row@)));
    out
}

/// The handle an answer gives, if it gives one.
pub open spec fn handle_of(reply: Reply<Datum, Fail>) -> Option<BuiltinFn> {
    match reply {
        Reply::Handle(handle, context) => Some(BuiltinFn { handle, context }),
        _ => None,
    }
}

/// The host's built-in for an operator and two operands, if it has one.
pub open spec fn asked_operator(
    m: Machine,
    token: Seq<char>,
    lhs: Datum,
    rhs: Datum,
    pos: Position,
) -> (Result<Option<BuiltinFn>, Fail>, Machine) {
    match asked(
        m,
        question(Ask::ResolveOperator, token, seq![copied(lhs), copied(rhs)], pos),
    ) {
        (Ok(a), m1) => (Ok(handle_of(a.reply)), m1),
        (Err(err), m1) => (Err(err), m1),
    }
}

/// The built-in for an operator site: from the memo where this frame left it
/// there for operands of these kinds, and from the host otherwise.
#[verifier::opaque]
pub open spec fn operator_resolved(
    m: Machine,
    at: usize,
    token: Seq<char>,
    lhs: Datum,
    rhs: Datum,
    pos: Position,
) -> (Result<Option<BuiltinFn>, Fail>, Machine) {
    if code_of(lhs.data) == 0 || code_of(rhs.data) == 0 {
        asked_operator(m, token, lhs, rhs, pos)
    } else {
        let slot = at as int % OPERATOR_MEMO_SLOTS as int;
        let kinds = pair_code(lhs.data, rhs.data);
        if m.operator_memo[slot].hit(m.regs.generation, at, kinds) {
            (Ok(m.operator_memo[slot].resolved), m)
        } else {
            match asked_operator(m, token, lhs, rhs, pos) {
                (Err(err), m1) => (Err(err), m1),
                (Ok(resolved), m1) => (
                    Ok(resolved),
                    Machine {
                        operator_memo: m1.operator_memo.update(
                            slot,
                            OperatorMemo {
                                generation: m1.regs.generation,
                                at: at as u32,
                                operands: kinds,
                                resolved,
                            },
                        ),
                        ..m1
                    },
                ),
            }
        }
    }
}

/// Resolving an operator leaves the operands alone.
pub proof fn resolving_keeps_operands(
    m: Machine,
    at: usize,
    token: Seq<char>,
    lhs: Datum,
    rhs: Datum,
    pos: Position,
)
    ensures
        operator_resolved(m, at, token, lhs, rhs, pos).1.stack == m.stack,
{
    reveal(operator_resolved);
}

/// What the host resolves a named call to: nothing for a name it answers
/// itself and for one only a native can carry.
pub open spec fn asked_site(m: Machine, name: Seq<char>, args: Seq<Datum>, pos: Position) -> (
    Result<Option<u64>, Fail>,
    Machine,
) {
    if !callable_name(name) || listed(m.engine.syntactic@, name) {
        (Ok(None), m)
    } else {
        match asked(m, question(Ask::ResolveSite, name, all_copied(args), pos)) {
            (Err(err), m1) => (Err(err), m1),
            (Ok(a), m1) => (
                Ok(
                    match a.reply {
                        Reply::Handle(handle, _) => Some(handle),
                        _ => None,
                    },
                ),
                m1,
            ),
        }
    }
}

/// The table of call sites, made where the first site is remembered.
pub open spec fn site_table(m: Machine) -> Seq<Option<CallMemo>> {
    if m.call_memo.len() == 0 {
        Seq::new(CALL_MEMO_SLOTS as nat, |i: int| None::<CallMemo>)
    } else {
        m.call_memo
    }
}

/// What a call site resolved to: from the memo where this frame left it there
/// for arguments of these kinds, and worked out and kept otherwise.
#[verifier::opaque]
pub open spec fn site_of(
    m: Machine,
    index: u32,
    name: Seq<char>,
    args: Seq<Datum>,
    pos: Position,
) -> (Result<Option<u64>, Fail>, Machine) {
    match codes_of(args) {
        None => (Ok(None), m),
        Some(codes) => {
            let slot = call_slot(index, args.len() as usize) as int;
            let m1 = Machine { call_memo: site_table(m), ..m };
            let known = m1.call_memo[slot] matches Some(memo) && memo.hit(
                m1.regs.generation,
                index,
                args.len() as int,
                codes,
                m1.imports.len() as int,
            );
            if known {
                (Ok(m1.call_memo[slot]->0.resolved), m1)
            } else {
                match asked_site(m1, name, args, pos) {
                    (Err(err), m2) => (Err(err), m2),
                    (Ok(resolved), m2) => (
                        Ok(resolved),
                        Machine {
                            call_memo: m2.call_memo.update(
                                slot,
                                Some(
                                    CallMemo {
                                        generation: m2.regs.generation,
                                        name: index,
                                        argc: args.len() as u8,
                                        args: codes,
                                        imports: m2.imports.len() as usize,
                                        resolved,
                                    },
                                ),
                            ),
                            ..m2
                        },
                    ),
                }
            }
        },
    }
}

/// What running something gives: its value, the run and the scope after.
pub type Gave = (Result<Datum, Fail>, Machine, Names);

/// A call the host runs, with its arguments taken off the stack. A capturing
/// call is lent the scope it is made in.
#[verifier::opaque]
pub open spec fn host_called(
    m: Machine,
    scope: Names,
    index: u32,
    name: Seq<char>,
    first: int,
    capture: bool,
    pos: Position,
) -> Gave {
    let args = above(m.stack, first);
    match site_of(m.truncate(first), index, name, args, pos) {
        (Err(err), m1) => (Err(err), m1, scope),
        (Ok(site), m1) => if capture {
            match asked_in(
                m1,
                scope,
                question(dispatch_ask(name, false, false, true, site), name, args, pos),
            ) {
                (Err(err), m2, left) => (Err(err), m2, left),
                (Ok(a), m2, left) => (reply_value(a.reply), m2, left),
            }
        } else {
            let (r, _, m2) = dispatched(m1, name, args, false, false, site, pos);
            (r, m2, scope)
        },
    }
}

/// An operand of the stack, where there is one.
pub open spec fn operand(m: Machine, i: int) -> Datum {
    if 0 <= i < m.stack.len() {
        m.stack[i]
    } else {
        unit()
    }
}

/// Whether a program has a function of this name and argument count, looking
/// from function `i` on: a method of the type given, or a plain function.
pub open spec fn defines(
    p: Program,
    this_type: Option<Seq<char>>,
    name: Seq<char>,
    arity: int,
    i: int,
) -> Result<bool, Fail>
    decreases p.functions@.len() - i,
{
    if i < 0 || i >= p.functions@.len() {
        Ok(false)
    } else {
        let f = p.functions@[i];
        match p.name_of(f.name as int) {
            None => Err(unnumbered("no name "@, f.name as nat, ""@)),
            Some(text) => if text == name && f.param_names@.len() == arity {
                match (this_type, f.this_type) {
                    (Some(wanted), Some(t)) => match p.name_of(t as int) {
                        None => Err(unnumbered("no name "@, t as nat, ""@)),
                        Some(typed) => if typed == wanted {
                            Ok(true)
                        } else {
                            defines(p, this_type, name, arity, i + 1)
                        },
                    },
                    (None, None) => Ok(true),
                    _ => defines(p, this_type, name, arity, i + 1),
                }
            } else {
                defines(p, this_type, name, arity, i + 1)
            },
        }
    }
}

/// An operand as the text a syntactic call wants.
pub open spec fn text_operand(m: Machine, i: int, pos: Position) -> Result<Seq<char>, Fail> {
    match as_text(m.heap, operand(m, i)) {
        Ok(s) => Ok(s),
        Err(actual) => Err(mismatched(m.engine, "string"@, actual, pos)),
    }
}

/// An operand as the number a syntactic call wants.
pub open spec fn int_operand(m: Machine, i: int, pos: Position) -> Result<i64, Fail> {
    match crate::heap::flat_copy(m.heap, operand(m, i)).data {
        Data::Int(n) => Ok(n),
        other => Err(mismatched(m.engine, "i64"@, name_of_type(other), pos)),
    }
}

/// Asking whether a function is defined: the program's own functions first,
/// and the host's otherwise.
pub open spec fn asked_defined(
    p: Program,
    m: Machine,
    name: Seq<char>,
    this_type: Option<Seq<char>>,
    fn_name: Seq<char>,
    arity: i64,
    first: int,
    pos: Position,
) -> (Result<Option<Datum>, Fail>, Machine) {
    match defines(p, this_type, fn_name, arity as int, 0) {
        Err(err) => (Err(err), m),
        Ok(true) => (Ok(Some(datum(Data::Bool(true)))), m),
        Ok(false) => match asked(
            m,
            question(Ask::Syntactic, name, all_copied(above(m.stack, first)), pos),
        ) {
            (Err(err), m1) => (Err(err), m1),
            (Ok(a), m1) => match a.reply {
                Reply::Value(v) => (Ok(Some(v)), m1),
                Reply::Raised(err) => (Err(err.placed(pos)), m1),
                _ => (Err(fail(FailureKind::ErrorFunctionNotFound(name), pos)), m1),
            },
        },
    }
}

/// The calls the machine answers itself: whether a variable is defined, and
/// whether a function is.
#[verifier::opaque]
pub open spec fn syntactic(
    p: Program,
    m: Machine,
    scope: Names,
    name: Seq<char>,
    argc: int,
    first: int,
    pos: Position,
) -> (Result<Option<Datum>, Fail>, Machine) {
    let absent: Fail = fail(FailureKind::ErrorFunctionNotFound(name), pos);
    if name == "is_def_var"@ {
        if argc != 1 {
            (Err(absent), m)
        } else {
            match text_operand(m, first, pos) {
                Err(err) => (Err(err), m),
                Ok(var) => (Ok(Some(datum(Data::Bool(found(scope, var) is Some)))), m),
            }
        }
    } else if name == "is_def_fn"@ {
        if argc == 2 {
            match (text_operand(m, first, pos), int_operand(m, first + 1, pos)) {
                (Err(err), _) => (Err(err), m),
                (_, Err(err)) => (Err(err), m),
                (Ok(fn_name), Ok(arity)) => asked_defined(
                    p,
                    m,
                    name,
                    None,
                    fn_name,
                    arity,
                    first,
                    pos,
                ),
            }
        } else if argc == 3 {
            match (
                text_operand(m, first, pos),
                text_operand(m, first + 1, pos),
                int_operand(m, first + 2, pos),
            ) {
                (Err(err), _, _) => (Err(err), m),
                (_, Err(err), _) => (Err(err), m),
                (_, _, Err(err)) => (Err(err), m),
                (Ok(this_type), Ok(fn_name), Ok(arity)) => asked_defined(
                    p,
                    m,
                    name,
                    Some(this_type),
                    fn_name,
                    arity,
                    first,
                    pos,
                ),
            }
        } else {
            (Err(absent), m)
        }
    } else {
        (Ok(None), m)
    }
}

/// The model of a resolution.
pub open spec fn resolution<T>(out: Result<T, Error>) -> Result<T, Fail> {
    match out {
        Ok(v) => Ok(v),
        Err(err) => Err(err@),
    }
}

fn has_function(
    p: &Program,
    this_type: &Option<String>,
    name: &str,
    arity: i64,
) -> (out: Result<bool, Error>)
    ensures
        resolution(out) == defines(
            *p,
            crate::machine::text_view(*this_type),
            name@,
            arity as int,
            0,
        ),
{
    let mut i: usize = 0;
    while i < p.functions.len()
        invariant
            i <= p.functions@.len(),
            defines(*p, crate::machine::text_view(*this_type), name@, arity as int, 0) == defines(
                *p,
                crate::machine::text_view(*this_type),
                name@,
                arity as int,
                i as int,
            ),
        decreases p.functions@.len() - i,
    {
        let f = &p.functions[i];
        let text = match p.name(f.name) {
            Some(text) => text,
            None => {
                return Err(malformed_number("no name ", f.name as u64, ""));
            },
        };
        if same_text(text, name) && arity >= 0 && f.param_names.len() as u64 == arity as u64 {
            match (this_type, f.this_type) {
                (Some(wanted), Some(t)) => match p.name(t) {
                    None => {
                        return Err(malformed_number("no name ", t as u64, ""));
                    },
                    Some(typed) => {
                        if same_text(typed, wanted.as_str()) {
                            return Ok(true);
                        }
                    },
                },
                (None, None) => {
                    return Ok(true);
                },
                _ => {},
            }
        }
        i = i + 1;
    }
    Ok(false)
}

impl<'e> Vm<'e> {
    fn ask_operator(&mut self, token: &str, lhs: &Dynamic, rhs: &Dynamic, pos: Position) -> (out:
        Result<Option<BuiltinFn>, Error>)
        requires
            old(self).wf(),
        ensures
            ({
                let (r, m) = asked_operator(old(self)@, token@, lhs@, rhs@, pos);
                resolution(out) == r && final(self).reached(old(self)@, m)
            }),
    {
        let operands = crate::assign::pair(clone_value(lhs), clone_value(rhs));
        let answer = self.ask(Ask::ResolveOperator, token, operands, pos)?;
        match answer.reply {
            Reply::Handle(handle, context) => Ok(Some(BuiltinFn { handle, context })),
            _ => Ok(None),
        }
    }

    /// The built-in for an operator site.
    pub(crate) fn resolve_operator(
        &mut self,
        at: usize,
        token: &str,
        lhs: &Dynamic,
        rhs: &Dynamic,
        pos: Position,
    ) -> (out: Result<Option<BuiltinFn>, Error>)
        requires
            old(self).wf(),
        ensures
            ({
                let (r, m) = operator_resolved(old(self)@, at, token@, lhs@, rhs@, pos);
                resolution(out) == r && final(self).reached(old(self)@, m)
            }),
    {
        proof {
            reveal(operator_resolved);
            reveal(memos_stamped);
        }
        if type_code(lhs) == 0 || type_code(rhs) == 0 {
            return self.ask_operator(token, lhs, rhs, pos);
        }
        let slot: usize = at % OPERATOR_MEMO_SLOTS;
        let kinds: u16 = operand_codes(lhs, rhs);
        if self.operator_memo[slot].answers(self.regs.generation, at, kinds) {
            return Ok(self.operator_memo[slot].resolved);
        }
        let resolved = self.ask_operator(token, lhs, rhs, pos)?;
        self.operator_memo.set(
            slot,
            OperatorMemo {
                generation: self.regs.generation,
                at: at as u32,
                operands: kinds,
                resolved,
            },
        );
        Ok(resolved)
    }

    fn resolve_site(&mut self, name: &str, args: &Vec<Dynamic>, pos: Position) -> (out: Result<
        Option<u64>,
        Error,
    >)
        requires
            old(self).wf(),
        ensures
            ({
                let (r, m) = asked_site(old(self)@, name@, all_views(args@), pos);
                resolution(out) == r && final(self).reached(old(self)@, m)
            }),
    {
        if !is_identifier(name) || self.engine.is_syntactic_fn_name(name) {
            return Ok(None);
        }
        let answer = self.ask(Ask::ResolveSite, name, copy_values(args), pos)?;
        match answer.reply {
            Reply::Handle(handle, _) => Ok(Some(handle)),
            _ => Ok(None),
        }
    }

    /// What a call site resolved to, or nothing for the ordinary way.
    pub(crate) fn call_site(
        &mut self,
        index: u32,
        name: &str,
        args: &Vec<Dynamic>,
        pos: Position,
    ) -> (out: Result<Option<u64>, Error>)
        requires
            old(self).wf(),
        ensures
            ({
                let (r, m) = site_of(old(self)@, index, name@, all_views(args@), pos);
                resolution(out) == r && final(self).reached(old(self)@, m)
            }),
    {
        proof {
            reveal(site_of);
            reveal(memos_stamped);
        }
        let codes: u32 = match arg_codes(args) {
            None => {
                return Ok(None);
            },
            Some(codes) => codes,
        };
        let argc: usize = args.len();
        let imports: usize = self.imports.len();
        let slot: usize = call_memo_slot(index, argc);
        if self.call_memo.len() == 0 {
            self.call_memo = empty_call_memo();
        }
        if let Some(memo) = &self.call_memo[slot] {
            if memo.answers(self.regs.generation, index, argc, codes, imports) {
                return Ok(memo.resolved);
            }
        }
        let resolved = self.resolve_site(name, args, pos)?;
        self.call_memo.set(
            slot,
            Some(
                CallMemo {
                    generation: self.regs.generation,
                    name: index,
                    argc: argc as u8,
                    args: codes,
                    imports,
                    resolved,
                },
            ),
        );
        Ok(resolved)
    }

    /// A call the host runs.
    pub(crate) fn call_dispatched(
        &mut self,
        index: u32,
        name: &str,
        first: usize,
        scope: &mut Scope,
        capture: bool,
        pos: Position,
    ) -> (out: VmResult)
        requires
            old(self).wf(),
        ensures
            ({
                let (r, m, sc) = host_called(
                    old(self)@,
                    old(scope)@,
                    index,
                    name@,
                    first as int,
                    capture,
                    pos,
                );
                result_view(out) == r && final(self).reached(old(self)@, m) && final(scope)@ == sc
            }),
    {
        proof {
            reveal(host_called);
        }
        let args = self.stack.take_values_from(first);
        let site = self.call_site(index, name, &args, pos)?;
        if capture {
            let native_only = site.is_none() && !is_identifier(name);
            let ask = Ask::Dispatch {
                native_only,
                by_reference: false,
                method: false,
                captures: true,
                site,
            };
            let answer = self.ask_in(scope, ask, name, args, pos)?;
            value_of(answer.reply)
        } else {
            let (out, _) = self.call_engine(name, args, false, false, site, pos);
            out
        }
    }

    /// A copy of an operand, read out of any cell, or unit where there is none.
    fn read_operand(&self, i: usize) -> (out: Dynamic)
        requires
            self.wf(),
        ensures
            out@ == crate::heap::flat_copy(self@.heap, operand(self@, i as int)),
    {
        if i < self.stack.depth() {
            self.heap.flatten_clone_value(self.stack.get(i))
        } else {
            self.heap.flatten_clone_value(&Dynamic::unit())
        }
    }

    fn operand_text(&self, i: usize, pos: Position) -> (out: Result<String, Error>)
        requires
            self.wf(),
        ensures
            match out {
                Ok(s) => text_operand(self@, i as int, pos) == Ok::<Seq<char>, Fail>(s@),
                Err(err) => text_operand(self@, i as int, pos) == Err::<Seq<char>, Fail>(err@),
            },
    {
        let value = self.read_operand(i);
        match &value.value {
            Union::Str(s) => Ok(s.clone()),
            _ => Err(mismatch(self.engine, "string", type_text(&value), pos)),
        }
    }

    fn operand_int(&self, i: usize, pos: Position) -> (out: Result<i64, Error>)
        requires
            self.wf(),
        ensures
            resolution(out) == int_operand(self@, i as int, pos),
    {
        let value = self.read_operand(i);
        match &value.value {
            Union::Int(n) => Ok(*n),
            _ => Err(mismatch(self.engine, "i64", type_text(&value), pos)),
        }
    }

    fn copied_operands(&self, first: usize) -> (out: Vec<Dynamic>)
        requires
            self.wf(),
        ensures
            all_views(out@) == all_copied(above(self@.stack, first as int)),
    {
        let mut out: Vec<Dynamic> = Vec::new();
        let depth: usize = self.stack.depth();
        let mut i: usize = first;
        while i < depth
            invariant
                first <= i,
                depth == self@.stack.len(),
                self.wf(),
                first >= depth ==> i == first,
                first < depth ==> i <= depth,
                out@.len() == i - first,
                forall|j: int|
                    0 <= j < out@.len() ==> (#[trigger] out@[j])@ == copied(
                        self@.stack[first + j],
                    ),
            decreases depth - i,
        {
            out.push(clone_value(self.stack.get(i)));
            i = i + 1;
        }
        assert(all_views(out@) =~= all_copied(above(self@.stack, first as int)));
        out
    }

    fn ask_defined(
        &mut self,
        program: &Program,
        name: &str,
        this_type: Option<String>,
        fn_name: String,
        arity: i64,
        first: usize,
        pos: Position,
    ) -> (out: Result<Option<Dynamic>, Error>)
        requires
            old(self).wf(),
        ensures
            ({
                let (r, m) = asked_defined(
                    *program,
                    old(self)@,
                    name@,
                    crate::machine::text_view(this_type),
                    fn_name@,
                    arity,
                    first as int,
                    pos,
                );
                crate::assign::option_view(out) == r && final(self).reached(old(self)@, m)
            }),
    {
        if has_function(program, &this_type, fn_name.as_str(), arity)? {
            return Ok(Some(Dynamic::from_bool(true)));
        }
        let args = self.copied_operands(first);
        let answer = self.ask(Ask::Syntactic, name, args, pos)?;
        match answer.reply {
            Reply::Value(v) => Ok(Some(v)),
            Reply::Raised(err) => Err(dispatch_failure(err, pos)),
            _ => Err(raised(FailureKind::ErrorFunctionNotFound(name.to_owned()), pos)),
        }
    }

    /// Answer a call the machine answers itself, if this is one.
    pub(crate) fn call_syntactic(
        &mut self,
        program: &Program,
        name: &str,
        argc: usize,
        first: usize,
        scope: &Scope,
        pos: Position,
    ) -> (out: Result<Option<Dynamic>, Error>)
        requires
            old(self).wf(),
        ensures
            ({
                let (r, m) = syntactic(
                    *program,
                    old(self)@,
                    scope@,
                    name@,
                    argc as int,
                    first as int,
                    pos,
                );
                crate::assign::option_view(out) == r && final(self).reached(old(self)@, m)
            }),
    {
        proof {
            reveal(syntactic);
        }
        if same_text(name, "is_def_var") {
            if argc != 1 {
                return Err(raised(FailureKind::ErrorFunctionNotFound(name.to_owned()), pos));
            }
            let var = self.operand_text(first, pos)?;
            return Ok(Some(Dynamic::from_bool(scope.contains(var.as_str()))));
        }
        if same_text(name, "is_def_fn") {
            let depth: usize = self.stack.depth();
            assert(self@.stack.len() <= depth);
            let second: usize = first.saturating_add(1);
            if argc == 2 {
                let fn_name = self.operand_text(first, pos)?;
                let arity: i64 = self.operand_int(second, pos)?;
                return self.ask_defined(program, name, None, fn_name, arity, first, pos);
            }
            if argc == 3 {
                let this_type = self.operand_text(first, pos)?;
                let fn_name = self.operand_text(second, pos)?;
                let arity: i64 = self.operand_int(first.saturating_add(2), pos)?;
                return self.ask_defined(
                    program,
                    name,
                    Some(this_type),
                    fn_name,
                    arity,
                    first,
                    pos,
                );
            }
            return Err(raised(FailureKind::ErrorFunctionNotFound(name.to_owned()), pos));
        }
        Ok(None)
    }
}

} // verus!
