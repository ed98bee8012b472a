//! Instructions and how they are written down as bytes.
//!
//! An instruction is a tag byte and its operands, each at a fixed offset from
//! the tag: sixteen- and thirty-two-bit numbers, low byte first, and single
//! bytes.
use vstd::prelude::*;

use crate::tag;

verus! {

/// Where an instruction finds an operand.
#[derive(Clone, Copy, Debug, PartialEq, Eq, Structural)]
pub enum Source {
    /// On the operand stack.
    Stack,
    /// In a local's slot.
    Local(u16),
    /// In the constant pool.
    Const(u32),
}

/// What a call by reference is made on.
#[derive(Clone, Copy, Debug, PartialEq, Eq, Structural)]
pub enum Receiver {
    Local(u16),
    Named(u32),
    This,
}

/// Whether an operator says which operator it is, by its kind byte.
#[derive(Clone, Copy, Debug, PartialEq, Eq, Structural)]
pub enum Shape {
    Plain,
    Binary(u8),
    Unary(u8),
}

/// The branch an operator swallowed: taken when its result is `when`.
#[derive(Clone, Copy, Debug, PartialEq, Eq, Structural)]
pub struct Branch {
    pub when: bool,
    pub target: u32,
}

/// A call or an operator.
#[derive(Clone, Copy, Debug, PartialEq, Eq, Structural)]
pub struct Operator {
    pub name: u16,
    pub argc: u8,
    pub capture: bool,
    pub shape: Shape,
    pub lhs: Source,
    pub rhs: Source,
    pub token: Option<u16>,
    pub branch: Option<Branch>,
}

/// An assignment to an element of a local.
#[derive(Clone, Copy, Debug, PartialEq, Eq, Structural)]
pub struct IndexSet {
    /// The chain that says the same, for what the short way declines.
    pub chain: u16,
    pub root: u16,
    pub index: Source,
    pub value: Option<u16>,
    pub kind: Option<u8>,
}

/// One instruction.
#[allow(inconsistent_fields)]
#[derive(Clone, Copy, Debug, PartialEq, Eq, Structural)]
pub enum Op {
    Const(u16),
    Unit,
    Bool(bool),
    LoadLocal(u16),
    StoreLocal { slot: u16, constant: bool },
    LoadNamed { name: u16, flatten: bool },
    AssignNamed { name: u16, op: Option<u16> },
    Declare { name: u16, constant: bool },
    AssignLocal { slot: u16, name: u16, from: Source, op: Option<u16> },
    LoadThis { flatten: bool },
    RequireThis,
    AssignThis { op: Option<u16> },
    Pop,
    EvalAst { index: u16, rewind: bool },
    Jump(u32),
    JumpIf { target: u32, when: bool },
    SkipIfNotUnit(u32),
    Operate(Operator),
    CallRef { name: u16, argc: u8, receiver: Receiver, capture: bool },
    Rotate(u8),
    MakeArray(u16),
    MakeMap(u16),
    CheckSize { index: u16, map: bool },
    Switch(u16),
    LoadShared(u16),
    Share(u16),
    ShareNamed(u16),
    MakeClosure(u16),
    IsShared,
    MakeFnPtr,
    Curry(u8),
    CallFnPtr { argc: u8, method: bool, receiver: Option<Receiver> },
    InterpolateStart,
    InterpolateAppend,
    InterpolateEnd,
    Chain { index: u16, discard: bool },
    IndexSet(IndexSet),
    IndexGet { chain: u16, root: u16, index: Source },
    UnwindTo(u16),
    Tick,
    Checkpoint,
    Statement(u16),
    PushHandler { target: u32, var: Option<u16> },
    PopHandler,
    IterInit,
    IterDrop,
    IterNext { body: u32, indexed: bool, store: Option<u16> },
    StoreShared(u16),
    Throw,
    Return,
}

/// The sixteen-bit number written at `at`, low byte first.
pub open spec fn word(code: Seq<u8>, at: int) -> u16 {
    (code[at] + 256 * code[at + 1]) as u16
}

/// The thirty-two-bit number written at `at`, low byte first.
pub open spec fn dword(code: Seq<u8>, at: int) -> u32 {
    (code[at] + 256 * code[at + 1] + 65536 * code[at + 2] + 16777216 * code[at + 3]) as u32
}

/// The sixteen-bit number written at `at`.
pub fn u16_at(code: &Vec<u8>, at: usize) -> (n: u16)
    requires
        at + 2 <= code@.len(),
    ensures
        n == word(code@, at as int),
{
    let len: usize = code.len();
    assert(at + 2 <= len);
    let (low, high) = (code[at], code[at + 1]);
    low as u16 + 256 * (high as u16)
}

/// The thirty-two-bit number written at `at`.
pub fn u32_at(code: &Vec<u8>, at: usize) -> (n: u32)
    requires
        at + 4 <= code@.len(),
    ensures
        n == dword(code@, at as int),
{
    let len: usize = code.len();
    assert(at + 4 <= len);
    let (a, b, c, d) = (code[at], code[at + 1], code[at + 2], code[at + 3]);
    a as u32 + 256 * (b as u32) + 65536 * (c as u32) + 16777216 * (d as u32)
}

/// How many bytes the instruction with this tag takes, tag included.
pub open spec fn width(tag: u8) -> Option<int> {
    if tag == tag::UNIT
        || tag == tag::FALSE
        || tag == tag::TRUE
        || tag == tag::LOAD_THIS
        || tag == tag::LOAD_THIS_SHARED
        || tag == tag::REQUIRE_THIS
        || tag == tag::ASSIGN_THIS
        || tag == tag::POP
        || tag == tag::IS_SHARED
        || tag == tag::MAKE_FN_PTR
        || tag == tag::INTERPOLATE_START
        || tag == tag::INTERPOLATE_APPEND
        || tag == tag::INTERPOLATE_END
        || tag == tag::TICK
        || tag == tag::CHECKPOINT
        || tag == tag::POP_HANDLER
        || tag == tag::ITER_INIT
        || tag == tag::ITER_DROP
        || tag == tag::THROW
        || tag == tag::RETURN {
        Some(1)
    } else if tag == tag::ROTATE
        || tag == tag::CURRY
        || tag == tag::CALL_FN_PTR
        || tag == tag::CALL_FN_PTR_METHOD
        || tag == tag::CALL_FN_PTR_ON_THIS {
        Some(2)
    } else if tag == tag::CONST
        || tag == tag::LOAD_LOCAL
        || tag == tag::STORE_LOCAL
        || tag == tag::STORE_CONST
        || tag == tag::LOAD_NAMED
        || tag == tag::LOAD_SHARED_NAMED
        || tag == tag::ASSIGN_NAMED
        || tag == tag::DECLARE_LOCAL
        || tag == tag::DECLARE_CONST
        || tag == tag::ASSIGN_THIS_OP
        || tag == tag::EVAL_AST
        || tag == tag::EVAL_AST_KEEP
        || tag == tag::MAKE_ARRAY
        || tag == tag::MAKE_MAP
        || tag == tag::CHECK_ARRAY_SIZE
        || tag == tag::CHECK_MAP_SIZE
        || tag == tag::SWITCH
        || tag == tag::LOAD_SHARED
        || tag == tag::SHARE
        || tag == tag::SHARE_NAMED
        || tag == tag::MAKE_CLOSURE
        || tag == tag::CHAIN
        || tag == tag::CHAIN_DISCARD
        || tag == tag::UNWIND_TO
        || tag == tag::STATEMENT
        || tag == tag::STORE_SHARED {
        Some(3)
    } else if tag == tag::CALL
        || tag == tag::CALL_CAPTURE
        || tag == tag::UN_OP
        || tag == tag::CALL_THIS_REF
        || tag == tag::CALL_THIS_REF_CAPTURE
        || tag == tag::CALL_FN_PTR_ON_LOCAL
        || tag == tag::CALL_FN_PTR_ON_NAMED {
        Some(4)
    } else if tag == tag::ASSIGN_NAMED_OP
        || tag == tag::ASSIGN_LOCAL
        || tag == tag::JUMP
        || tag == tag::JUMP_IF_FALSE
        || tag == tag::JUMP_IF_TRUE
        || tag == tag::SKIP_IF_NOT_UNIT
        || tag == tag::INDEX_SET
        || tag == tag::INDEX_GET
        || tag == tag::PUSH_HANDLER
        || tag == tag::ITER_NEXT
        || tag == tag::ITER_NEXT_INDEXED {
        Some(5)
    } else if tag == tag::CALL_OP
        || tag == tag::BIN_OP
        || tag == tag::CALL_LOCAL_REF
        || tag == tag::CALL_LOCAL_REF_CAPTURE
        || tag == tag::CALL_NAMED_REF
        || tag == tag::CALL_NAMED_REF_CAPTURE
        || tag == tag::INDEX_SET_OP {
        Some(6)
    } else if tag == tag::ASSIGN_LOCAL_OP
        || tag == tag::ASSIGN_LOCAL_FROM
        || tag == tag::ASSIGN_LOCAL_FROM_CONST
        || tag == tag::INDEX_SET_FROM_LOCAL
        || tag == tag::INDEX_SET_FROM_CONST
        || tag == tag::INDEX_GET_FROM_LOCAL
        || tag == tag::INDEX_GET_FROM_CONST
        || tag == tag::PUSH_HANDLER_VAR
        || tag == tag::ITER_NEXT_STORE {
        Some(7)
    } else if tag == tag::BIN_OP_RHS_LOCAL
        || tag == tag::BIN_OP_RHS_CONST
        || tag == tag::UN_OP_JF
        || tag == tag::INDEX_SET_OP_FROM_LOCAL
        || tag == tag::INDEX_SET_OP_FROM_CONST {
        Some(8)
    } else if tag == tag::ASSIGN_LOCAL_FROM_OP
        || tag == tag::ASSIGN_LOCAL_FROM_CONST_OP
        || tag == tag::INDEX_SET_FROM_LOCAL_VALUE_CONST
        || tag == tag::INDEX_SET_FROM_CONST_VALUE_CONST {
        Some(9)
    } else if tag == tag::BIN_OP_FROM_LOCAL
        || tag == tag::BIN_OP_FROM_CONST
        || tag == tag::BIN_OP_JF
        || tag == tag::INDEX_SET_OP_FROM_LOCAL_VALUE_CONST
        || tag == tag::INDEX_SET_OP_FROM_CONST_VALUE_CONST {
        Some(10)
    } else if tag == tag::BIN_OP_RHS_LOCAL_JF
        || tag == tag::BIN_OP_RHS_CONST_JF {
        Some(12)
    } else if tag == tag::BIN_OP_FROM_LOCAL_JF
        || tag == tag::BIN_OP_FROM_CONST_JF
        || tag == tag::BIN_OP_FROM_LOCAL_JT
        || tag == tag::BIN_OP_FROM_CONST_JT {
        Some(14)
    } else {
        None
    }
}

/// How many bytes the instruction with this tag takes.
pub fn width_of(tag: u8) -> (out: Option<usize>)
    ensures
        match out {
            Some(n) => width(tag) == Some(n as int) && 1 <= n <= 14,
            None => width(tag) is None,
        },
{
    if tag == tag::UNIT
        || tag == tag::FALSE
        || tag == tag::TRUE
        || tag == tag::LOAD_THIS
        || tag == tag::LOAD_THIS_SHARED
        || tag == tag::REQUIRE_THIS
        || tag == tag::ASSIGN_THIS
        || tag == tag::POP
        || tag == tag::IS_SHARED
        || tag == tag::MAKE_FN_PTR
        || tag == tag::INTERPOLATE_START
        || tag == tag::INTERPOLATE_APPEND
        || tag == tag::INTERPOLATE_END
        || tag == tag::TICK
        || tag == tag::CHECKPOINT
        || tag == tag::POP_HANDLER
        || tag == tag::ITER_INIT
        || tag == tag::ITER_DROP
        || tag == tag::THROW
        || tag == tag::RETURN {
        Some(1)
    } else if tag == tag::ROTATE
        || tag == tag::CURRY
        || tag == tag::CALL_FN_PTR
        || tag == tag::CALL_FN_PTR_METHOD
        || tag == tag::CALL_FN_PTR_ON_THIS {
        Some(2)
    } else if tag == tag::CONST
        || tag == tag::LOAD_LOCAL
        || tag == tag::STORE_LOCAL
        || tag == tag::STORE_CONST
        || tag == tag::LOAD_NAMED
        || tag == tag::LOAD_SHARED_NAMED
        || tag == tag::ASSIGN_NAMED
        || tag == tag::DECLARE_LOCAL
        || tag == tag::DECLARE_CONST
        || tag == tag::ASSIGN_THIS_OP
        || tag == tag::EVAL_AST
        || tag == tag::EVAL_AST_KEEP
        || tag == tag::MAKE_ARRAY
        || tag == tag::MAKE_MAP
        || tag == tag::CHECK_ARRAY_SIZE
        || tag == tag::CHECK_MAP_SIZE
        || tag == tag::SWITCH
        || tag == tag::LOAD_SHARED
        || tag == tag::SHARE
        || tag == tag::SHARE_NAMED
        || tag == tag::MAKE_CLOSURE
        || tag == tag::CHAIN
        || tag == tag::CHAIN_DISCARD
        || tag == tag::UNWIND_TO
        || tag == tag::STATEMENT
        || tag == tag::STORE_SHARED {
        Some(3)
    } else if tag == tag::CALL
        || tag == tag::CALL_CAPTURE
        || tag == tag::UN_OP
        || tag == tag::CALL_THIS_REF
        || tag == tag::CALL_THIS_REF_CAPTURE
        || tag == tag::CALL_FN_PTR_ON_LOCAL
        || tag == tag::CALL_FN_PTR_ON_NAMED {
        Some(4)
    } else if tag == tag::ASSIGN_NAMED_OP
        || tag == tag::ASSIGN_LOCAL
        || tag == tag::JUMP
        || tag == tag::JUMP_IF_FALSE
        || tag == tag::JUMP_IF_TRUE
        || tag == tag::SKIP_IF_NOT_UNIT
        || tag == tag::INDEX_SET
        || tag == tag::INDEX_GET
        || tag == tag::PUSH_HANDLER
        || tag == tag::ITER_NEXT
        || tag == tag::ITER_NEXT_INDEXED {
        Some(5)
    } else if tag == tag::CALL_OP
        || tag == tag::BIN_OP
        || tag == tag::CALL_LOCAL_REF
        || tag == tag::CALL_LOCAL_REF_CAPTURE
        || tag == tag::CALL_NAMED_REF
        || tag == tag::CALL_NAMED_REF_CAPTURE
        || tag == tag::INDEX_SET_OP {
        Some(6)
    } else if tag == tag::ASSIGN_LOCAL_OP
        || tag == tag::ASSIGN_LOCAL_FROM
        || tag == tag::ASSIGN_LOCAL_FROM_CONST
        || tag == tag::INDEX_SET_FROM_LOCAL
        || tag == tag::INDEX_SET_FROM_CONST
        || tag == tag::INDEX_GET_FROM_LOCAL
        || tag == tag::INDEX_GET_FROM_CONST
        || tag == tag::PUSH_HANDLER_VAR
        || tag == tag::ITER_NEXT_STORE {
        Some(7)
    } else if tag == tag::BIN_OP_RHS_LOCAL
        || tag == tag::BIN_OP_RHS_CONST
        || tag == tag::UN_OP_JF
        || tag == tag::INDEX_SET_OP_FROM_LOCAL
        || tag == tag::INDEX_SET_OP_FROM_CONST {
        Some(8)
    } else if tag == tag::ASSIGN_LOCAL_FROM_OP
        || tag == tag::ASSIGN_LOCAL_FROM_CONST_OP
        || tag == tag::INDEX_SET_FROM_LOCAL_VALUE_CONST
        || tag == tag::INDEX_SET_FROM_CONST_VALUE_CONST {
        Some(9)
    } else if tag == tag::BIN_OP_FROM_LOCAL
        || tag == tag::BIN_OP_FROM_CONST
        || tag == tag::BIN_OP_JF
        || tag == tag::INDEX_SET_OP_FROM_LOCAL_VALUE_CONST
        || tag == tag::INDEX_SET_OP_FROM_CONST_VALUE_CONST {
        Some(10)
    } else if tag == tag::BIN_OP_RHS_LOCAL_JF
        || tag == tag::BIN_OP_RHS_CONST_JF {
        Some(12)
    } else if tag == tag::BIN_OP_FROM_LOCAL_JF
        || tag == tag::BIN_OP_FROM_CONST_JF
        || tag == tag::BIN_OP_FROM_LOCAL_JT
        || tag == tag::BIN_OP_FROM_CONST_JT {
        Some(14)
    } else {
        None
    }
}

/// The instruction written at `pc`, for a tag that names one.
pub open spec fn op_at(code: Seq<u8>, pc: int) -> Op {
    let t = code[pc];
    if t == tag::CONST {
        Op::Const(word(code, pc + 1))
    } else if t == tag::UNIT {
        Op::Unit
    } else if t == tag::FALSE {
        Op::Bool(false)
    } else if t == tag::TRUE {
        Op::Bool(true)
    } else if t == tag::LOAD_LOCAL {
        Op::LoadLocal(word(code, pc + 1))
    } else if t == tag::STORE_LOCAL {
        Op::StoreLocal { slot: word(code, pc + 1), constant: false }
    } else if t == tag::STORE_CONST {
        Op::StoreLocal { slot: word(code, pc + 1), constant: true }
    } else if t == tag::LOAD_NAMED {
        Op::LoadNamed { name: word(code, pc + 1), flatten: true }
    } else if t == tag::LOAD_SHARED_NAMED {
        Op::LoadNamed { name: word(code, pc + 1), flatten: false }
    } else if t == tag::ASSIGN_NAMED {
        Op::AssignNamed { name: word(code, pc + 1), op: None }
    } else if t == tag::ASSIGN_NAMED_OP {
        Op::AssignNamed { name: word(code, pc + 1), op: Some(word(code, pc + 3)) }
    } else if t == tag::DECLARE_LOCAL {
        Op::Declare { name: word(code, pc + 1), constant: false }
    } else if t == tag::DECLARE_CONST {
        Op::Declare { name: word(code, pc + 1), constant: true }
    } else if t == tag::ASSIGN_LOCAL {
        Op::AssignLocal {
            slot: word(code, pc + 1),
            name: word(code, pc + 3),
            from: Source::Stack,
            op: None,
        }
    } else if t == tag::ASSIGN_LOCAL_OP {
        Op::AssignLocal {
            slot: word(code, pc + 1),
            name: word(code, pc + 3),
            from: Source::Stack,
            op: Some(word(code, pc + 5)),
        }
    } else if t == tag::ASSIGN_LOCAL_FROM {
        Op::AssignLocal {
            slot: word(code, pc + 1),
            name: word(code, pc + 3),
            from: Source::Local(word(code, pc + 5)),
            op: None,
        }
    } else if t == tag::ASSIGN_LOCAL_FROM_OP {
        Op::AssignLocal {
            slot: word(code, pc + 1),
            name: word(code, pc + 3),
            from: Source::Local(word(code, pc + 5)),
            op: Some(word(code, pc + 7)),
        }
    } else if t == tag::ASSIGN_LOCAL_FROM_CONST {
        Op::AssignLocal {
            slot: word(code, pc + 1),
            name: word(code, pc + 3),
            from: Source::Const(word(code, pc + 5) as u32),
            op: None,
        }
    } else if t == tag::ASSIGN_LOCAL_FROM_CONST_OP {
        Op::AssignLocal {
            slot: word(code, pc + 1),
            name: word(code, pc + 3),
            from: Source::Const(word(code, pc + 5) as u32),
            op: Some(word(code, pc + 7)),
        }
    } else if t == tag::LOAD_THIS {
        Op::LoadThis { flatten: true }
    } else if t == tag::LOAD_THIS_SHARED {
        Op::LoadThis { flatten: false }
    } else if t == tag::REQUIRE_THIS {
        Op::RequireThis
    } else if t == tag::ASSIGN_THIS {
        Op::AssignThis { op: None }
    } else if t == tag::ASSIGN_THIS_OP {
        Op::AssignThis { op: Some(word(code, pc + 1)) }
    } else if t == tag::POP {
        Op::Pop
    } else if t == tag::EVAL_AST {
        Op::EvalAst { index: word(code, pc + 1), rewind: true }
    } else if t == tag::EVAL_AST_KEEP {
        Op::EvalAst { index: word(code, pc + 1), rewind: false }
    } else if t == tag::JUMP {
        Op::Jump(dword(code, pc + 1))
    } else if t == tag::JUMP_IF_FALSE {
        Op::JumpIf { target: dword(code, pc + 1), when: false }
    } else if t == tag::JUMP_IF_TRUE {
        Op::JumpIf { target: dword(code, pc + 1), when: true }
    } else if t == tag::SKIP_IF_NOT_UNIT {
        Op::SkipIfNotUnit(dword(code, pc + 1))
    } else if t == tag::CALL {
        Op::Operate(
            Operator {
                name: word(code, pc + 1),
                argc: code[pc + 3],
                capture: false,
                shape: Shape::Plain,
                lhs: Source::Stack,
                rhs: Source::Stack,
                token: None,
                branch: None,
            },
        )
    } else if t == tag::CALL_CAPTURE {
        Op::Operate(
            Operator {
                name: word(code, pc + 1),
                argc: code[pc + 3],
                capture: true,
                shape: Shape::Plain,
                lhs: Source::Stack,
                rhs: Source::Stack,
                token: None,
                branch: None,
            },
        )
    } else if t == tag::CALL_OP {
        Op::Operate(
            Operator {
                name: word(code, pc + 1),
                argc: code[pc + 3],
                capture: false,
                shape: Shape::Plain,
                lhs: Source::Stack,
                rhs: Source::Stack,
                token: Some(word(code, pc + 4)),
                branch: None,
            },
        )
    } else if t == tag::BIN_OP {
        Op::Operate(
            Operator {
                name: word(code, pc + 1),
                argc: 2,
                capture: false,
                shape: Shape::Binary(code[pc + 3]),
                lhs: Source::Stack,
                rhs: Source::Stack,
                token: Some(word(code, pc + 4)),
                branch: None,
            },
        )
    } else if t == tag::BIN_OP_FROM_LOCAL {
        Op::Operate(
            Operator {
                name: word(code, pc + 1),
                argc: 2,
                capture: false,
                shape: Shape::Binary(code[pc + 3]),
                lhs: Source::Local(word(code, pc + 6)),
                rhs: Source::Local(word(code, pc + 8)),
                token: Some(word(code, pc + 4)),
                branch: None,
            },
        )
    } else if t == tag::BIN_OP_FROM_CONST {
        Op::Operate(
            Operator {
                name: word(code, pc + 1),
                argc: 2,
                capture: false,
                shape: Shape::Binary(code[pc + 3]),
                lhs: Source::Local(word(code, pc + 6)),
                rhs: Source::Const(word(code, pc + 8) as u32),
                token: Some(word(code, pc + 4)),
                branch: None,
            },
        )
    } else if t == tag::BIN_OP_RHS_LOCAL {
        Op::Operate(
            Operator {
                name: word(code, pc + 1),
                argc: 2,
                capture: false,
                shape: Shape::Binary(code[pc + 3]),
                lhs: Source::Stack,
                rhs: Source::Local(word(code, pc + 6)),
                token: Some(word(code, pc + 4)),
                branch: None,
            },
        )
    } else if t == tag::BIN_OP_RHS_CONST {
        Op::Operate(
            Operator {
                name: word(code, pc + 1),
                argc: 2,
                capture: false,
                shape: Shape::Binary(code[pc + 3]),
                lhs: Source::Stack,
                rhs: Source::Const(word(code, pc + 6) as u32),
                token: Some(word(code, pc + 4)),
                branch: None,
            },
        )
    } else if t == tag::BIN_OP_JF {
        Op::Operate(
            Operator {
                name: word(code, pc + 1),
                argc: 2,
                capture: false,
                shape: Shape::Binary(code[pc + 3]),
                lhs: Source::Stack,
                rhs: Source::Stack,
                token: Some(word(code, pc + 4)),
                branch: Some(Branch { when: false, target: dword(code, pc + 6) }),
            },
        )
    } else if t == tag::BIN_OP_FROM_LOCAL_JF {
        Op::Operate(
            Operator {
                name: word(code, pc + 1),
                argc: 2,
                capture: false,
                shape: Shape::Binary(code[pc + 3]),
                lhs: Source::Local(word(code, pc + 6)),
                rhs: Source::Local(word(code, pc + 8)),
                token: Some(word(code, pc + 4)),
                branch: Some(Branch { when: false, target: dword(code, pc + 10) }),
            },
        )
    } else if t == tag::BIN_OP_FROM_CONST_JF {
        Op::Operate(
            Operator {
                name: word(code, pc + 1),
                argc: 2,
                capture: false,
                shape: Shape::Binary(code[pc + 3]),
                lhs: Source::Local(word(code, pc + 6)),
                rhs: Source::Const(word(code, pc + 8) as u32),
                token: Some(word(code, pc + 4)),
                branch: Some(Branch { when: false, target: dword(code, pc + 10) }),
            },
        )
    } else if t == tag::BIN_OP_FROM_LOCAL_JT {
        Op::Operate(
            Operator {
                name: word(code, pc + 1),
                argc: 2,
                capture: false,
                shape: Shape::Binary(code[pc + 3]),
                lhs: Source::Local(word(code, pc + 6)),
                rhs: Source::Local(word(code, pc + 8)),
                token: Some(word(code, pc + 4)),
                branch: Some(Branch { when: true, target: dword(code, pc + 10) }),
            },
        )
    } else if t == tag::BIN_OP_FROM_CONST_JT {
        Op::Operate(
            Operator {
                name: word(code, pc + 1),
                argc: 2,
                capture: false,
                shape: Shape::Binary(code[pc + 3]),
                lhs: Source::Local(word(code, pc + 6)),
                rhs: Source::Const(word(code, pc + 8) as u32),
                token: Some(word(code, pc + 4)),
                branch: Some(Branch { when: true, target: dword(code, pc + 10) }),
            },
        )
    } else if t == tag::BIN_OP_RHS_LOCAL_JF {
        Op::Operate(
            Operator {
                name: word(code, pc + 1),
                argc: 2,
                capture: false,
                shape: Shape::Binary(code[pc + 3]),
                lhs: Source::Stack,
                rhs: Source::Local(word(code, pc + 6)),
                token: Some(word(code, pc + 4)),
                branch: Some(Branch { when: false, target: dword(code, pc + 8) }),
            },
        )
    } else if t == tag::BIN_OP_RHS_CONST_JF {
        Op::Operate(
            Operator {
                name: word(code, pc + 1),
                argc: 2,
                capture: false,
                shape: Shape::Binary(code[pc + 3]),
                lhs: Source::Stack,
                rhs: Source::Const(word(code, pc + 6) as u32),
                token: Some(word(code, pc + 4)),
                branch: Some(Branch { when: false, target: dword(code, pc + 8) }),
            },
        )
    } else if t == tag::UN_OP {
        Op::Operate(
            Operator {
                name: word(code, pc + 1),
                argc: 1,
                capture: false,
                shape: Shape::Unary(code[pc + 3]),
                lhs: Source::Stack,
                rhs: Source::Stack,
                token: None,
                branch: None,
            },
        )
    } else if t == tag::UN_OP_JF {
        Op::Operate(
            Operator {
                name: word(code, pc + 1),
                argc: 1,
                capture: false,
                shape: Shape::Unary(code[pc + 3]),
                lhs: Source::Stack,
                rhs: Source::Stack,
                token: None,
                branch: Some(Branch { when: false, target: dword(code, pc + 4) }),
            },
        )
    } else if t == tag::CALL_LOCAL_REF {
        Op::CallRef {
            name: word(code, pc + 1),
            argc: code[pc + 3],
            receiver: Receiver::Local(word(code, pc + 4)),
            capture: false,
        }
    } else if t == tag::CALL_LOCAL_REF_CAPTURE {
        Op::CallRef {
            name: word(code, pc + 1),
            argc: code[pc + 3],
            receiver: Receiver::Local(word(code, pc + 4)),
            capture: true,
        }
    } else if t == tag::CALL_NAMED_REF {
        Op::CallRef {
            name: word(code, pc + 1),
            argc: code[pc + 3],
            receiver: Receiver::Named(word(code, pc + 4) as u32),
            capture: false,
        }
    } else if t == tag::CALL_NAMED_REF_CAPTURE {
        Op::CallRef {
            name: word(code, pc + 1),
            argc: code[pc + 3],
            receiver: Receiver::Named(word(code, pc + 4) as u32),
            capture: true,
        }
    } else if t == tag::CALL_THIS_REF {
        Op::CallRef {
            name: word(code, pc + 1),
            argc: code[pc + 3],
            receiver: Receiver::This,
            capture: false,
        }
    } else if t == tag::CALL_THIS_REF_CAPTURE {
        Op::CallRef {
            name: word(code, pc + 1),
            argc: code[pc + 3],
            receiver: Receiver::This,
            capture: true,
        }
    } else if t == tag::ROTATE {
        Op::Rotate(code[pc + 1])
    } else if t == tag::MAKE_ARRAY {
        Op::MakeArray(word(code, pc + 1))
    } else if t == tag::MAKE_MAP {
        Op::MakeMap(word(code, pc + 1))
    } else if t == tag::CHECK_ARRAY_SIZE {
        Op::CheckSize { index: word(code, pc + 1), map: false }
    } else if t == tag::CHECK_MAP_SIZE {
        Op::CheckSize { index: word(code, pc + 1), map: true }
    } else if t == tag::SWITCH {
        Op::Switch(word(code, pc + 1))
    } else if t == tag::LOAD_SHARED {
        Op::LoadShared(word(code, pc + 1))
    } else if t == tag::SHARE {
        Op::Share(word(code, pc + 1))
    } else if t == tag::SHARE_NAMED {
        Op::ShareNamed(word(code, pc + 1))
    } else if t == tag::MAKE_CLOSURE {
        Op::MakeClosure(word(code, pc + 1))
    } else if t == tag::IS_SHARED {
        Op::IsShared
    } else if t == tag::MAKE_FN_PTR {
        Op::MakeFnPtr
    } else if t == tag::CURRY {
        Op::Curry(code[pc + 1])
    } else if t == tag::CALL_FN_PTR {
        Op::CallFnPtr { argc: code[pc + 1], method: false, receiver: None }
    } else if t == tag::CALL_FN_PTR_METHOD {
        Op::CallFnPtr { argc: code[pc + 1], method: true, receiver: None }
    } else if t == tag::CALL_FN_PTR_ON_LOCAL {
        Op::CallFnPtr {
            argc: code[pc + 1],
            method: true,
            receiver: Some(Receiver::Local(word(code, pc + 2))),
        }
    } else if t == tag::CALL_FN_PTR_ON_NAMED {
        Op::CallFnPtr {
            argc: code[pc + 1],
            method: true,
            receiver: Some(Receiver::Named(word(code, pc + 2) as u32)),
        }
    } else if t == tag::CALL_FN_PTR_ON_THIS {
        Op::CallFnPtr { argc: code[pc + 1], method: true, receiver: Some(Receiver::This) }
    } else if t == tag::INTERPOLATE_START {
        Op::InterpolateStart
    } else if t == tag::INTERPOLATE_APPEND {
        Op::InterpolateAppend
    } else if t == tag::INTERPOLATE_END {
        Op::InterpolateEnd
    } else if t == tag::CHAIN {
        Op::Chain { index: word(code, pc + 1), discard: false }
    } else if t == tag::CHAIN_DISCARD {
        Op::Chain { index: word(code, pc + 1), discard: true }
    } else if t == tag::INDEX_SET {
        Op::IndexSet(
            IndexSet {
                chain: word(code, pc + 1),
                root: word(code, pc + 3),
                index: Source::Stack,
                value: None,
                kind: None,
            },
        )
    } else if t == tag::INDEX_SET_FROM_LOCAL {
        Op::IndexSet(
            IndexSet {
                chain: word(code, pc + 1),
                root: word(code, pc + 3),
                index: Source::Local(word(code, pc + 5)),
                value: None,
                kind: None,
            },
        )
    } else if t == tag::INDEX_SET_FROM_CONST {
        Op::IndexSet(
            IndexSet {
                chain: word(code, pc + 1),
                root: word(code, pc + 3),
                index: Source::Const(word(code, pc + 5) as u32),
                value: None,
                kind: None,
            },
        )
    } else if t == tag::INDEX_SET_FROM_LOCAL_VALUE_CONST {
        Op::IndexSet(
            IndexSet {
                chain: word(code, pc + 1),
                root: word(code, pc + 3),
                index: Source::Local(word(code, pc + 5)),
                value: Some(word(code, pc + 7)),
                kind: None,
            },
        )
    } else if t == tag::INDEX_SET_FROM_CONST_VALUE_CONST {
        Op::IndexSet(
            IndexSet {
                chain: word(code, pc + 1),
                root: word(code, pc + 3),
                index: Source::Const(word(code, pc + 5) as u32),
                value: Some(word(code, pc + 7)),
                kind: None,
            },
        )
    } else if t == tag::INDEX_SET_OP {
        Op::IndexSet(
            IndexSet {
                chain: word(code, pc + 1),
                root: word(code, pc + 3),
                index: Source::Stack,
                value: None,
                kind: Some(code[pc + 5]),
            },
        )
    } else if t == tag::INDEX_SET_OP_FROM_LOCAL {
        Op::IndexSet(
            IndexSet {
                chain: word(code, pc + 1),
                root: word(code, pc + 3),
                index: Source::Local(word(code, pc + 5)),
                value: None,
                kind: Some(code[pc + 7]),
            },
        )
    } else if t == tag::INDEX_SET_OP_FROM_CONST {
        Op::IndexSet(
            IndexSet {
                chain: word(code, pc + 1),
                root: word(code, pc + 3),
                index: Source::Const(word(code, pc + 5) as u32),
                value: None,
                kind: Some(code[pc + 7]),
            },
        )
    } else if t == tag::INDEX_SET_OP_FROM_LOCAL_VALUE_CONST {
        Op::IndexSet(
            IndexSet {
                chain: word(code, pc + 1),
                root: word(code, pc + 3),
                index: Source::Local(word(code, pc + 5)),
                value: Some(word(code, pc + 7)),
                kind: Some(code[pc + 9]),
            },
        )
    } else if t == tag::INDEX_SET_OP_FROM_CONST_VALUE_CONST {
        Op::IndexSet(
            IndexSet {
                chain: word(code, pc + 1),
                root: word(code, pc + 3),
                index: Source::Const(word(code, pc + 5) as u32),
                value: Some(word(code, pc + 7)),
                kind: Some(code[pc + 9]),
            },
        )
    } else if t == tag::INDEX_GET {
        Op::IndexGet { chain: word(code, pc + 1), root: word(code, pc + 3), index: Source::Stack }
    } else if t == tag::INDEX_GET_FROM_LOCAL {
        Op::IndexGet {
            chain: word(code, pc + 1),
            root: word(code, pc + 3),
            index: Source::Local(word(code, pc + 5)),
        }
    } else if t == tag::INDEX_GET_FROM_CONST {
        Op::IndexGet {
            chain: word(code, pc + 1),
            root: word(code, pc + 3),
            index: Source::Const(word(code, pc + 5) as u32),
        }
    } else if t == tag::UNWIND_TO {
        Op::UnwindTo(word(code, pc + 1))
    } else if t == tag::TICK {
        Op::Tick
    } else if t == tag::CHECKPOINT {
        Op::Checkpoint
    } else if t == tag::STATEMENT {
        Op::Statement(word(code, pc + 1))
    } else if t == tag::PUSH_HANDLER {
        Op::PushHandler { target: dword(code, pc + 1), var: None }
    } else if t == tag::PUSH_HANDLER_VAR {
        Op::PushHandler { target: dword(code, pc + 1), var: Some(word(code, pc + 5)) }
    } else if t == tag::POP_HANDLER {
        Op::PopHandler
    } else if t == tag::ITER_INIT {
        Op::IterInit
    } else if t == tag::ITER_DROP {
        Op::IterDrop
    } else if t == tag::ITER_NEXT {
        Op::IterNext { body: dword(code, pc + 1), indexed: false, store: None }
    } else if t == tag::ITER_NEXT_INDEXED {
        Op::IterNext { body: dword(code, pc + 1), indexed: true, store: None }
    } else if t == tag::ITER_NEXT_STORE {
        Op::IterNext { body: dword(code, pc + 1), indexed: false, store: Some(word(code, pc + 5)) }
    } else if t == tag::STORE_SHARED {
        Op::StoreShared(word(code, pc + 1))
    } else if t == tag::THROW {
        Op::Throw
    } else {
        Op::Return
    }
}

/// Why no instruction can be read at an address.
#[derive(Clone, Copy, Debug, PartialEq, Eq, Structural)]
pub enum Unreadable {
    /// The address is past the end of the code.
    End,
    /// The tag names no instruction.
    Unknown,
    /// The instruction's operands run past the end of the code.
    Truncated,
}

/// What reading an instruction gives: the instruction and its width.
pub open spec fn decoded(code: Seq<u8>, pc: int) -> Result<(Op, int), Unreadable> {
    if pc >= code.len() {
        Err(Unreadable::End)
    } else {
        match width(code[pc]) {
            None => Err(Unreadable::Unknown),
            Some(n) => if pc + n > code.len() {
                Err(Unreadable::Truncated)
            } else {
                Ok((op_at(code, pc), n))
            },
        }
    }
}

#[verifier::rlimit(60)]
fn read_op(code: &Vec<u8>, pc: usize) -> (op: Op)
    requires
        pc < code@.len(),
        width(code@[pc as int]) matches Some(n) && pc + n <= code@.len(),
    ensures
        op == op_at(code@, pc as int),
{
    let len: usize = code.len();
    assert(pc < len);
    let t: u8 = code[pc];
    if t == tag::CONST {
        Op::Const(u16_at(code, pc + 1))
    } else if t == tag::UNIT {
        Op::Unit
    } else if t == tag::FALSE {
        Op::Bool(false)
    } else if t == tag::TRUE {
        Op::Bool(true)
    } else if t == tag::LOAD_LOCAL {
        Op::LoadLocal(u16_at(code, pc + 1))
    } else if t == tag::STORE_LOCAL {
        Op::StoreLocal { slot: u16_at(code, pc + 1), constant: false }
    } else if t == tag::STORE_CONST {
        Op::StoreLocal { slot: u16_at(code, pc + 1), constant: true }
    } else if t == tag::LOAD_NAMED {
        Op::LoadNamed { name: u16_at(code, pc + 1), flatten: true }
    } else if t == tag::LOAD_SHARED_NAMED {
        Op::LoadNamed { name: u16_at(code, pc + 1), flatten: false }
    } else if t == tag::ASSIGN_NAMED {
        Op::AssignNamed { name: u16_at(code, pc + 1), op: None }
    } else if t == tag::ASSIGN_NAMED_OP {
        Op::AssignNamed { name: u16_at(code, pc + 1), op: Some(u16_at(code, pc + 3)) }
    } else if t == tag::DECLARE_LOCAL {
        Op::Declare { name: u16_at(code, pc + 1), constant: false }
    } else if t == tag::DECLARE_CONST {
        Op::Declare { name: u16_at(code, pc + 1), constant: true }
    } else if t == tag::ASSIGN_LOCAL {
        Op::AssignLocal {
            slot: u16_at(code, pc + 1),
            name: u16_at(code, pc + 3),
            from: Source::Stack,
            op: None,
        }
    } else if t == tag::ASSIGN_LOCAL_OP {
        Op::AssignLocal {
            slot: u16_at(code, pc + 1),
            name: u16_at(code, pc + 3),
            from: Source::Stack,
            op: Some(u16_at(code, pc + 5)),
        }
    } else if t == tag::ASSIGN_LOCAL_FROM {
        Op::AssignLocal {
            slot: u16_at(code, pc + 1),
            name: u16_at(code, pc + 3),
            from: Source::Local(u16_at(code, pc + 5)),
            op: None,
        }
    } else if t == tag::ASSIGN_LOCAL_FROM_OP {
        Op::AssignLocal {
            slot: u16_at(code, pc + 1),
            name: u16_at(code, pc + 3),
            from: Source::Local(u16_at(code, pc + 5)),
            op: Some(u16_at(code, pc + 7)),
        }
    } else if t == tag::ASSIGN_LOCAL_FROM_CONST {
        Op::AssignLocal {
            slot: u16_at(code, pc + 1),
            name: u16_at(code, pc + 3),
            from: Source::Const(u16_at(code, pc + 5) as u32),
            op: None,
        }
    } else if t == tag::ASSIGN_LOCAL_FROM_CONST_OP {
        Op::AssignLocal {
            slot: u16_at(code, pc + 1),
            name: u16_at(code, pc + 3),
            from: Source::Const(u16_at(code, pc + 5) as u32),
            op: Some(u16_at(code, pc + 7)),
        }
    } else if t == tag::LOAD_THIS {
        Op::LoadThis { flatten: true }
    } else if t == tag::LOAD_THIS_SHARED {
        Op::LoadThis { flatten: false }
    } else if t == tag::REQUIRE_THIS {
        Op::RequireThis
    } else if t == tag::ASSIGN_THIS {
        Op::AssignThis { op: None }
    } else if t == tag::ASSIGN_THIS_OP {
        Op::AssignThis { op: Some(u16_at(code, pc + 1)) }
    } else if t == tag::POP {
        Op::Pop
    } else if t == tag::EVAL_AST {
        Op::EvalAst { index: u16_at(code, pc + 1), rewind: true }
    } else if t == tag::EVAL_AST_KEEP {
        Op::EvalAst { index: u16_at(code, pc + 1), rewind: false }
    } else if t == tag::JUMP {
        Op::Jump(u32_at(code, pc + 1))
    } else if t == tag::JUMP_IF_FALSE {
        Op::JumpIf { target: u32_at(code, pc + 1), when: false }
    } else if t == tag::JUMP_IF_TRUE {
        Op::JumpIf { target: u32_at(code, pc + 1), when: true }
    } else if t == tag::SKIP_IF_NOT_UNIT {
        Op::SkipIfNotUnit(u32_at(code, pc + 1))
    } else if t == tag::CALL {
        Op::Operate(
            Operator {
                name: u16_at(code, pc + 1),
                argc: code[pc + 3],
                capture: false,
                shape: Shape::Plain,
                lhs: Source::Stack,
                rhs: Source::Stack,
                token: None,
                branch: None,
            },
        )
    } else if t == tag::CALL_CAPTURE {
        Op::Operate(
            Operator {
                name: u16_at(code, pc + 1),
                argc: code[pc + 3],
                capture: true,
                shape: Shape::Plain,
                lhs: Source::Stack,
                rhs: Source::Stack,
                token: None,
                branch: None,
            },
        )
    } else if t == tag::CALL_OP {
        Op::Operate(
            Operator {
                name: u16_at(code, pc + 1),
                argc: code[pc + 3],
                capture: false,
                shape: Shape::Plain,
                lhs: Source::Stack,
                rhs: Source::Stack,
                token: Some(u16_at(code, pc + 4)),
                branch: None,
            },
        )
    } else if t == tag::BIN_OP {
        Op::Operate(
            Operator {
                name: u16_at(code, pc + 1),
                argc: 2,
                capture: false,
                shape: Shape::Binary(code[pc + 3]),
                lhs: Source::Stack,
                rhs: Source::Stack,
                token: Some(u16_at(code, pc + 4)),
                branch: None,
            },
        )
    } else if t == tag::BIN_OP_FROM_LOCAL {
        Op::Operate(
            Operator {
                name: u16_at(code, pc + 1),
                argc: 2,
                capture: false,
                shape: Shape::Binary(code[pc + 3]),
                lhs: Source::Local(u16_at(code, pc + 6)),
                rhs: Source::Local(u16_at(code, pc + 8)),
                token: Some(u16_at(code, pc + 4)),
                branch: None,
            },
        )
    } else if t == tag::BIN_OP_FROM_CONST {
        Op::Operate(
            Operator {
                name: u16_at(code, pc + 1),
                argc: 2,
                capture: false,
                shape: Shape::Binary(code[pc + 3]),
                lhs: Source::Local(u16_at(code, pc + 6)),
                rhs: Source::Const(u16_at(code, pc + 8) as u32),
                token: Some(u16_at(code, pc + 4)),
                branch: None,
            },
        )
    } else if t == tag::BIN_OP_RHS_LOCAL {
        Op::Operate(
            Operator {
                name: u16_at(code, pc + 1),
                argc: 2,
                capture: false,
                shape: Shape::Binary(code[pc + 3]),
                lhs: Source::Stack,
                rhs: Source::Local(u16_at(code, pc + 6)),
                token: Some(u16_at(code, pc + 4)),
                branch: None,
            },
        )
    } else if t == tag::BIN_OP_RHS_CONST {
        Op::Operate(
            Operator {
                name: u16_at(code, pc + 1),
                argc: 2,
                capture: false,
                shape: Shape::Binary(code[pc + 3]),
                lhs: Source::Stack,
                rhs: Source::Const(u16_at(code, pc + 6) as u32),
                token: Some(u16_at(code, pc + 4)),
                branch: None,
            },
        )
    } else if t == tag::BIN_OP_JF {
        Op::Operate(
            Operator {
                name: u16_at(code, pc + 1),
                argc: 2,
                capture: false,
                shape: Shape::Binary(code[pc + 3]),
                lhs: Source::Stack,
                rhs: Source::Stack,
                token: Some(u16_at(code, pc + 4)),
                branch: Some(Branch { when: false, target: u32_at(code, pc + 6) }),
            },
        )
    } else if t == tag::BIN_OP_FROM_LOCAL_JF {
        Op::Operate(
            Operator {
                name: u16_at(code, pc + 1),
                argc: 2,
                capture: false,
                shape: Shape::Binary(code[pc + 3]),
                lhs: Source::Local(u16_at(code, pc + 6)),
                rhs: Source::Local(u16_at(code, pc + 8)),
                token: Some(u16_at(code, pc + 4)),
                branch: Some(Branch { when: false, target: u32_at(code, pc + 10) }),
            },
        )
    } else if t == tag::BIN_OP_FROM_CONST_JF {
        Op::Operate(
            Operator {
                name: u16_at(code, pc + 1),
                argc: 2,
                capture: false,
                shape: Shape::Binary(code[pc + 3]),
                lhs: Source::Local(u16_at(code, pc + 6)),
                rhs: Source::Const(u16_at(code, pc + 8) as u32),
                token: Some(u16_at(code, pc + 4)),
                branch: Some(Branch { when: false, target: u32_at(code, pc + 10) }),
            },
        )
    } else if t == tag::BIN_OP_FROM_LOCAL_JT {
        Op::Operate(
            Operator {
                name: u16_at(code, pc + 1),
                argc: 2,
                capture: false,
                shape: Shape::Binary(code[pc + 3]),
                lhs: Source::Local(u16_at(code, pc + 6)),
                rhs: Source::Local(u16_at(code, pc + 8)),
                token: Some(u16_at(code, pc + 4)),
                branch: Some(Branch { when: true, target: u32_at(code, pc + 10) }),
            },
        )
    } else if t == tag::BIN_OP_FROM_CONST_JT {
        Op::Operate(
            Operator {
                name: u16_at(code, pc + 1),
                argc: 2,
                capture: false,
                shape: Shape::Binary(code[pc + 3]),
                lhs: Source::Local(u16_at(code, pc + 6)),
                rhs: Source::Const(u16_at(code, pc + 8) as u32),
                token: Some(u16_at(code, pc + 4)),
                branch: Some(Branch { when: true, target: u32_at(code, pc + 10) }),
            },
        )
    } else if t == tag::BIN_OP_RHS_LOCAL_JF {
        Op::Operate(
            Operator {
                name: u16_at(code, pc + 1),
                argc: 2,
                capture: false,
                shape: Shape::Binary(code[pc + 3]),
                lhs: Source::Stack,
                rhs: Source::Local(u16_at(code, pc + 6)),
                token: Some(u16_at(code, pc + 4)),
                branch: Some(Branch { when: false, target: u32_at(code, pc + 8) }),
            },
        )
    } else if t == tag::BIN_OP_RHS_CONST_JF {
        Op::Operate(
            Operator {
                name: u16_at(code, pc + 1),
                argc: 2,
                capture: false,
                shape: Shape::Binary(code[pc + 3]),
                lhs: Source::Stack,
                rhs: Source::Const(u16_at(code, pc + 6) as u32),
                token: Some(u16_at(code, pc + 4)),
                branch: Some(Branch { when: false, target: u32_at(code, pc + 8) }),
            },
        )
    } else if t == tag::UN_OP {
        Op::Operate(
            Operator {
                name: u16_at(code, pc + 1),
                argc: 1,
                capture: false,
                shape: Shape::Unary(code[pc + 3]),
                lhs: Source::Stack,
                rhs: Source::Stack,
                token: None,
                branch: None,
            },
        )
    } else if t == tag::UN_OP_JF {
        Op::Operate(
            Operator {
                name: u16_at(code, pc + 1),
                argc: 1,
                capture: false,
                shape: Shape::Unary(code[pc + 3]),
                lhs: Source::Stack,
                rhs: Source::Stack,
                token: None,
                branch: Some(Branch { when: false, target: u32_at(code, pc + 4) }),
            },
        )
    } else if t == tag::CALL_LOCAL_REF {
        Op::CallRef {
            name: u16_at(code, pc + 1),
            argc: code[pc + 3],
            receiver: Receiver::Local(u16_at(code, pc + 4)),
            capture: false,
        }
    } else if t == tag::CALL_LOCAL_REF_CAPTURE {
        Op::CallRef {
            name: u16_at(code, pc + 1),
            argc: code[pc + 3],
            receiver: Receiver::Local(u16_at(code, pc + 4)),
            capture: true,
        }
    } else if t == tag::CALL_NAMED_REF {
        Op::CallRef {
            name: u16_at(code, pc + 1),
            argc: code[pc + 3],
            receiver: Receiver::Named(u16_at(code, pc + 4) as u32),
            capture: false,
        }
    } else if t == tag::CALL_NAMED_REF_CAPTURE {
        Op::CallRef {
            name: u16_at(code, pc + 1),
            argc: code[pc + 3],
            receiver: Receiver::Named(u16_at(code, pc + 4) as u32),
            capture: true,
        }
    } else if t == tag::CALL_THIS_REF {
        Op::CallRef {
            name: u16_at(code, pc + 1),
            argc: code[pc + 3],
            receiver: Receiver::This,
            capture: false,
        }
    } else if t == tag::CALL_THIS_REF_CAPTURE {
        Op::CallRef {
            name: u16_at(code, pc + 1),
            argc: code[pc + 3],
            receiver: Receiver::This,
            capture: true,
        }
    } else if t == tag::ROTATE {
        Op::Rotate(code[pc + 1])
    } else if t == tag::MAKE_ARRAY {
        Op::MakeArray(u16_at(code, pc + 1))
    } else if t == tag::MAKE_MAP {
        Op::MakeMap(u16_at(code, pc + 1))
    } else if t == tag::CHECK_ARRAY_SIZE {
        Op::CheckSize { index: u16_at(code, pc + 1), map: false }
    } else if t == tag::CHECK_MAP_SIZE {
        Op::CheckSize { index: u16_at(code, pc + 1), map: true }
    } else if t == tag::SWITCH {
        Op::Switch(u16_at(code, pc + 1))
    } else if t == tag::LOAD_SHARED {
        Op::LoadShared(u16_at(code, pc + 1))
    } else if t == tag::SHARE {
        Op::Share(u16_at(code, pc + 1))
    } else if t == tag::SHARE_NAMED {
        Op::ShareNamed(u16_at(code, pc + 1))
    } else if t == tag::MAKE_CLOSURE {
        Op::MakeClosure(u16_at(code, pc + 1))
    } else if t == tag::IS_SHARED {
        Op::IsShared
    } else if t == tag::MAKE_FN_PTR {
        Op::MakeFnPtr
    } else if t == tag::CURRY {
        Op::Curry(code[pc + 1])
    } else if t == tag::CALL_FN_PTR {
        Op::CallFnPtr { argc: code[pc + 1], method: false, receiver: None }
    } else if t == tag::CALL_FN_PTR_METHOD {
        Op::CallFnPtr { argc: code[pc + 1], method: true, receiver: None }
    } else if t == tag::CALL_FN_PTR_ON_LOCAL {
        Op::CallFnPtr {
            argc: code[pc + 1],
            method: true,
            receiver: Some(Receiver::Local(u16_at(code, pc + 2))),
        }
    } else if t == tag::CALL_FN_PTR_ON_NAMED {
        Op::CallFnPtr {
            argc: code[pc + 1],
            method: true,
            receiver: Some(Receiver::Named(u16_at(code, pc + 2) as u32)),
        }
    } else if t == tag::CALL_FN_PTR_ON_THIS {
        Op::CallFnPtr { argc: code[pc + 1], method: true, receiver: Some(Receiver::This) }
    } else if t == tag::INTERPOLATE_START {
        Op::InterpolateStart
    } else if t == tag::INTERPOLATE_APPEND {
        Op::InterpolateAppend
    } else if t == tag::INTERPOLATE_END {
        Op::InterpolateEnd
    } else if t == tag::CHAIN {
        Op::Chain { index: u16_at(code, pc + 1), discard: false }
    } else if t == tag::CHAIN_DISCARD {
        Op::Chain { index: u16_at(code, pc + 1), discard: true }
    } else if t == tag::INDEX_SET {
        Op::IndexSet(
            IndexSet {
                chain: u16_at(code, pc + 1),
                root: u16_at(code, pc + 3),
                index: Source::Stack,
                value: None,
                kind: None,
            },
        )
    } else if t == tag::INDEX_SET_FROM_LOCAL {
        Op::IndexSet(
            IndexSet {
                chain: u16_at(code, pc + 1),
                root: u16_at(code, pc + 3),
                index: Source::Local(u16_at(code, pc + 5)),
                value: None,
                kind: None,
            },
        )
    } else if t == tag::INDEX_SET_FROM_CONST {
        Op::IndexSet(
            IndexSet {
                chain: u16_at(code, pc + 1),
                root: u16_at(code, pc + 3),
                index: Source::Const(u16_at(code, pc + 5) as u32),
                value: None,
                kind: None,
            },
        )
    } else if t == tag::INDEX_SET_FROM_LOCAL_VALUE_CONST {
        Op::IndexSet(
            IndexSet {
                chain: u16_at(code, pc + 1),
                root: u16_at(code, pc + 3),
                index: Source::Local(u16_at(code, pc + 5)),
                value: Some(u16_at(code, pc + 7)),
                kind: None,
            },
        )
    } else if t == tag::INDEX_SET_FROM_CONST_VALUE_CONST {
        Op::IndexSet(
            IndexSet {
                chain: u16_at(code, pc + 1),
                root: u16_at(code, pc + 3),
                index: Source::Const(u16_at(code, pc + 5) as u32),
                value: Some(u16_at(code, pc + 7)),
                kind: None,
            },
        )
    } else if t == tag::INDEX_SET_OP {
        Op::IndexSet(
            IndexSet {
                chain: u16_at(code, pc + 1),
                root: u16_at(code, pc + 3),
                index: Source::Stack,
                value: None,
                kind: Some(code[pc + 5]),
            },
        )
    } else if t == tag::INDEX_SET_OP_FROM_LOCAL {
        Op::IndexSet(
            IndexSet {
                chain: u16_at(code, pc + 1),
                root: u16_at(code, pc + 3),
                index: Source::Local(u16_at(code, pc + 5)),
                value: None,
                kind: Some(code[pc + 7]),
            },
        )
    } else if t == tag::INDEX_SET_OP_FROM_CONST {
        Op::IndexSet(
            IndexSet {
                chain: u16_at(code, pc + 1),
                root: u16_at(code, pc + 3),
                index: Source::Const(u16_at(code, pc + 5) as u32),
                value: None,
                kind: Some(code[pc + 7]),
            },
        )
    } else if t == tag::INDEX_SET_OP_FROM_LOCAL_VALUE_CONST {
        Op::IndexSet(
            IndexSet {
                chain: u16_at(code, pc + 1),
                root: u16_at(code, pc + 3),
                index: Source::Local(u16_at(code, pc + 5)),
                value: Some(u16_at(code, pc + 7)),
                kind: Some(code[pc + 9]),
            },
        )
    } else if t == tag::INDEX_SET_OP_FROM_CONST_VALUE_CONST {
        Op::IndexSet(
            IndexSet {
                chain: u16_at(code, pc + 1),
                root: u16_at(code, pc + 3),
                index: Source::Const(u16_at(code, pc + 5) as u32),
                value: Some(u16_at(code, pc + 7)),
                kind: Some(code[pc + 9]),
            },
        )
    } else if t == tag::INDEX_GET {
        Op::IndexGet {
            chain: u16_at(code, pc + 1),
            root: u16_at(code, pc + 3),
            index: Source::Stack,
        }
    } else if t == tag::INDEX_GET_FROM_LOCAL {
        Op::IndexGet {
            chain: u16_at(code, pc + 1),
            root: u16_at(code, pc + 3),
            index: Source::Local(u16_at(code, pc + 5)),
        }
    } else if t == tag::INDEX_GET_FROM_CONST {
        Op::IndexGet {
            chain: u16_at(code, pc + 1),
            root: u16_at(code, pc + 3),
            index: Source::Const(u16_at(code, pc + 5) as u32),
        }
    } else if t == tag::UNWIND_TO {
        Op::UnwindTo(u16_at(code, pc + 1))
    } else if t == tag::TICK {
        Op::Tick
    } else if t == tag::CHECKPOINT {
        Op::Checkpoint
    } else if t == tag::STATEMENT {
        Op::Statement(u16_at(code, pc + 1))
    } else if t == tag::PUSH_HANDLER {
        Op::PushHandler { target: u32_at(code, pc + 1), var: None }
    } else if t == tag::PUSH_HANDLER_VAR {
        Op::PushHandler { target: u32_at(code, pc + 1), var: Some(u16_at(code, pc + 5)) }
    } else if t == tag::POP_HANDLER {
        Op::PopHandler
    } else if t == tag::ITER_INIT {
        Op::IterInit
    } else if t == tag::ITER_DROP {
        Op::IterDrop
    } else if t == tag::ITER_NEXT {
        Op::IterNext { body: u32_at(code, pc + 1), indexed: false, store: None }
    } else if t == tag::ITER_NEXT_INDEXED {
        Op::IterNext { body: u32_at(code, pc + 1), indexed: true, store: None }
    } else if t == tag::ITER_NEXT_STORE {
        Op::IterNext {
            body: u32_at(code, pc + 1),
            indexed: false,
            store: Some(u16_at(code, pc + 5)),
        }
    } else if t == tag::STORE_SHARED {
        Op::StoreShared(u16_at(code, pc + 1))
    } else if t == tag::THROW {
        Op::Throw
    } else {
        Op::Return
    }
}

/// Read the instruction at an address.
pub fn decode(code: &Vec<u8>, pc: usize) -> (out: Result<(Op, usize), Unreadable>)
    ensures
        match out {
            Ok((op, n)) => decoded(code@, pc as int) == Ok::<_, Unreadable>((op, n as int)) && pc
                + n <= code@.len() && n >= 1,
            Err(why) => decoded(code@, pc as int) == Err::<(Op, int), _>(why),
        },
{
    if pc >= code.len() {
        return Err(Unreadable::End);
    }
    match width_of(code[pc]) {
        None => Err(Unreadable::Unknown),
        Some(n) => {
            if n > code.len() - pc {
                Err(Unreadable::Truncated)
            } else {
                Ok((read_op(code, pc), n))
            }
        },
    }
}

} // verus!
