//! The instruction tags.
use vstd::prelude::*;

verus! {

pub const CONST: u8 = 0;
pub const UNIT: u8 = 1;
pub const FALSE: u8 = 2;
pub const TRUE: u8 = 3;
pub const LOAD_LOCAL: u8 = 4;
pub const STORE_LOCAL: u8 = 5;
pub const STORE_CONST: u8 = 6;
pub const LOAD_NAMED: u8 = 7;
pub const LOAD_SHARED_NAMED: u8 = 8;
pub const ASSIGN_NAMED: u8 = 9;
pub const ASSIGN_NAMED_OP: u8 = 10;
pub const DECLARE_LOCAL: u8 = 11;
pub const DECLARE_CONST: u8 = 12;
pub const ASSIGN_LOCAL: u8 = 13;
pub const ASSIGN_LOCAL_OP: u8 = 14;
pub const ASSIGN_LOCAL_FROM: u8 = 15;
pub const ASSIGN_LOCAL_FROM_OP: u8 = 16;
pub const ASSIGN_LOCAL_FROM_CONST: u8 = 17;
pub const ASSIGN_LOCAL_FROM_CONST_OP: u8 = 18;
pub const LOAD_THIS: u8 = 19;
pub const LOAD_THIS_SHARED: u8 = 20;
pub const REQUIRE_THIS: u8 = 21;
pub const ASSIGN_THIS: u8 = 22;
pub const ASSIGN_THIS_OP: u8 = 23;
pub const POP: u8 = 24;
pub const EVAL_AST: u8 = 25;
pub const EVAL_AST_KEEP: u8 = 26;
pub const JUMP: u8 = 27;
pub const JUMP_IF_FALSE: u8 = 28;
pub const JUMP_IF_TRUE: u8 = 29;
pub const SKIP_IF_NOT_UNIT: u8 = 30;
pub const CALL: u8 = 31;
pub const CALL_CAPTURE: u8 = 32;
pub const CALL_OP: u8 = 33;
pub const BIN_OP: u8 = 34;
pub const BIN_OP_FROM_LOCAL: u8 = 35;
pub const BIN_OP_FROM_CONST: u8 = 36;
pub const BIN_OP_RHS_LOCAL: u8 = 37;
pub const BIN_OP_RHS_CONST: u8 = 38;
pub const BIN_OP_JF: u8 = 39;
pub const BIN_OP_FROM_LOCAL_JF: u8 = 40;
pub const BIN_OP_FROM_CONST_JF: u8 = 41;
pub const BIN_OP_FROM_LOCAL_JT: u8 = 42;
pub const BIN_OP_FROM_CONST_JT: u8 = 43;
pub const BIN_OP_RHS_LOCAL_JF: u8 = 44;
pub const BIN_OP_RHS_CONST_JF: u8 = 45;
pub const UN_OP: u8 = 46;
pub const UN_OP_JF: u8 = 47;
pub const CALL_LOCAL_REF: u8 = 48;
pub const CALL_LOCAL_REF_CAPTURE: u8 = 49;
pub const CALL_NAMED_REF: u8 = 50;
pub const CALL_NAMED_REF_CAPTURE: u8 = 51;
pub const CALL_THIS_REF: u8 = 52;
pub const CALL_THIS_REF_CAPTURE: u8 = 53;
pub const ROTATE: u8 = 54;
pub const MAKE_ARRAY: u8 = 55;
pub const MAKE_MAP: u8 = 56;
pub const CHECK_ARRAY_SIZE: u8 = 57;
pub const CHECK_MAP_SIZE: u8 = 58;
pub const SWITCH: u8 = 59;
pub const LOAD_SHARED: u8 = 60;
pub const SHARE: u8 = 61;
pub const SHARE_NAMED: u8 = 62;
pub const MAKE_CLOSURE: u8 = 63;
pub const IS_SHARED: u8 = 64;
pub const MAKE_FN_PTR: u8 = 65;
pub const CURRY: u8 = 66;
pub const CALL_FN_PTR: u8 = 67;
pub const CALL_FN_PTR_METHOD: u8 = 68;
pub const CALL_FN_PTR_ON_LOCAL: u8 = 69;
pub const CALL_FN_PTR_ON_NAMED: u8 = 70;
pub const CALL_FN_PTR_ON_THIS: u8 = 71;
pub const INTERPOLATE_START: u8 = 72;
pub const INTERPOLATE_APPEND: u8 = 73;
pub const INTERPOLATE_END: u8 = 74;
pub const CHAIN: u8 = 75;
pub const CHAIN_DISCARD: u8 = 76;
pub const INDEX_SET: u8 = 77;
pub const INDEX_SET_FROM_LOCAL: u8 = 78;
pub const INDEX_SET_FROM_CONST: u8 = 79;
pub const INDEX_SET_FROM_LOCAL_VALUE_CONST: u8 = 80;
pub const INDEX_SET_FROM_CONST_VALUE_CONST: u8 = 81;
pub const INDEX_SET_OP: u8 = 82;
pub const INDEX_SET_OP_FROM_LOCAL: u8 = 83;
pub const INDEX_SET_OP_FROM_CONST: u8 = 84;
pub const INDEX_SET_OP_FROM_LOCAL_VALUE_CONST: u8 = 85;
pub const INDEX_SET_OP_FROM_CONST_VALUE_CONST: u8 = 86;
pub const INDEX_GET: u8 = 87;
pub const INDEX_GET_FROM_LOCAL: u8 = 88;
pub const INDEX_GET_FROM_CONST: u8 = 89;
pub const UNWIND_TO: u8 = 90;
pub const TICK: u8 = 91;
pub const CHECKPOINT: u8 = 92;
pub const STATEMENT: u8 = 93;
pub const PUSH_HANDLER: u8 = 94;
pub const PUSH_HANDLER_VAR: u8 = 95;
pub const POP_HANDLER: u8 = 96;
pub const ITER_INIT: u8 = 97;
pub const ITER_DROP: u8 = 98;
pub const ITER_NEXT: u8 = 99;
pub const ITER_NEXT_INDEXED: u8 = 100;
pub const ITER_NEXT_STORE: u8 = 101;
pub const STORE_SHARED: u8 = 102;
pub const THROW: u8 = 103;
pub const RETURN: u8 = 104;

} // verus!
