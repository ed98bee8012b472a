//! The paths lowered code calls by, and what each is bound to.
//!
//! Lowered code names its callees by path, because the process that lowers it
//! is not the one that runs it. A [`Shim`] is a callee of this process, and the
//! table below says which path stands for which.
use vstd::prelude::*;

use crate::paths::{paths_tell_their_places, place_of};

verus! {

/// A callee that lowered code may be bound to.
#[derive(Clone, Copy, Debug, PartialEq, Eq, Structural)]
pub enum Shim {
    ProgramJitIdentityAbi,
    CodeByte,
    CodeWidth,
    CodeU16,
    CodeU32,
    CodeForm,
    CodePositionBits,
    ProgramConstant,
    ProgramAssignOp,
    TrackOperationAbi,
    ProgramToken,
    ChainTail,
    AssignOpKind,
    ProgramChain,
    ProgramSwitch,
    ProgramResidual,
    ProgramName,
    ProgramFunction,
    RunChainAbi,
    CompiledFnIsPlainAdd,
    PlainAddHandled,
    CallPlainAddAbi,
    CallPlainAddRefAbi,
    CallPlainAbsRefAbi,
    PrepareCompiledCallAbi,
    PreparedChunkEntry,
    FinishCompiledCallAbi,
    CallSyntacticOrStackedAbi,
    CallByReferenceAbi,
    StoreScopeSlot,
    AssignLocalAbi,
    RequestWalkAbortAbi,
    LoadNamedAbi,
    AssignNamedAbi,
    DeclareLocalAbi,
    CatchBindAbi,
    OperatorBuiltinAbi,
    OperatorBuiltinHandled,
    NameIsAbs,
    UnaryBuiltinAbi,
    UnaryBuiltinHandled,
    MakeClosureAbi,
    ShareNamedAbi,
    IntModulo,
    IntModuloResult,
    IntMax,
    VmDepth,
    SwitchDispatch,
    SwitchPopSubject,
    SwitchTarget,
    SwitchSubjectKind,
    SwitchSubjectHash,
    SwitchCaseCount,
    SwitchCaseHash,
    SwitchCaseHasInt,
    SwitchCaseIntKey,
    SwitchCaseTarget,
    SwitchDefault,
    SwitchRangeCount,
    SwitchRangeFrom,
    SwitchRangeTo,
    SwitchRangeInclusive,
    SwitchRangeTarget,
    DynamicAsFast,
    FastInt,
    FastBool,
    FastFloat,
    ArrayLen,
    IteratorLastMut,
    IterNextStore,
    IterNextProduced,
    StoreScopeInt,
    StoreIntRangeNext,
    StoreSharedFromStack,
    RefuseSyntheticLen,
    RefuseDerefWrite,
    StashOkResult,
    TakeFinishedResult,
    ArrayEntryMut,
    StoreBuiltinAvailable,
    StoreBuiltinApply,
    FastOperators,
    ScopeFromFrame,
    PinScopeWithVm,
    ScopeLen,
    OperandStackLen,
    GrowStackAbi,
    PushFastInt,
    PushFastBool,
    PushFastFloat,
    PushFastUnit,
    PushFromCell,
    OperandStackEntry,
    ArrayEntry,
    OperandStackTake,
    OperandStackStore,
    OperandStackStoreInt,
    OperandStackStoreBool,
    OperandStackStoreFloat,
    OperandStackStoreUnit,
    DynamicStore,
    TruncateStack,
    IteratorsLen,
    IteratorsPop,
    IteratorsTruncate,
    ScopeRewind,
    SizesTruncate,
    HandlersLen,
    SizesLen,
    ScopeEntry,
}

/// How many shims there are.
pub const SHIMS: usize = 110;

/// How many paths are bound.
pub const BINDINGS: usize = 114;

/// The number of a shim.
pub open spec fn shim_number(shim: Shim) -> int {
    match shim {
        Shim::ProgramJitIdentityAbi => 0,
        Shim::CodeByte => 1,
        Shim::CodeWidth => 2,
        Shim::CodeU16 => 3,
        Shim::CodeU32 => 4,
        Shim::CodeForm => 5,
        Shim::CodePositionBits => 6,
        Shim::ProgramConstant => 7,
        Shim::ProgramAssignOp => 8,
        Shim::TrackOperationAbi => 9,
        Shim::ProgramToken => 10,
        Shim::ChainTail => 11,
        Shim::AssignOpKind => 12,
        Shim::ProgramChain => 13,
        Shim::ProgramSwitch => 14,
        Shim::ProgramResidual => 15,
        Shim::ProgramName => 16,
        Shim::ProgramFunction => 17,
        Shim::RunChainAbi => 18,
        Shim::CompiledFnIsPlainAdd => 19,
        Shim::PlainAddHandled => 20,
        Shim::CallPlainAddAbi => 21,
        Shim::CallPlainAddRefAbi => 22,
        Shim::CallPlainAbsRefAbi => 23,
        Shim::PrepareCompiledCallAbi => 24,
        Shim::PreparedChunkEntry => 25,
        Shim::FinishCompiledCallAbi => 26,
        Shim::CallSyntacticOrStackedAbi => 27,
        Shim::CallByReferenceAbi => 28,
        Shim::StoreScopeSlot => 29,
        Shim::AssignLocalAbi => 30,
        Shim::RequestWalkAbortAbi => 31,
        Shim::LoadNamedAbi => 32,
        Shim::AssignNamedAbi => 33,
        Shim::DeclareLocalAbi => 34,
        Shim::CatchBindAbi => 35,
        Shim::OperatorBuiltinAbi => 36,
        Shim::OperatorBuiltinHandled => 37,
        Shim::NameIsAbs => 38,
        Shim::UnaryBuiltinAbi => 39,
        Shim::UnaryBuiltinHandled => 40,
        Shim::MakeClosureAbi => 41,
        Shim::ShareNamedAbi => 42,
        Shim::IntModulo => 43,
        Shim::IntModuloResult => 44,
        Shim::IntMax => 45,
        Shim::VmDepth => 46,
        Shim::SwitchDispatch => 47,
        Shim::SwitchPopSubject => 48,
        Shim::SwitchTarget => 49,
        Shim::SwitchSubjectKind => 50,
        Shim::SwitchSubjectHash => 51,
        Shim::SwitchCaseCount => 52,
        Shim::SwitchCaseHash => 53,
        Shim::SwitchCaseHasInt => 54,
        Shim::SwitchCaseIntKey => 55,
        Shim::SwitchCaseTarget => 56,
        Shim::SwitchDefault => 57,
        Shim::SwitchRangeCount => 58,
        Shim::SwitchRangeFrom => 59,
        Shim::SwitchRangeTo => 60,
        Shim::SwitchRangeInclusive => 61,
        Shim::SwitchRangeTarget => 62,
        Shim::DynamicAsFast => 63,
        Shim::FastInt => 64,
        Shim::FastBool => 65,
        Shim::FastFloat => 66,
        Shim::ArrayLen => 67,
        Shim::IteratorLastMut => 68,
        Shim::IterNextStore => 69,
        Shim::IterNextProduced => 70,
        Shim::StoreScopeInt => 71,
        Shim::StoreIntRangeNext => 72,
        Shim::StoreSharedFromStack => 73,
        Shim::RefuseSyntheticLen => 74,
        Shim::RefuseDerefWrite => 75,
        Shim::StashOkResult => 76,
        Shim::TakeFinishedResult => 77,
        Shim::ArrayEntryMut => 78,
        Shim::StoreBuiltinAvailable => 79,
        Shim::StoreBuiltinApply => 80,
        Shim::FastOperators => 81,
        Shim::ScopeFromFrame => 82,
        Shim::PinScopeWithVm => 83,
        Shim::ScopeLen => 84,
        Shim::OperandStackLen => 85,
        Shim::GrowStackAbi => 86,
        Shim::PushFastInt => 87,
        Shim::PushFastBool => 88,
        Shim::PushFastFloat => 89,
        Shim::PushFastUnit => 90,
        Shim::PushFromCell => 91,
        Shim::OperandStackEntry => 92,
        Shim::ArrayEntry => 93,
        Shim::OperandStackTake => 94,
        Shim::OperandStackStore => 95,
        Shim::OperandStackStoreInt => 96,
        Shim::OperandStackStoreBool => 97,
        Shim::OperandStackStoreFloat => 98,
        Shim::OperandStackStoreUnit => 99,
        Shim::DynamicStore => 100,
        Shim::TruncateStack => 101,
        Shim::IteratorsLen => 102,
        Shim::IteratorsPop => 103,
        Shim::IteratorsTruncate => 104,
        Shim::ScopeRewind => 105,
        Shim::SizesTruncate => 106,
        Shim::HandlersLen => 107,
        Shim::SizesLen => 108,
        Shim::ScopeEntry => 109,
    }
}

/// The number of a shim.
pub fn shim_index(shim: Shim) -> (n: usize)
    ensures
        n == shim_number(shim),
        n < SHIMS,
{
    match shim {
        Shim::ProgramJitIdentityAbi => 0,
        Shim::CodeByte => 1,
        Shim::CodeWidth => 2,
        Shim::CodeU16 => 3,
        Shim::CodeU32 => 4,
        Shim::CodeForm => 5,
        Shim::CodePositionBits => 6,
        Shim::ProgramConstant => 7,
        Shim::ProgramAssignOp => 8,
        Shim::TrackOperationAbi => 9,
        Shim::ProgramToken => 10,
        Shim::ChainTail => 11,
        Shim::AssignOpKind => 12,
        Shim::ProgramChain => 13,
        Shim::ProgramSwitch => 14,
        Shim::ProgramResidual => 15,
        Shim::ProgramName => 16,
        Shim::ProgramFunction => 17,
        Shim::RunChainAbi => 18,
        Shim::CompiledFnIsPlainAdd => 19,
        Shim::PlainAddHandled => 20,
        Shim::CallPlainAddAbi => 21,
        Shim::CallPlainAddRefAbi => 22,
        Shim::CallPlainAbsRefAbi => 23,
        Shim::PrepareCompiledCallAbi => 24,
        Shim::PreparedChunkEntry => 25,
        Shim::FinishCompiledCallAbi => 26,
        Shim::CallSyntacticOrStackedAbi => 27,
        Shim::CallByReferenceAbi => 28,
        Shim::StoreScopeSlot => 29,
        Shim::AssignLocalAbi => 30,
        Shim::RequestWalkAbortAbi => 31,
        Shim::LoadNamedAbi => 32,
        Shim::AssignNamedAbi => 33,
        Shim::DeclareLocalAbi => 34,
        Shim::CatchBindAbi => 35,
        Shim::OperatorBuiltinAbi => 36,
        Shim::OperatorBuiltinHandled => 37,
        Shim::NameIsAbs => 38,
        Shim::UnaryBuiltinAbi => 39,
        Shim::UnaryBuiltinHandled => 40,
        Shim::MakeClosureAbi => 41,
        Shim::ShareNamedAbi => 42,
        Shim::IntModulo => 43,
        Shim::IntModuloResult => 44,
        Shim::IntMax => 45,
        Shim::VmDepth => 46,
        Shim::SwitchDispatch => 47,
        Shim::SwitchPopSubject => 48,
        Shim::SwitchTarget => 49,
        Shim::SwitchSubjectKind => 50,
        Shim::SwitchSubjectHash => 51,
        Shim::SwitchCaseCount => 52,
        Shim::SwitchCaseHash => 53,
        Shim::SwitchCaseHasInt => 54,
        Shim::SwitchCaseIntKey => 55,
        Shim::SwitchCaseTarget => 56,
        Shim::SwitchDefault => 57,
        Shim::SwitchRangeCount => 58,
        Shim::SwitchRangeFrom => 59,
        Shim::SwitchRangeTo => 60,
        Shim::SwitchRangeInclusive => 61,
        Shim::SwitchRangeTarget => 62,
        Shim::DynamicAsFast => 63,
        Shim::FastInt => 64,
        Shim::FastBool => 65,
        Shim::FastFloat => 66,
        Shim::ArrayLen => 67,
        Shim::IteratorLastMut => 68,
        Shim::IterNextStore => 69,
        Shim::IterNextProduced => 70,
        Shim::StoreScopeInt => 71,
        Shim::StoreIntRangeNext => 72,
        Shim::StoreSharedFromStack => 73,
        Shim::RefuseSyntheticLen => 74,
        Shim::RefuseDerefWrite => 75,
        Shim::StashOkResult => 76,
        Shim::TakeFinishedResult => 77,
        Shim::ArrayEntryMut => 78,
        Shim::StoreBuiltinAvailable => 79,
        Shim::StoreBuiltinApply => 80,
        Shim::FastOperators => 81,
        Shim::ScopeFromFrame => 82,
        Shim::PinScopeWithVm => 83,
        Shim::ScopeLen => 84,
        Shim::OperandStackLen => 85,
        Shim::GrowStackAbi => 86,
        Shim::PushFastInt => 87,
        Shim::PushFastBool => 88,
        Shim::PushFastFloat => 89,
        Shim::PushFastUnit => 90,
        Shim::PushFromCell => 91,
        Shim::OperandStackEntry => 92,
        Shim::ArrayEntry => 93,
        Shim::OperandStackTake => 94,
        Shim::OperandStackStore => 95,
        Shim::OperandStackStoreInt => 96,
        Shim::OperandStackStoreBool => 97,
        Shim::OperandStackStoreFloat => 98,
        Shim::OperandStackStoreUnit => 99,
        Shim::DynamicStore => 100,
        Shim::TruncateStack => 101,
        Shim::IteratorsLen => 102,
        Shim::IteratorsPop => 103,
        Shim::IteratorsTruncate => 104,
        Shim::ScopeRewind => 105,
        Shim::SizesTruncate => 106,
        Shim::HandlersLen => 107,
        Shim::SizesLen => 108,
        Shim::ScopeEntry => 109,
    }
}

/// Two shims with one number are one shim.
pub proof fn shim_numbers_differ(a: Shim, b: Shim)
    ensures
        shim_number(a) == shim_number(b) ==> a == b,
{
}

/// A path and the shim it is bound to.
pub type Bound = (Seq<char>, Shim);

pub open spec fn bound_0(i: int) -> Bound {
    if i == 0 {
        ("grain::program::Program::jit_identity"@, Shim::ProgramJitIdentityAbi)
    } else if i == 1 {
        ("rhai::grain::vm::jit::code_byte"@, Shim::CodeByte)
    } else if i == 2 {
        ("rhai::grain::vm::jit::code_width"@, Shim::CodeWidth)
    } else if i == 3 {
        ("rhai::grain::vm::jit::code_u16"@, Shim::CodeU16)
    } else if i == 4 {
        ("rhai::grain::vm::jit::code_u32"@, Shim::CodeU32)
    } else if i == 5 {
        ("rhai::grain::vm::jit::code_form"@, Shim::CodeForm)
    } else if i == 6 {
        ("rhai::grain::vm::jit::code_position_bits"@, Shim::CodePositionBits)
    } else if i == 7 {
        ("rhai::grain::vm::jit::program_constant"@, Shim::ProgramConstant)
    } else if i == 8 {
        ("rhai::grain::vm::jit::program_assign_op"@, Shim::ProgramAssignOp)
    } else if i == 9 {
        ("rhai::grain::vm::jit::track_operation_abi"@, Shim::TrackOperationAbi)
    } else if i == 10 {
        ("rhai::grain::vm::jit::program_token"@, Shim::ProgramToken)
    } else if i == 11 {
        ("rhai::grain::vm::jit::chain_tail"@, Shim::ChainTail)
    } else if i == 12 {
        ("rhai::grain::vm::jit::assign_op_kind"@, Shim::AssignOpKind)
    } else if i == 13 {
        ("rhai::grain::vm::jit::program_chain"@, Shim::ProgramChain)
    } else if i == 14 {
        ("rhai::grain::vm::jit::program_switch"@, Shim::ProgramSwitch)
    } else if i == 15 {
        ("rhai::grain::vm::jit::program_residual"@, Shim::ProgramResidual)
    } else if i == 16 {
        ("rhai::grain::vm::jit::program_name"@, Shim::ProgramName)
    } else if i == 17 {
        ("rhai::grain::vm::program_name"@, Shim::ProgramName)
    } else if i == 18 {
        ("rhai::grain::vm::jit::program_function"@, Shim::ProgramFunction)
    } else if i == 19 {
        ("rhai::grain::vm::jit::run_chain_abi"@, Shim::RunChainAbi)
    } else if i == 20 {
        ("rhai::grain::vm::jit::compiled_fn_is_plain_add"@, Shim::CompiledFnIsPlainAdd)
    } else if i == 21 {
        ("rhai::grain::vm::jit::plain_add_handled"@, Shim::PlainAddHandled)
    } else if i == 22 {
        ("rhai::grain::vm::jit::call_plain_add_abi"@, Shim::CallPlainAddAbi)
    } else if i == 23 {
        ("rhai::grain::vm::jit::call_plain_add_ref_abi"@, Shim::CallPlainAddRefAbi)
    } else if i == 24 {
        ("rhai::grain::vm::jit::call_plain_abs_ref_abi"@, Shim::CallPlainAbsRefAbi)
    } else if i == 25 {
        ("rhai::grain::vm::jit::prepare_compiled_call_abi"@, Shim::PrepareCompiledCallAbi)
    } else if i == 26 {
        ("rhai::grain::vm::jit::prepared_chunk_entry"@, Shim::PreparedChunkEntry)
    } else if i == 27 {
        ("rhai::grain::vm::jit::finish_compiled_call_abi"@, Shim::FinishCompiledCallAbi)
    } else if i == 28 {
        ("rhai::grain::vm::jit::call_syntactic_or_stacked_abi"@, Shim::CallSyntacticOrStackedAbi)
    } else {
        ("rhai::grain::vm::jit::call_by_reference_abi"@, Shim::CallByReferenceAbi)
    }
}

fn read_bound_0(i: usize) -> (out: (&'static str, Shim))
    ensures
        (out.0@, out.1) == bound_0(i as int),
{
    if i == 0 {
        ("grain::program::Program::jit_identity", Shim::ProgramJitIdentityAbi)
    } else if i == 1 {
        ("rhai::grain::vm::jit::code_byte", Shim::CodeByte)
    } else if i == 2 {
        ("rhai::grain::vm::jit::code_width", Shim::CodeWidth)
    } else if i == 3 {
        ("rhai::grain::vm::jit::code_u16", Shim::CodeU16)
    } else if i == 4 {
        ("rhai::grain::vm::jit::code_u32", Shim::CodeU32)
    } else if i == 5 {
        ("rhai::grain::vm::jit::code_form", Shim::CodeForm)
    } else if i == 6 {
        ("rhai::grain::vm::jit::code_position_bits", Shim::CodePositionBits)
    } else if i == 7 {
        ("rhai::grain::vm::jit::program_constant", Shim::ProgramConstant)
    } else if i == 8 {
        ("rhai::grain::vm::jit::program_assign_op", Shim::ProgramAssignOp)
    } else if i == 9 {
        ("rhai::grain::vm::jit::track_operation_abi", Shim::TrackOperationAbi)
    } else if i == 10 {
        ("rhai::grain::vm::jit::program_token", Shim::ProgramToken)
    } else if i == 11 {
        ("rhai::grain::vm::jit::chain_tail", Shim::ChainTail)
    } else if i == 12 {
        ("rhai::grain::vm::jit::assign_op_kind", Shim::AssignOpKind)
    } else if i == 13 {
        ("rhai::grain::vm::jit::program_chain", Shim::ProgramChain)
    } else if i == 14 {
        ("rhai::grain::vm::jit::program_switch", Shim::ProgramSwitch)
    } else if i == 15 {
        ("rhai::grain::vm::jit::program_residual", Shim::ProgramResidual)
    } else if i == 16 {
        ("rhai::grain::vm::jit::program_name", Shim::ProgramName)
    } else if i == 17 {
        ("rhai::grain::vm::program_name", Shim::ProgramName)
    } else if i == 18 {
        ("rhai::grain::vm::jit::program_function", Shim::ProgramFunction)
    } else if i == 19 {
        ("rhai::grain::vm::jit::run_chain_abi", Shim::RunChainAbi)
    } else if i == 20 {
        ("rhai::grain::vm::jit::compiled_fn_is_plain_add", Shim::CompiledFnIsPlainAdd)
    } else if i == 21 {
        ("rhai::grain::vm::jit::plain_add_handled", Shim::PlainAddHandled)
    } else if i == 22 {
        ("rhai::grain::vm::jit::call_plain_add_abi", Shim::CallPlainAddAbi)
    } else if i == 23 {
        ("rhai::grain::vm::jit::call_plain_add_ref_abi", Shim::CallPlainAddRefAbi)
    } else if i == 24 {
        ("rhai::grain::vm::jit::call_plain_abs_ref_abi", Shim::CallPlainAbsRefAbi)
    } else if i == 25 {
        ("rhai::grain::vm::jit::prepare_compiled_call_abi", Shim::PrepareCompiledCallAbi)
    } else if i == 26 {
        ("rhai::grain::vm::jit::prepared_chunk_entry", Shim::PreparedChunkEntry)
    } else if i == 27 {
        ("rhai::grain::vm::jit::finish_compiled_call_abi", Shim::FinishCompiledCallAbi)
    } else if i == 28 {
        ("rhai::grain::vm::jit::call_syntactic_or_stacked_abi", Shim::CallSyntacticOrStackedAbi)
    } else {
        ("rhai::grain::vm::jit::call_by_reference_abi", Shim::CallByReferenceAbi)
    }
}

pub open spec fn bound_1(i: int) -> Bound {
    if i == 0 {
        ("rhai::grain::vm::jit::store_scope_slot"@, Shim::StoreScopeSlot)
    } else if i == 1 {
        ("rhai::grain::vm::jit::assign_local_abi"@, Shim::AssignLocalAbi)
    } else if i == 2 {
        ("majit_metainterp::request_walk_abort"@, Shim::RequestWalkAbortAbi)
    } else if i == 3 {
        ("rhai::grain::vm::jit::request_walk_abort_abi"@, Shim::RequestWalkAbortAbi)
    } else if i == 4 {
        ("rhai::grain::vm::jit::load_named_abi"@, Shim::LoadNamedAbi)
    } else if i == 5 {
        ("rhai::grain::vm::jit::assign_named_abi"@, Shim::AssignNamedAbi)
    } else if i == 6 {
        ("rhai::grain::vm::jit::declare_local_abi"@, Shim::DeclareLocalAbi)
    } else if i == 7 {
        ("rhai::grain::vm::jit::catch_bind_abi"@, Shim::CatchBindAbi)
    } else if i == 8 {
        ("rhai::grain::vm::jit::operator_builtin_abi"@, Shim::OperatorBuiltinAbi)
    } else if i == 9 {
        ("rhai::grain::vm::jit::operator_builtin_handled"@, Shim::OperatorBuiltinHandled)
    } else if i == 10 {
        ("rhai::grain::vm::jit::name_is_abs"@, Shim::NameIsAbs)
    } else if i == 11 {
        ("rhai::grain::vm::jit::unary_builtin_abi"@, Shim::UnaryBuiltinAbi)
    } else if i == 12 {
        ("rhai::grain::vm::jit::unary_builtin_handled"@, Shim::UnaryBuiltinHandled)
    } else if i == 13 {
        ("rhai::grain::vm::jit::make_closure_abi"@, Shim::MakeClosureAbi)
    } else if i == 14 {
        ("rhai::grain::vm::jit::share_named_abi"@, Shim::ShareNamedAbi)
    } else if i == 15 {
        ("rhai::grain::vm::jit::int_modulo"@, Shim::IntModulo)
    } else if i == 16 {
        ("rhai::grain::vm::jit::int_modulo_result"@, Shim::IntModuloResult)
    } else if i == 17 {
        ("core::cmp::impls::<Impl>::max"@, Shim::IntMax)
    } else if i == 18 {
        ("rhai::grain::vm::jit::vm_depth"@, Shim::VmDepth)
    } else if i == 19 {
        ("rhai::grain::vm::jit::switch_dispatch"@, Shim::SwitchDispatch)
    } else if i == 20 {
        ("rhai::grain::vm::jit::switch_pop_subject"@, Shim::SwitchPopSubject)
    } else if i == 21 {
        ("rhai::grain::vm::jit::switch_target"@, Shim::SwitchTarget)
    } else if i == 22 {
        ("rhai::grain::vm::jit::switch_subject_kind"@, Shim::SwitchSubjectKind)
    } else if i == 23 {
        ("rhai::grain::vm::jit::switch_subject_hash"@, Shim::SwitchSubjectHash)
    } else if i == 24 {
        ("rhai::grain::vm::jit::switch_case_count"@, Shim::SwitchCaseCount)
    } else if i == 25 {
        ("rhai::grain::vm::jit::switch_case_hash"@, Shim::SwitchCaseHash)
    } else if i == 26 {
        ("rhai::grain::vm::jit::switch_case_has_int"@, Shim::SwitchCaseHasInt)
    } else if i == 27 {
        ("rhai::grain::vm::jit::switch_case_int_key"@, Shim::SwitchCaseIntKey)
    } else if i == 28 {
        ("rhai::grain::vm::jit::switch_case_target"@, Shim::SwitchCaseTarget)
    } else {
        ("rhai::grain::vm::jit::switch_default"@, Shim::SwitchDefault)
    }
}

fn read_bound_1(i: usize) -> (out: (&'static str, Shim))
    ensures
        (out.0@, out.1) == bound_1(i as int),
{
    if i == 0 {
        ("rhai::grain::vm::jit::store_scope_slot", Shim::StoreScopeSlot)
    } else if i == 1 {
        ("rhai::grain::vm::jit::assign_local_abi", Shim::AssignLocalAbi)
    } else if i == 2 {
        ("majit_metainterp::request_walk_abort", Shim::RequestWalkAbortAbi)
    } else if i == 3 {
        ("rhai::grain::vm::jit::request_walk_abort_abi", Shim::RequestWalkAbortAbi)
    } else if i == 4 {
        ("rhai::grain::vm::jit::load_named_abi", Shim::LoadNamedAbi)
    } else if i == 5 {
        ("rhai::grain::vm::jit::assign_named_abi", Shim::AssignNamedAbi)
    } else if i == 6 {
        ("rhai::grain::vm::jit::declare_local_abi", Shim::DeclareLocalAbi)
    } else if i == 7 {
        ("rhai::grain::vm::jit::catch_bind_abi", Shim::CatchBindAbi)
    } else if i == 8 {
        ("rhai::grain::vm::jit::operator_builtin_abi", Shim::OperatorBuiltinAbi)
    } else if i == 9 {
        ("rhai::grain::vm::jit::operator_builtin_handled", Shim::OperatorBuiltinHandled)
    } else if i == 10 {
        ("rhai::grain::vm::jit::name_is_abs", Shim::NameIsAbs)
    } else if i == 11 {
        ("rhai::grain::vm::jit::unary_builtin_abi", Shim::UnaryBuiltinAbi)
    } else if i == 12 {
        ("rhai::grain::vm::jit::unary_builtin_handled", Shim::UnaryBuiltinHandled)
    } else if i == 13 {
        ("rhai::grain::vm::jit::make_closure_abi", Shim::MakeClosureAbi)
    } else if i == 14 {
        ("rhai::grain::vm::jit::share_named_abi", Shim::ShareNamedAbi)
    } else if i == 15 {
        ("rhai::grain::vm::jit::int_modulo", Shim::IntModulo)
    } else if i == 16 {
        ("rhai::grain::vm::jit::int_modulo_result", Shim::IntModuloResult)
    } else if i == 17 {
        ("core::cmp::impls::<Impl>::max", Shim::IntMax)
    } else if i == 18 {
        ("rhai::grain::vm::jit::vm_depth", Shim::VmDepth)
    } else if i == 19 {
        ("rhai::grain::vm::jit::switch_dispatch", Shim::SwitchDispatch)
    } else if i == 20 {
        ("rhai::grain::vm::jit::switch_pop_subject", Shim::SwitchPopSubject)
    } else if i == 21 {
        ("rhai::grain::vm::jit::switch_target", Shim::SwitchTarget)
    } else if i == 22 {
        ("rhai::grain::vm::jit::switch_subject_kind", Shim::SwitchSubjectKind)
    } else if i == 23 {
        ("rhai::grain::vm::jit::switch_subject_hash", Shim::SwitchSubjectHash)
    } else if i == 24 {
        ("rhai::grain::vm::jit::switch_case_count", Shim::SwitchCaseCount)
    } else if i == 25 {
        ("rhai::grain::vm::jit::switch_case_hash", Shim::SwitchCaseHash)
    } else if i == 26 {
        ("rhai::grain::vm::jit::switch_case_has_int", Shim::SwitchCaseHasInt)
    } else if i == 27 {
        ("rhai::grain::vm::jit::switch_case_int_key", Shim::SwitchCaseIntKey)
    } else if i == 28 {
        ("rhai::grain::vm::jit::switch_case_target", Shim::SwitchCaseTarget)
    } else {
        ("rhai::grain::vm::jit::switch_default", Shim::SwitchDefault)
    }
}

pub open spec fn bound_2(i: int) -> Bound {
    if i == 0 {
        ("rhai::grain::vm::jit::switch_range_count"@, Shim::SwitchRangeCount)
    } else if i == 1 {
        ("rhai::grain::vm::jit::switch_range_from"@, Shim::SwitchRangeFrom)
    } else if i == 2 {
        ("rhai::grain::vm::jit::switch_range_to"@, Shim::SwitchRangeTo)
    } else if i == 3 {
        ("rhai::grain::vm::jit::switch_range_inclusive"@, Shim::SwitchRangeInclusive)
    } else if i == 4 {
        ("rhai::grain::vm::jit::switch_range_target"@, Shim::SwitchRangeTarget)
    } else if i == 5 {
        ("rhai::grain::vm::jit::dynamic_as_fast"@, Shim::DynamicAsFast)
    } else if i == 6 {
        ("rhai::grain::vm::jit::fast_int"@, Shim::FastInt)
    } else if i == 7 {
        ("rhai::grain::vm::jit::fast_bool"@, Shim::FastBool)
    } else if i == 8 {
        ("rhai::grain::vm::jit::fast_float"@, Shim::FastFloat)
    } else if i == 9 {
        ("rhai::grain::vm::jit::array_len"@, Shim::ArrayLen)
    } else if i == 10 {
        ("rhai::grain::vm::jit::iterator_last_mut"@, Shim::IteratorLastMut)
    } else if i == 11 {
        ("rhai::grain::vm::jit::iter_next_store"@, Shim::IterNextStore)
    } else if i == 12 {
        ("rhai::grain::vm::jit::iter_next_produced"@, Shim::IterNextProduced)
    } else if i == 13 {
        ("rhai::grain::vm::jit::store_scope_int"@, Shim::StoreScopeInt)
    } else if i == 14 {
        ("rhai::grain::vm::jit::store_int_range_next"@, Shim::StoreIntRangeNext)
    } else if i == 15 {
        ("rhai::grain::vm::jit::store_shared_from_stack"@, Shim::StoreSharedFromStack)
    } else if i == 16 {
        ("__len"@, Shim::RefuseSyntheticLen)
    } else if i == 17 {
        ("rhai::grain::vm::jit::refuse_synthetic_len"@, Shim::RefuseSyntheticLen)
    } else if i == 18 {
        ("rhai::grain::vm::jit::refuse_deref_write"@, Shim::RefuseDerefWrite)
    } else if i == 19 {
        ("rhai::grain::vm::jit::stash_ok_result"@, Shim::StashOkResult)
    } else if i == 20 {
        ("rhai::grain::vm::jit::take_finished_result"@, Shim::TakeFinishedResult)
    } else if i == 21 {
        ("rhai::grain::vm::jit::array_entry_mut"@, Shim::ArrayEntryMut)
    } else if i == 22 {
        ("rhai::grain::vm::jit::store_builtin_available"@, Shim::StoreBuiltinAvailable)
    } else if i == 23 {
        ("rhai::grain::vm::jit::store_builtin_apply"@, Shim::StoreBuiltinApply)
    } else if i == 24 {
        ("rhai::grain::vm::jit::fast_operators"@, Shim::FastOperators)
    } else if i == 25 {
        ("rhai::grain::vm::jit::scope_from_frame"@, Shim::ScopeFromFrame)
    } else if i == 26 {
        ("rhai::grain::vm::jit::pin_scope_with_vm"@, Shim::PinScopeWithVm)
    } else if i == 27 {
        ("rhai::grain::vm::jit::scope_len"@, Shim::ScopeLen)
    } else if i == 28 {
        ("rhai::grain::vm::jit::operand_stack_len"@, Shim::OperandStackLen)
    } else {
        ("grain::vm::Vm::grow_stack"@, Shim::GrowStackAbi)
    }
}

fn read_bound_2(i: usize) -> (out: (&'static str, Shim))
    ensures
        (out.0@, out.1) == bound_2(i as int),
{
    if i == 0 {
        ("rhai::grain::vm::jit::switch_range_count", Shim::SwitchRangeCount)
    } else if i == 1 {
        ("rhai::grain::vm::jit::switch_range_from", Shim::SwitchRangeFrom)
    } else if i == 2 {
        ("rhai::grain::vm::jit::switch_range_to", Shim::SwitchRangeTo)
    } else if i == 3 {
        ("rhai::grain::vm::jit::switch_range_inclusive", Shim::SwitchRangeInclusive)
    } else if i == 4 {
        ("rhai::grain::vm::jit::switch_range_target", Shim::SwitchRangeTarget)
    } else if i == 5 {
        ("rhai::grain::vm::jit::dynamic_as_fast", Shim::DynamicAsFast)
    } else if i == 6 {
        ("rhai::grain::vm::jit::fast_int", Shim::FastInt)
    } else if i == 7 {
        ("rhai::grain::vm::jit::fast_bool", Shim::FastBool)
    } else if i == 8 {
        ("rhai::grain::vm::jit::fast_float", Shim::FastFloat)
    } else if i == 9 {
        ("rhai::grain::vm::jit::array_len", Shim::ArrayLen)
    } else if i == 10 {
        ("rhai::grain::vm::jit::iterator_last_mut", Shim::IteratorLastMut)
    } else if i == 11 {
        ("rhai::grain::vm::jit::iter_next_store", Shim::IterNextStore)
    } else if i == 12 {
        ("rhai::grain::vm::jit::iter_next_produced", Shim::IterNextProduced)
    } else if i == 13 {
        ("rhai::grain::vm::jit::store_scope_int", Shim::StoreScopeInt)
    } else if i == 14 {
        ("rhai::grain::vm::jit::store_int_range_next", Shim::StoreIntRangeNext)
    } else if i == 15 {
        ("rhai::grain::vm::jit::store_shared_from_stack", Shim::StoreSharedFromStack)
    } else if i == 16 {
        ("__len", Shim::RefuseSyntheticLen)
    } else if i == 17 {
        ("rhai::grain::vm::jit::refuse_synthetic_len", Shim::RefuseSyntheticLen)
    } else if i == 18 {
        ("rhai::grain::vm::jit::refuse_deref_write", Shim::RefuseDerefWrite)
    } else if i == 19 {
        ("rhai::grain::vm::jit::stash_ok_result", Shim::StashOkResult)
    } else if i == 20 {
        ("rhai::grain::vm::jit::take_finished_result", Shim::TakeFinishedResult)
    } else if i == 21 {
        ("rhai::grain::vm::jit::array_entry_mut", Shim::ArrayEntryMut)
    } else if i == 22 {
        ("rhai::grain::vm::jit::store_builtin_available", Shim::StoreBuiltinAvailable)
    } else if i == 23 {
        ("rhai::grain::vm::jit::store_builtin_apply", Shim::StoreBuiltinApply)
    } else if i == 24 {
        ("rhai::grain::vm::jit::fast_operators", Shim::FastOperators)
    } else if i == 25 {
        ("rhai::grain::vm::jit::scope_from_frame", Shim::ScopeFromFrame)
    } else if i == 26 {
        ("rhai::grain::vm::jit::pin_scope_with_vm", Shim::PinScopeWithVm)
    } else if i == 27 {
        ("rhai::grain::vm::jit::scope_len", Shim::ScopeLen)
    } else if i == 28 {
        ("rhai::grain::vm::jit::operand_stack_len", Shim::OperandStackLen)
    } else {
        ("grain::vm::Vm::grow_stack", Shim::GrowStackAbi)
    }
}

pub open spec fn bound_3(i: int) -> Bound {
    if i == 0 {
        ("rhai::grain::vm::jit::grow_stack_abi"@, Shim::GrowStackAbi)
    } else if i == 1 {
        ("rhai::grain::vm::jit::push_fast_int"@, Shim::PushFastInt)
    } else if i == 2 {
        ("rhai::grain::vm::jit::push_fast_bool"@, Shim::PushFastBool)
    } else if i == 3 {
        ("rhai::grain::vm::jit::push_fast_float"@, Shim::PushFastFloat)
    } else if i == 4 {
        ("rhai::grain::vm::jit::push_fast_unit"@, Shim::PushFastUnit)
    } else if i == 5 {
        ("rhai::grain::vm::jit::push_from_cell"@, Shim::PushFromCell)
    } else if i == 6 {
        ("rhai::grain::vm::jit::operand_stack_entry"@, Shim::OperandStackEntry)
    } else if i == 7 {
        ("rhai::grain::vm::jit::array_entry"@, Shim::ArrayEntry)
    } else if i == 8 {
        ("rhai::grain::vm::jit::operand_stack_take"@, Shim::OperandStackTake)
    } else if i == 9 {
        ("rhai::grain::vm::jit::operand_stack_store"@, Shim::OperandStackStore)
    } else if i == 10 {
        ("rhai::grain::vm::jit::operand_stack_store_int"@, Shim::OperandStackStoreInt)
    } else if i == 11 {
        ("rhai::grain::vm::jit::operand_stack_store_bool"@, Shim::OperandStackStoreBool)
    } else if i == 12 {
        ("rhai::grain::vm::jit::operand_stack_store_float"@, Shim::OperandStackStoreFloat)
    } else if i == 13 {
        ("rhai::grain::vm::jit::operand_stack_store_unit"@, Shim::OperandStackStoreUnit)
    } else if i == 14 {
        ("rhai::grain::vm::jit::dynamic_store"@, Shim::DynamicStore)
    } else if i == 15 {
        ("rhai::grain::vm::jit::truncate_stack"@, Shim::TruncateStack)
    } else if i == 16 {
        ("rhai::grain::vm::jit::iterators_len"@, Shim::IteratorsLen)
    } else if i == 17 {
        ("rhai::grain::vm::jit::iterators_pop"@, Shim::IteratorsPop)
    } else if i == 18 {
        ("rhai::grain::vm::jit::iterators_truncate"@, Shim::IteratorsTruncate)
    } else if i == 19 {
        ("rhai::grain::vm::jit::scope_rewind"@, Shim::ScopeRewind)
    } else if i == 20 {
        ("rhai::grain::vm::jit::sizes_truncate"@, Shim::SizesTruncate)
    } else if i == 21 {
        ("rhai::grain::vm::jit::handlers_len"@, Shim::HandlersLen)
    } else if i == 22 {
        ("rhai::grain::vm::jit::sizes_len"@, Shim::SizesLen)
    } else {
        ("rhai::grain::vm::jit::scope_entry"@, Shim::ScopeEntry)
    }
}

fn read_bound_3(i: usize) -> (out: (&'static str, Shim))
    ensures
        (out.0@, out.1) == bound_3(i as int),
{
    if i == 0 {
        ("rhai::grain::vm::jit::grow_stack_abi", Shim::GrowStackAbi)
    } else if i == 1 {
        ("rhai::grain::vm::jit::push_fast_int", Shim::PushFastInt)
    } else if i == 2 {
        ("rhai::grain::vm::jit::push_fast_bool", Shim::PushFastBool)
    } else if i == 3 {
        ("rhai::grain::vm::jit::push_fast_float", Shim::PushFastFloat)
    } else if i == 4 {
        ("rhai::grain::vm::jit::push_fast_unit", Shim::PushFastUnit)
    } else if i == 5 {
        ("rhai::grain::vm::jit::push_from_cell", Shim::PushFromCell)
    } else if i == 6 {
        ("rhai::grain::vm::jit::operand_stack_entry", Shim::OperandStackEntry)
    } else if i == 7 {
        ("rhai::grain::vm::jit::array_entry", Shim::ArrayEntry)
    } else if i == 8 {
        ("rhai::grain::vm::jit::operand_stack_take", Shim::OperandStackTake)
    } else if i == 9 {
        ("rhai::grain::vm::jit::operand_stack_store", Shim::OperandStackStore)
    } else if i == 10 {
        ("rhai::grain::vm::jit::operand_stack_store_int", Shim::OperandStackStoreInt)
    } else if i == 11 {
        ("rhai::grain::vm::jit::operand_stack_store_bool", Shim::OperandStackStoreBool)
    } else if i == 12 {
        ("rhai::grain::vm::jit::operand_stack_store_float", Shim::OperandStackStoreFloat)
    } else if i == 13 {
        ("rhai::grain::vm::jit::operand_stack_store_unit", Shim::OperandStackStoreUnit)
    } else if i == 14 {
        ("rhai::grain::vm::jit::dynamic_store", Shim::DynamicStore)
    } else if i == 15 {
        ("rhai::grain::vm::jit::truncate_stack", Shim::TruncateStack)
    } else if i == 16 {
        ("rhai::grain::vm::jit::iterators_len", Shim::IteratorsLen)
    } else if i == 17 {
        ("rhai::grain::vm::jit::iterators_pop", Shim::IteratorsPop)
    } else if i == 18 {
        ("rhai::grain::vm::jit::iterators_truncate", Shim::IteratorsTruncate)
    } else if i == 19 {
        ("rhai::grain::vm::jit::scope_rewind", Shim::ScopeRewind)
    } else if i == 20 {
        ("rhai::grain::vm::jit::sizes_truncate", Shim::SizesTruncate)
    } else if i == 21 {
        ("rhai::grain::vm::jit::handlers_len", Shim::HandlersLen)
    } else if i == 22 {
        ("rhai::grain::vm::jit::sizes_len", Shim::SizesLen)
    } else {
        ("rhai::grain::vm::jit::scope_entry", Shim::ScopeEntry)
    }
}

/// The bound paths, in their order.
pub open spec fn bound(i: int) -> Bound {
    if i < 30 {
        bound_0(i - 0)
    } else if i < 60 {
        bound_1(i - 30)
    } else if i < 90 {
        bound_2(i - 60)
    } else {
        bound_3(i - 90)
    }
}

/// One row of the table.
pub fn binding(i: usize) -> (out: (&'static str, Shim))
    requires
        i < BINDINGS,
    ensures
        (out.0@, out.1) == bound(i as int),
{
    if i < 30 {
        read_bound_0(i - 0)
    } else if i < 60 {
        read_bound_1(i - 30)
    } else if i < 90 {
        read_bound_2(i - 60)
    } else {
        read_bound_3(i - 90)
    }
}

/// The bound paths with the addresses their shims have in this process. No path
/// occurs twice.
///
/// `addresses` holds one address per shim, at the shim's number.
pub fn runtime_bindings(addresses: &Vec<i64>) -> (table: Vec<(&'static str, i64)>)
    requires
        addresses@.len() == SHIMS,
    ensures
        table@.len() == BINDINGS,
        forall|i: int|
            0 <= i < BINDINGS ==> (#[trigger] table@[i]).0@ == bound(i).0 && table@[i].1
                == addresses@[shim_number(bound(i).1)],
        forall|i: int, j: int|
            0 <= i < j < BINDINGS ==> (#[trigger] table@[i]).0@ != (#[trigger] table@[j]).0@,
        (forall|n: int| 0 <= n < SHIMS ==> #[trigger] addresses@[n] != 0) ==> (forall|i: int|
            0 <= i < BINDINGS ==> (#[trigger] table@[i]).1 != 0),
{
    let mut table: Vec<(&'static str, i64)> = Vec::new();
    let mut i: usize = 0;
    while i < BINDINGS
        invariant
            i <= BINDINGS,
            addresses@.len() == SHIMS,
            table@.len() == i,
            forall|j: int|
                0 <= j < i ==> (#[trigger] table@[j]).0@ == bound(j).0 && table@[j].1
                    == addresses@[shim_number(bound(j).1)],
        decreases BINDINGS - i,
    {
        let (path, shim) = binding(i);
        table.push((path, addresses[shim_index(shim)]));
        i = i + 1;
    }
    proof {
        paths_tell_their_places();
        assert forall|i: int, j: int| 0 <= i < j < BINDINGS implies (#[trigger] table@[i]).0@ != (
        #[trigger] table@[j]).0@ by {
            assert(place_of(bound(i).0) == i);
            assert(place_of(bound(j).0) == j);
        }
        assert forall|i: int|
            (forall|n: int| 0 <= n < SHIMS ==> #[trigger] addresses@[n] != 0) && 0 <= i
                < BINDINGS implies (#[trigger] table@[i]).1 != 0 by {
            let n = shim_number(bound(i).1);
            assert(0 <= n < SHIMS);
            assert(addresses@[n] != 0);
        }
    }
    table
}

} // verus!
