//! That no path is bound twice.
//!
//! A bound path can be told from every other by its length and a few of its
//! characters, so where it stands in the table is a function of the path.
use vstd::prelude::*;

use crate::bindings::{bound, BINDINGS};

verus! {

/// Where a path of 5 to 35 characters stands.
#[verifier::opaque]
pub open spec fn place_0(path: Seq<char>) -> int {
    if path.len() == 5 {
        76
    } else if path.len() == 25 {
        89
    } else if path.len() == 29 {
        if path[28] == 'e' {
            17
        } else {
            47
        }
    } else if path.len() == 30 {
        if path[29] == '6' {
            3
        } else if path[29] == '2' {
            4
        } else if path[29] == 'h' {
            48
        } else {
            66
        }
    } else if path.len() == 31 {
        if path[24] == 'd' {
            if path[30] == 'e' {
                1
            } else {
                5
            }
        } else if path[24] == 's' {
            67
        } else if path[24] == 'r' {
            69
        } else if path[24] == 'o' {
            87
        } else {
            112
        }
    } else if path.len() == 32 {
        if path[31] == 'h' {
            2
        } else if path[31] == 'l' {
            11
        } else if path[31] == 'o' {
            45
        } else {
            68
        }
    } else if path.len() == 33 {
        if path[26] == '_' {
            40
        } else if path[26] == 'y' {
            97
        } else {
            113
        }
    } else if path.len() == 34 {
        if path[33] == 'e' {
            16
        } else if path[33] == 'd' {
            109
        } else {
            111
        }
    } else if path.len() == 35 {
        if path[32] == 'k' {
            10
        } else if path[32] == 'a' {
            if path[34] == 'n' {
                13
            } else {
                19
            }
        } else if path[32] == 'g' {
            51
        } else if path[32] == 'i' {
            91
        } else if path[32] == 'o' {
            104
        } else if path[32] == 'l' {
            106
        } else {
            107
        }
    } else {
        -1
    }
}

/// Where a path of 36 to 44 characters stands.
#[verifier::opaque]
pub open spec fn place_1(path: Seq<char>) -> int {
    if path.len() == 36 {
        if path[30] == 'p' {
            12
        } else if path[30] == 's' {
            14
        } else if path[30] == '_' {
            if path[35] == 't' {
                32
            } else {
                105
            }
        } else if path[30] == 'e' {
            if path[35] == 'i' {
                34
            } else {
                59
            }
        } else if path[30] == 'n' {
            37
        } else if path[30] == 'r' {
            84
        } else if path[30] == 'c' {
            90
        } else if path[30] == 't' {
            if path[35] == 'l' {
                92
            } else {
                94
            }
        } else if path[30] == 'm' {
            95
        } else {
            110
        }
    } else if path.len() == 37 {
        if path[29] == 'i' {
            0
        } else if path[29] == 'a' {
            44
        } else if path[29] == 'd' {
            49
        } else if path[29] == 'r' {
            62
        } else if path[29] == '_' {
            65
        } else if path[29] == 'x' {
            71
        } else if path[29] == 'c' {
            73
        } else if path[29] == 'k' {
            79
        } else if path[29] == 'n' {
            81
        } else {
            93
        }
    } else if path.len() == 38 {
        if path[33] == 's' {
            7
        } else if path[33] == 'i' {
            15
        } else if path[33] == 'c' {
            18
        } else if path[33] == '_' {
            if path[37] == 't' {
                30
            } else {
                55
            }
        } else if path[33] == 'l' {
            31
        } else if path[33] == 'd' {
            35
        } else if path[33] == 'e' {
            43
        } else {
            85
        }
    } else if path.len() == 39 {
        if path[37] == 'o' {
            if path[38] == 'p' {
                8
            } else {
                61
            }
        } else if path[37] == 'e' {
            if path[38] == 'd' {
                21
            } else {
                88
            }
        } else if path[37] == 'b' {
            if path[34] == 'l' {
                36
            } else {
                41
            }
        } else if path[37] == 'l' {
            46
        } else if path[37] == 'n' {
            54
        } else if path[37] == 'u' {
            70
        } else {
            86
        }
    } else if path.len() == 40 {
        if path[36] == 'b' {
            6
        } else if path[36] == '_' {
            22
        } else if path[36] == 'j' {
            50
        } else if path[36] == 'r' {
            if path[39] == 't' {
                58
            } else {
                78
            }
        } else if path[36] == 'o' {
            60
        } else if path[36] == 'u' {
            72
        } else if path[36] == 't' {
            98
        } else {
            108
        }
    } else if path.len() == 41 {
        if path[39] == 'b' {
            9
        } else if path[39] == 'n' {
            if path[40] == 'd' {
                52
            } else {
                56
            }
        } else if path[39] == 's' {
            53
        } else if path[39] == 'e' {
            if path[40] == 'y' {
                57
            } else {
                64
            }
        } else if path[39] == 'l' {
            83
        } else {
            if path[40] == 'y' {
                96
            } else {
                99
            }
        }
    } else if path.len() == 42 {
        if path[40] == 'r' {
            26
        } else if path[40] == 'b' {
            38
        } else if path[40] == 'x' {
            74
        } else if path[40] == 'e' {
            77
        } else {
            80
        }
    } else if path.len() == 43 {
        if path[42] == 'i' {
            29
        } else {
            42
        }
    } else if path.len() == 44 {
        if path[35] == 'd' {
            23
        } else if path[35] == 's' {
            24
        } else if path[35] == 'a' {
            33
        } else {
            63
        }
    } else {
        -1
    }
}

/// Where a path of 45 to 51 characters stands.
#[verifier::opaque]
pub open spec fn place_2(path: Seq<char>) -> int {
    if path.len() == 45 {
        if path[44] == 'k' {
            75
        } else if path[44] == 'e' {
            82
        } else {
            100
        }
    } else if path.len() == 46 {
        if path[44] == 'd' {
            20
        } else if path[44] == 'b' {
            27
        } else if path[44] == 'e' {
            39
        } else if path[44] == 'o' {
            101
        } else {
            103
        }
    } else if path.len() == 47 {
        if path[46] == 'i' {
            25
        } else {
            102
        }
    } else if path.len() == 51 {
        28
    } else {
        -1
    }
}

/// Where a bound path stands in the table.
pub open spec fn place_of(path: Seq<char>) -> int {
    if path.len() <= 35 {
        place_0(path)
    } else if path.len() <= 44 {
        place_1(path)
    } else {
        place_2(path)
    }
}

proof fn places_from_0()
    ensures
        forall|i: int| 0 <= i < 6 ==> place_of(#[trigger] bound(i).0) == i,
{
    reveal(place_0);
    reveal(place_1);
    reveal_strlit("grain::program::Program::jit_identity");
    reveal_strlit("rhai::grain::vm::jit::code_byte");
    reveal_strlit("rhai::grain::vm::jit::code_width");
    reveal_strlit("rhai::grain::vm::jit::code_u16");
    reveal_strlit("rhai::grain::vm::jit::code_u32");
    reveal_strlit("rhai::grain::vm::jit::code_form");
    assert(place_of(bound(0).0) == 0);
    assert(place_of(bound(1).0) == 1);
    assert(place_of(bound(2).0) == 2);
    assert(place_of(bound(3).0) == 3);
    assert(place_of(bound(4).0) == 4);
    assert(place_of(bound(5).0) == 5);
}

proof fn places_from_6()
    ensures
        forall|i: int| 6 <= i < 12 ==> place_of(#[trigger] bound(i).0) == i,
{
    reveal(place_0);
    reveal(place_1);
    reveal_strlit("rhai::grain::vm::jit::code_position_bits");
    reveal_strlit("rhai::grain::vm::jit::program_constant");
    reveal_strlit("rhai::grain::vm::jit::program_assign_op");
    reveal_strlit("rhai::grain::vm::jit::track_operation_abi");
    reveal_strlit("rhai::grain::vm::jit::program_token");
    reveal_strlit("rhai::grain::vm::jit::chain_tail");
    assert(place_of(bound(6).0) == 6);
    assert(place_of(bound(7).0) == 7);
    assert(place_of(bound(8).0) == 8);
    assert(place_of(bound(9).0) == 9);
    assert(place_of(bound(10).0) == 10);
    assert(place_of(bound(11).0) == 11);
}

proof fn places_from_12()
    ensures
        forall|i: int| 12 <= i < 18 ==> place_of(#[trigger] bound(i).0) == i,
{
    reveal(place_0);
    reveal(place_1);
    reveal_strlit("rhai::grain::vm::jit::assign_op_kind");
    reveal_strlit("rhai::grain::vm::jit::program_chain");
    reveal_strlit("rhai::grain::vm::jit::program_switch");
    reveal_strlit("rhai::grain::vm::jit::program_residual");
    reveal_strlit("rhai::grain::vm::jit::program_name");
    reveal_strlit("rhai::grain::vm::program_name");
    assert(place_of(bound(12).0) == 12);
    assert(place_of(bound(13).0) == 13);
    assert(place_of(bound(14).0) == 14);
    assert(place_of(bound(15).0) == 15);
    assert(place_of(bound(16).0) == 16);
    assert(place_of(bound(17).0) == 17);
}

proof fn places_from_18()
    ensures
        forall|i: int| 18 <= i < 24 ==> place_of(#[trigger] bound(i).0) == i,
{
    reveal(place_0);
    reveal(place_1);
    reveal(place_2);
    reveal_strlit("rhai::grain::vm::jit::program_function");
    reveal_strlit("rhai::grain::vm::jit::run_chain_abi");
    reveal_strlit("rhai::grain::vm::jit::compiled_fn_is_plain_add");
    reveal_strlit("rhai::grain::vm::jit::plain_add_handled");
    reveal_strlit("rhai::grain::vm::jit::call_plain_add_abi");
    reveal_strlit("rhai::grain::vm::jit::call_plain_add_ref_abi");
    assert(place_of(bound(18).0) == 18);
    assert(place_of(bound(19).0) == 19);
    assert(place_of(bound(20).0) == 20);
    assert(place_of(bound(21).0) == 21);
    assert(place_of(bound(22).0) == 22);
    assert(place_of(bound(23).0) == 23);
}

proof fn places_from_24()
    ensures
        forall|i: int| 24 <= i < 30 ==> place_of(#[trigger] bound(i).0) == i,
{
    reveal(place_1);
    reveal(place_2);
    reveal_strlit("rhai::grain::vm::jit::call_plain_abs_ref_abi");
    reveal_strlit("rhai::grain::vm::jit::prepare_compiled_call_abi");
    reveal_strlit("rhai::grain::vm::jit::prepared_chunk_entry");
    reveal_strlit("rhai::grain::vm::jit::finish_compiled_call_abi");
    reveal_strlit("rhai::grain::vm::jit::call_syntactic_or_stacked_abi");
    reveal_strlit("rhai::grain::vm::jit::call_by_reference_abi");
    assert(place_of(bound(24).0) == 24);
    assert(place_of(bound(25).0) == 25);
    assert(place_of(bound(26).0) == 26);
    assert(place_of(bound(27).0) == 27);
    assert(place_of(bound(28).0) == 28);
    assert(place_of(bound(29).0) == 29);
}

proof fn places_from_30()
    ensures
        forall|i: int| 30 <= i < 36 ==> place_of(#[trigger] bound(i).0) == i,
{
    reveal(place_1);
    reveal_strlit("rhai::grain::vm::jit::store_scope_slot");
    reveal_strlit("rhai::grain::vm::jit::assign_local_abi");
    reveal_strlit("majit_metainterp::request_walk_abort");
    reveal_strlit("rhai::grain::vm::jit::request_walk_abort_abi");
    reveal_strlit("rhai::grain::vm::jit::load_named_abi");
    reveal_strlit("rhai::grain::vm::jit::assign_named_abi");
    assert(place_of(bound(30).0) == 30);
    assert(place_of(bound(31).0) == 31);
    assert(place_of(bound(32).0) == 32);
    assert(place_of(bound(33).0) == 33);
    assert(place_of(bound(34).0) == 34);
    assert(place_of(bound(35).0) == 35);
}

proof fn places_from_36()
    ensures
        forall|i: int| 36 <= i < 42 ==> place_of(#[trigger] bound(i).0) == i,
{
    reveal(place_0);
    reveal(place_1);
    reveal(place_2);
    reveal_strlit("rhai::grain::vm::jit::declare_local_abi");
    reveal_strlit("rhai::grain::vm::jit::catch_bind_abi");
    reveal_strlit("rhai::grain::vm::jit::operator_builtin_abi");
    reveal_strlit("rhai::grain::vm::jit::operator_builtin_handled");
    reveal_strlit("rhai::grain::vm::jit::name_is_abs");
    reveal_strlit("rhai::grain::vm::jit::unary_builtin_abi");
    assert(place_of(bound(36).0) == 36);
    assert(place_of(bound(37).0) == 37);
    assert(place_of(bound(38).0) == 38);
    assert(place_of(bound(39).0) == 39);
    assert(place_of(bound(40).0) == 40);
    assert(place_of(bound(41).0) == 41);
}

proof fn places_from_42()
    ensures
        forall|i: int| 42 <= i < 48 ==> place_of(#[trigger] bound(i).0) == i,
{
    reveal(place_0);
    reveal(place_1);
    reveal_strlit("rhai::grain::vm::jit::unary_builtin_handled");
    reveal_strlit("rhai::grain::vm::jit::make_closure_abi");
    reveal_strlit("rhai::grain::vm::jit::share_named_abi");
    reveal_strlit("rhai::grain::vm::jit::int_modulo");
    reveal_strlit("rhai::grain::vm::jit::int_modulo_result");
    reveal_strlit("core::cmp::impls::<Impl>::max");
    assert(place_of(bound(42).0) == 42);
    assert(place_of(bound(43).0) == 43);
    assert(place_of(bound(44).0) == 44);
    assert(place_of(bound(45).0) == 45);
    assert(place_of(bound(46).0) == 46);
    assert(place_of(bound(47).0) == 47);
}

proof fn places_from_48()
    ensures
        forall|i: int| 48 <= i < 54 ==> place_of(#[trigger] bound(i).0) == i,
{
    reveal(place_0);
    reveal(place_1);
    reveal_strlit("rhai::grain::vm::jit::vm_depth");
    reveal_strlit("rhai::grain::vm::jit::switch_dispatch");
    reveal_strlit("rhai::grain::vm::jit::switch_pop_subject");
    reveal_strlit("rhai::grain::vm::jit::switch_target");
    reveal_strlit("rhai::grain::vm::jit::switch_subject_kind");
    reveal_strlit("rhai::grain::vm::jit::switch_subject_hash");
    assert(place_of(bound(48).0) == 48);
    assert(place_of(bound(49).0) == 49);
    assert(place_of(bound(50).0) == 50);
    assert(place_of(bound(51).0) == 51);
    assert(place_of(bound(52).0) == 52);
    assert(place_of(bound(53).0) == 53);
}

proof fn places_from_54()
    ensures
        forall|i: int| 54 <= i < 60 ==> place_of(#[trigger] bound(i).0) == i,
{
    reveal(place_1);
    reveal_strlit("rhai::grain::vm::jit::switch_case_count");
    reveal_strlit("rhai::grain::vm::jit::switch_case_hash");
    reveal_strlit("rhai::grain::vm::jit::switch_case_has_int");
    reveal_strlit("rhai::grain::vm::jit::switch_case_int_key");
    reveal_strlit("rhai::grain::vm::jit::switch_case_target");
    reveal_strlit("rhai::grain::vm::jit::switch_default");
    assert(place_of(bound(54).0) == 54);
    assert(place_of(bound(55).0) == 55);
    assert(place_of(bound(56).0) == 56);
    assert(place_of(bound(57).0) == 57);
    assert(place_of(bound(58).0) == 58);
    assert(place_of(bound(59).0) == 59);
}

proof fn places_from_60()
    ensures
        forall|i: int| 60 <= i < 66 ==> place_of(#[trigger] bound(i).0) == i,
{
    reveal(place_1);
    reveal_strlit("rhai::grain::vm::jit::switch_range_count");
    reveal_strlit("rhai::grain::vm::jit::switch_range_from");
    reveal_strlit("rhai::grain::vm::jit::switch_range_to");
    reveal_strlit("rhai::grain::vm::jit::switch_range_inclusive");
    reveal_strlit("rhai::grain::vm::jit::switch_range_target");
    reveal_strlit("rhai::grain::vm::jit::dynamic_as_fast");
    assert(place_of(bound(60).0) == 60);
    assert(place_of(bound(61).0) == 61);
    assert(place_of(bound(62).0) == 62);
    assert(place_of(bound(63).0) == 63);
    assert(place_of(bound(64).0) == 64);
    assert(place_of(bound(65).0) == 65);
}

proof fn places_from_66()
    ensures
        forall|i: int| 66 <= i < 72 ==> place_of(#[trigger] bound(i).0) == i,
{
    reveal(place_0);
    reveal(place_1);
    reveal_strlit("rhai::grain::vm::jit::fast_int");
    reveal_strlit("rhai::grain::vm::jit::fast_bool");
    reveal_strlit("rhai::grain::vm::jit::fast_float");
    reveal_strlit("rhai::grain::vm::jit::array_len");
    reveal_strlit("rhai::grain::vm::jit::iterator_last_mut");
    reveal_strlit("rhai::grain::vm::jit::iter_next_store");
    assert(place_of(bound(66).0) == 66);
    assert(place_of(bound(67).0) == 67);
    assert(place_of(bound(68).0) == 68);
    assert(place_of(bound(69).0) == 69);
    assert(place_of(bound(70).0) == 70);
    assert(place_of(bound(71).0) == 71);
}

proof fn places_from_72()
    ensures
        forall|i: int| 72 <= i < 78 ==> place_of(#[trigger] bound(i).0) == i,
{
    reveal(place_0);
    reveal(place_1);
    reveal(place_2);
    reveal_strlit("rhai::grain::vm::jit::iter_next_produced");
    reveal_strlit("rhai::grain::vm::jit::store_scope_int");
    reveal_strlit("rhai::grain::vm::jit::store_int_range_next");
    reveal_strlit("rhai::grain::vm::jit::store_shared_from_stack");
    reveal_strlit("__len");
    reveal_strlit("rhai::grain::vm::jit::refuse_synthetic_len");
    assert(place_of(bound(72).0) == 72);
    assert(place_of(bound(73).0) == 73);
    assert(place_of(bound(74).0) == 74);
    assert(place_of(bound(75).0) == 75);
    assert(place_of(bound(76).0) == 76);
    assert(place_of(bound(77).0) == 77);
}

proof fn places_from_78()
    ensures
        forall|i: int| 78 <= i < 84 ==> place_of(#[trigger] bound(i).0) == i,
{
    reveal(place_1);
    reveal(place_2);
    reveal_strlit("rhai::grain::vm::jit::refuse_deref_write");
    reveal_strlit("rhai::grain::vm::jit::stash_ok_result");
    reveal_strlit("rhai::grain::vm::jit::take_finished_result");
    reveal_strlit("rhai::grain::vm::jit::array_entry_mut");
    reveal_strlit("rhai::grain::vm::jit::store_builtin_available");
    reveal_strlit("rhai::grain::vm::jit::store_builtin_apply");
    assert(place_of(bound(78).0) == 78);
    assert(place_of(bound(79).0) == 79);
    assert(place_of(bound(80).0) == 80);
    assert(place_of(bound(81).0) == 81);
    assert(place_of(bound(82).0) == 82);
    assert(place_of(bound(83).0) == 83);
}

proof fn places_from_84()
    ensures
        forall|i: int| 84 <= i < 90 ==> place_of(#[trigger] bound(i).0) == i,
{
    reveal(place_0);
    reveal(place_1);
    reveal_strlit("rhai::grain::vm::jit::fast_operators");
    reveal_strlit("rhai::grain::vm::jit::scope_from_frame");
    reveal_strlit("rhai::grain::vm::jit::pin_scope_with_vm");
    reveal_strlit("rhai::grain::vm::jit::scope_len");
    reveal_strlit("rhai::grain::vm::jit::operand_stack_len");
    reveal_strlit("grain::vm::Vm::grow_stack");
    assert(place_of(bound(84).0) == 84);
    assert(place_of(bound(85).0) == 85);
    assert(place_of(bound(86).0) == 86);
    assert(place_of(bound(87).0) == 87);
    assert(place_of(bound(88).0) == 88);
    assert(place_of(bound(89).0) == 89);
}

proof fn places_from_90()
    ensures
        forall|i: int| 90 <= i < 96 ==> place_of(#[trigger] bound(i).0) == i,
{
    reveal(place_0);
    reveal(place_1);
    reveal_strlit("rhai::grain::vm::jit::grow_stack_abi");
    reveal_strlit("rhai::grain::vm::jit::push_fast_int");
    reveal_strlit("rhai::grain::vm::jit::push_fast_bool");
    reveal_strlit("rhai::grain::vm::jit::push_fast_float");
    reveal_strlit("rhai::grain::vm::jit::push_fast_unit");
    reveal_strlit("rhai::grain::vm::jit::push_from_cell");
    assert(place_of(bound(90).0) == 90);
    assert(place_of(bound(91).0) == 91);
    assert(place_of(bound(92).0) == 92);
    assert(place_of(bound(93).0) == 93);
    assert(place_of(bound(94).0) == 94);
    assert(place_of(bound(95).0) == 95);
}

proof fn places_from_96()
    ensures
        forall|i: int| 96 <= i < 102 ==> place_of(#[trigger] bound(i).0) == i,
{
    reveal(place_0);
    reveal(place_1);
    reveal(place_2);
    reveal_strlit("rhai::grain::vm::jit::operand_stack_entry");
    reveal_strlit("rhai::grain::vm::jit::array_entry");
    reveal_strlit("rhai::grain::vm::jit::operand_stack_take");
    reveal_strlit("rhai::grain::vm::jit::operand_stack_store");
    reveal_strlit("rhai::grain::vm::jit::operand_stack_store_int");
    reveal_strlit("rhai::grain::vm::jit::operand_stack_store_bool");
    assert(place_of(bound(96).0) == 96);
    assert(place_of(bound(97).0) == 97);
    assert(place_of(bound(98).0) == 98);
    assert(place_of(bound(99).0) == 99);
    assert(place_of(bound(100).0) == 100);
    assert(place_of(bound(101).0) == 101);
}

proof fn places_from_102()
    ensures
        forall|i: int| 102 <= i < 108 ==> place_of(#[trigger] bound(i).0) == i,
{
    reveal(place_0);
    reveal(place_1);
    reveal(place_2);
    reveal_strlit("rhai::grain::vm::jit::operand_stack_store_float");
    reveal_strlit("rhai::grain::vm::jit::operand_stack_store_unit");
    reveal_strlit("rhai::grain::vm::jit::dynamic_store");
    reveal_strlit("rhai::grain::vm::jit::truncate_stack");
    reveal_strlit("rhai::grain::vm::jit::iterators_len");
    reveal_strlit("rhai::grain::vm::jit::iterators_pop");
    assert(place_of(bound(102).0) == 102);
    assert(place_of(bound(103).0) == 103);
    assert(place_of(bound(104).0) == 104);
    assert(place_of(bound(105).0) == 105);
    assert(place_of(bound(106).0) == 106);
    assert(place_of(bound(107).0) == 107);
}

proof fn places_from_108()
    ensures
        forall|i: int| 108 <= i < 114 ==> place_of(#[trigger] bound(i).0) == i,
{
    reveal(place_0);
    reveal(place_1);
    reveal_strlit("rhai::grain::vm::jit::iterators_truncate");
    reveal_strlit("rhai::grain::vm::jit::scope_rewind");
    reveal_strlit("rhai::grain::vm::jit::sizes_truncate");
    reveal_strlit("rhai::grain::vm::jit::handlers_len");
    reveal_strlit("rhai::grain::vm::jit::sizes_len");
    reveal_strlit("rhai::grain::vm::jit::scope_entry");
    assert(place_of(bound(108).0) == 108);
    assert(place_of(bound(109).0) == 109);
    assert(place_of(bound(110).0) == 110);
    assert(place_of(bound(111).0) == 111);
    assert(place_of(bound(112).0) == 112);
    assert(place_of(bound(113).0) == 113);
}

/// Every bound path stands where it is told to.
pub proof fn paths_tell_their_places()
    ensures
        forall|i: int| 0 <= i < BINDINGS ==> place_of(#[trigger] bound(i).0) == i,
{
    places_from_0();
    places_from_6();
    places_from_12();
    places_from_18();
    places_from_24();
    places_from_30();
    places_from_36();
    places_from_42();
    places_from_48();
    places_from_54();
    places_from_60();
    places_from_66();
    places_from_72();
    places_from_78();
    places_from_84();
    places_from_90();
    places_from_96();
    places_from_102();
    places_from_108();
}

/// No path is bound twice.
pub proof fn paths_are_bound_once(i: int, j: int)
    requires
        0 <= i < BINDINGS,
        0 <= j < BINDINGS,
    ensures
        bound(i).0 == bound(j).0 ==> i == j,
{
    paths_tell_their_places();
    assert(place_of(bound(i).0) == i);
    assert(place_of(bound(j).0) == j);
}

} // verus!
