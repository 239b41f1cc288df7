use std::collections::HashMap;

use tasm_lib::arithmetic::{decode_u64, encode_u64, ShiftRightU64, U32IsOdd};
use tasm_lib::dyn_malloc::rust_dyn_malloc_initialize;
use tasm_lib::snippet::Snippet;
use tasm_lib::test_helpers::{
    get_init_tvm_stack, link_for_isolated_run, rust_final_state,
    test_rust_equivalence_given_complete_state_deprecated,
    test_rust_equivalence_multiple_deprecated, ExecutionState, VmOutputState,
};

const FIELD_MAX: u64 = 0xffff_ffff_0000_0000;

/// The final state that the reference implementation leaves, seeded the
/// way the equivalence check seeds it.
fn reference_observed<T: Snippet>(snippet: &T, state: &ExecutionState) -> VmOutputState {
    let mut memory = state.memory.clone();
    if state.words_allocated > 0 {
        rust_dyn_malloc_initialize(&mut memory, state.words_allocated);
    }
    rust_final_state(snippet, &state.stack, &state.std_in, &state.nondeterminism, &memory, &vec![0; 16], 0)
        .unwrap()
}

/// Links the snippet and checks every state against the reference run.
fn check_states<T: Snippet>(snippet: &T, states: Vec<ExecutionState>) {
    let program = link_for_isolated_run(snippet, 0);
    assert!(program.starts_with(&format!("call {}\nhalt\n", snippet.entrypoint())));
    let observed: Vec<VmOutputState> = states.iter().map(|s| reference_observed(snippet, s)).collect();
    let n = observed.len();
    let checked = test_rust_equivalence_multiple_deprecated(snippet, &states, observed).unwrap();
    assert_eq!(n, checked.len());
}

/// Checks one state against the reference run and an expected stack.
fn check_with_expected<T: Snippet>(snippet: &T, stack: &Vec<u64>, expected: Option<&Vec<u64>>) {
    let state = ExecutionState::with_stack(stack.clone());
    let observed = reference_observed(snippet, &state);
    let mut memory = HashMap::new();
    test_rust_equivalence_given_complete_state_deprecated(
        snippet, stack, &vec![], &vec![], &mut memory, 0, expected, &observed,
    )
    .unwrap();
}

#[test]
fn is_odd_u32_test() {
    check_states(&U32IsOdd, U32IsOdd.gen_input_states(&random_words()));
}

#[test]
fn is_odd_u32_benchmark() {
    let snippet = U32IsOdd;
    let states = vec![snippet.common_case_input_state(), snippet.worst_case_input_state()];
    check_states(&snippet, states);
}

fn prop_is_odd(value: u32) {
    let mut init_stack = get_init_tvm_stack();
    init_stack.push(value as u64);
    let mut expected_stack = get_init_tvm_stack();
    expected_stack.push((value % 2) as u64);
    check_with_expected(&U32IsOdd, &init_stack, Some(&expected_stack));
}

#[test]
fn u32_is_odd_test() {
    for v in 0..=8 {
        prop_is_odd(v);
    }
    prop_is_odd(u32::MAX);
    for _ in 0..100 {
        prop_is_odd(rand::random());
    }
}

fn shift_state(value: u64, shift_amount: u32) -> ExecutionState {
    let mut stack = get_init_tvm_stack();
    stack.push(value >> 32);
    stack.push(value & u32::MAX as u64);
    stack.push(shift_amount as u64);
    ExecutionState::with_stack(stack)
}

#[test]
fn shift_right_u64_test() {
    check_states(&ShiftRightU64, ShiftRightU64.gen_input_states(&random_words()));
}

#[test]
fn shift_right_u64_benchmark() {
    let snippet = ShiftRightU64;
    let states = vec![snippet.common_case_input_state(), snippet.worst_case_input_state()];
    check_states(&snippet, states);
}

fn prop_shift_right(value: u64, shift_amount: u32) {
    let init_stack = shift_state(value, shift_amount).stack;
    let expected_u64 = value >> shift_amount;
    let mut expected_stack = get_init_tvm_stack();
    expected_stack.push(expected_u64 >> 32);
    expected_stack.push(expected_u64 & u32::MAX as u64);
    check_with_expected(&ShiftRightU64, &init_stack, Some(&expected_stack));
}

#[test]
fn shift_right_unit_test() {
    prop_shift_right(8, 2);
}

#[test]
fn shift_right_max_value_test() {
    for i in 0..64 {
        prop_shift_right(u32::MAX as u64, i);
    }
}

#[test]
fn shift_right_of_wide_value() {
    let value: u64 = 0x8000_0000_0000_0001;
    let mut stack = shift_state(value, 63).stack;
    let mut memory = HashMap::new();
    ShiftRightU64.rust_shadowing(&mut stack, &vec![], &vec![], &mut memory).unwrap();
    assert_eq!(&stack[16..], &[0, 1]);
    let mut stack = shift_state(value, 1).stack;
    ShiftRightU64.rust_shadowing(&mut stack, &vec![], &vec![], &mut memory).unwrap();
    assert_eq!(&stack[16..], &[0x4000_0000, 0]);
}

#[test]
#[should_panic]
fn shift_beyond_limit() {
    let mut init_stack = get_init_tvm_stack();
    init_stack.push(u32::MAX as u64);
    init_stack.push(u32::MAX as u64);
    init_stack.push(64);
    let mut memory = HashMap::new();
    ShiftRightU64.rust_shadowing(&mut init_stack, &vec![], &vec![], &mut memory).unwrap();
}

#[test]
fn is_odd_of_field_element_above_u32() {
    let mut stack = vec![FIELD_MAX];
    let mut memory = HashMap::new();
    U32IsOdd.rust_shadowing(&mut stack, &vec![], &vec![], &mut memory).unwrap();
    assert_eq!(stack, vec![0]);
}

#[test]
fn declared_stack_differences() {
    assert_eq!(U32IsOdd.stack_diff(), 0);
    assert_eq!(ShiftRightU64.stack_diff(), -1);
}

#[test]
fn u64_encoding_round_trip() {
    let value = 0x1234_5678_9abc_def0u64;
    let words = encode_u64(value);
    assert_eq!(words, vec![0x1234_5678, 0x9abc_def0]);
    assert_eq!(decode_u64(&words), Some(value));
    assert_eq!(decode_u64(&vec![1u64 << 32, 0]), None);
    assert_eq!(decode_u64(&vec![1]), None);
}

#[test]
fn one_field_name_per_word() {
    assert_eq!(ShiftRightU64.input_field_names(), vec!["value_hi", "value_lo", "shift_amount"]);
    assert_eq!(ShiftRightU64.output_field_names().len(), 2);
    assert_eq!(U32IsOdd.output_field_names(), vec!["value % 2"]);
}

/// Words drawn at random for the snippets' state generators.
fn random_words() -> Vec<u64> {
    (0..1200).map(|_| rand::random()).collect()
}
