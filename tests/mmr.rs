use std::collections::HashMap;

use tasm_lib::mmr::{
    log_2_floor, non_leaf_nodes_left, GetHeightFromDataIndex, MmrLeftMostAncestor,
    MmrNonLeafNodesLeftUsingAnd, MmrRightChildAndHeight,
};
use tasm_lib::dyn_malloc::rust_dyn_malloc_initialize;
use tasm_lib::snippet::Snippet;
use tasm_lib::test_helpers::{
    get_init_tvm_stack, link_for_isolated_run, u64_input_stack, rust_final_state,
    test_rust_equivalence_given_input_values_deprecated,
    test_rust_equivalence_multiple_deprecated, ExecutionState, VmOutputState,
};

/// The final state that the reference implementation leaves, seeded the
/// way the equivalence check seeds it.
fn reference_observed<T: Snippet>(snippet: &T, state: &ExecutionState) -> VmOutputState {
    let mut memory = state.memory.clone();
    if state.words_allocated > 0 {
        rust_dyn_malloc_initialize(&mut memory, state.words_allocated);
    }
    rust_final_state(snippet, &state.stack, &state.std_in, &state.nondeterminism, &memory, &vec![0; 16], 0)
        .unwrap()
}

/// Links the snippet and checks every state against the reference run.
fn check_states<T: Snippet>(snippet: &T, states: Vec<ExecutionState>) {
    let program = link_for_isolated_run(snippet, 0);
    assert!(program.starts_with(&format!("call {}\nhalt\n", snippet.entrypoint())));
    let observed: Vec<VmOutputState> = states.iter().map(|s| reference_observed(snippet, s)).collect();
    let n = observed.len();
    let checked = test_rust_equivalence_multiple_deprecated(snippet, &states, observed).unwrap();
    assert_eq!(n, checked.len());
}

/// Checks one state against the reference run and an expected stack.
fn check_with_expected<T: Snippet>(snippet: &T, stack: &Vec<u64>, expected: Option<&Vec<u64>>) {
    let state = ExecutionState::with_stack(stack.clone());
    let observed = reference_observed(snippet, &state);
    let mut memory = HashMap::new();
    test_rust_equivalence_given_input_values_deprecated(snippet, stack, &vec![], &mut memory, 0, expected, &observed)
    .unwrap();
}

fn expected_stack(words: &[u64]) -> Vec<u64> {
    let mut stack = get_init_tvm_stack();
    stack.extend_from_slice(words);
    stack
}

#[test]
fn non_leaf_nodes_left_test() {
    let snippet = MmrNonLeafNodesLeftUsingAnd;
    check_states(&snippet, snippet.gen_input_states(&random_words()));
}

#[test]
fn non_leaf_nodes_left_benchmark() {
    let snippet = MmrNonLeafNodesLeftUsingAnd;
    let states = vec![snippet.common_case_input_state(), snippet.worst_case_input_state()];
    check_states(&snippet, states);
}

fn prop_non_leaf_nodes_left_using_and(leaf_index: u64, expected: Option<&Vec<u64>>) {
    check_with_expected(&MmrNonLeafNodesLeftUsingAnd, &u64_input_stack(leaf_index), expected);
}

#[test]
fn non_leaf_nodes_left_using_and_test() {
    let cases: [(u64, u64); 14] = [
        (0, 0), (1, 0), (2, 1), (3, 1), (4, 3), (5, 3), (6, 4), (7, 4), (8, 7), (9, 7), (10, 8),
        (11, 8), (12, 10), (13, 10),
    ];
    for (leaf_index, count) in cases {
        prop_non_leaf_nodes_left_using_and(leaf_index, Some(&expected_stack(&[0, count])));
    }
    prop_non_leaf_nodes_left_using_and(u32::MAX as u64, None);
    prop_non_leaf_nodes_left_using_and(u64::MAX / 2, None);
}

#[test]
fn non_leaf_nodes_using_and_pbt() {
    for _ in 0..10 {
        prop_non_leaf_nodes_left_using_and(rand::random(), None);
    }
}

#[test]
fn non_leaf_nodes_left_is_index_minus_ones() {
    assert_eq!(non_leaf_nodes_left(u64::MAX), u64::MAX - 64);
    assert_eq!(non_leaf_nodes_left(1 << 40), (1 << 40) - 1);
    let mut stack = u64_input_stack(u64::MAX);
    MmrNonLeafNodesLeftUsingAnd.rust_shadowing(&mut stack, &vec![], &vec![], &mut HashMap::new()).unwrap();
    assert_eq!(&stack[16..], &[(u64::MAX - 64) >> 32, (u64::MAX - 64) & u32::MAX as u64]);
}

#[test]
fn get_height_from_data_index_test() {
    check_states(&GetHeightFromDataIndex, GetHeightFromDataIndex.gen_input_states(&random_words()));
}

#[test]
fn get_height_from_data_index_benchmark() {
    let snippet = GetHeightFromDataIndex;
    let states = vec![snippet.common_case_input_state(), snippet.worst_case_input_state()];
    check_states(&snippet, states);
}

fn prop_get_height_from_leaf_index(leaf_index: u64, height: u64) {
    check_with_expected(&GetHeightFromDataIndex, &u64_input_stack(leaf_index), Some(&expected_stack(&[height])));
}

#[test]
fn get_height_from_leaf_index_test_simple() {
    prop_get_height_from_leaf_index(0, 0);
    for i in 1..=2 {
        prop_get_height_from_leaf_index(i, 1);
    }
    for i in 3..=6 {
        prop_get_height_from_leaf_index(i, 2);
    }
    for i in 7..=14 {
        prop_get_height_from_leaf_index(i, 3);
    }
    for i in 15..=22 {
        prop_get_height_from_leaf_index(i, 4);
    }
    prop_get_height_from_leaf_index(u32::MAX as u64 - 2, 31);
    prop_get_height_from_leaf_index(u32::MAX as u64 - 1, 31);
    prop_get_height_from_leaf_index(u32::MAX as u64, 32);
    prop_get_height_from_leaf_index(u32::MAX as u64 + 1, 32);
    prop_get_height_from_leaf_index(u32::MAX as u64 + 2, 32);
    prop_get_height_from_leaf_index((1u64 << 45) - 2, 44);
    prop_get_height_from_leaf_index((1u64 << 45) - 1, 45);
    prop_get_height_from_leaf_index(1u64 << 45, 45);
    prop_get_height_from_leaf_index((1u64 << 45) + 1, 45);
    prop_get_height_from_leaf_index((1u64 << 45) + (1 << 40), 45);
    prop_get_height_from_leaf_index((1u64 << 63) - 1, 63);
    prop_get_height_from_leaf_index(1u64 << 63, 63);
    prop_get_height_from_leaf_index((1u64 << 63) + 1, 63);
    prop_get_height_from_leaf_index((1u64 << 63) + (1 << 40), 63);
}

#[test]
fn log_2_floor_values() {
    assert_eq!(log_2_floor(1), 0);
    assert_eq!(log_2_floor(2), 1);
    assert_eq!(log_2_floor(1 << 64), 64);
    assert_eq!(log_2_floor(u128::MAX), 127);
}

#[test]
fn leftmost_ancestor_test() {
    check_states(&MmrLeftMostAncestor, MmrLeftMostAncestor.gen_input_states(&random_words()));
}

#[test]
fn leftmost_ancestor_benchmark() {
    let snippet = MmrLeftMostAncestor;
    let states = vec![snippet.common_case_input_state(), snippet.worst_case_input_state()];
    check_states(&snippet, states);
}

fn prop_leftmost_ancestor(node_index: u64, expected: &Vec<u64>) {
    check_with_expected(&MmrLeftMostAncestor, &u64_input_stack(node_index), Some(expected));
}

#[test]
fn u32s_leftmost_ancestor_simple() {
    prop_leftmost_ancestor(1, &expected_stack(&[0, 1, 0]));
    for i in 2..=3 {
        prop_leftmost_ancestor(i, &expected_stack(&[0, 3, 1]));
    }
    for i in 4..=7 {
        prop_leftmost_ancestor(i, &expected_stack(&[0, 7, 2]));
    }
    for i in 8..=15 {
        prop_leftmost_ancestor(i, &expected_stack(&[0, 15, 3]));
    }
    for i in 16..=31 {
        prop_leftmost_ancestor(i, &expected_stack(&[0, 31, 4]));
    }
    for i in 32..=63 {
        prop_leftmost_ancestor(i, &expected_stack(&[0, 63, 5]));
    }
    prop_leftmost_ancestor(1u64 << 32, &expected_stack(&[1, u32::MAX as u64, 32]));
    prop_leftmost_ancestor(1u64 << 33, &expected_stack(&[3, u32::MAX as u64, 33]));
    prop_leftmost_ancestor(1u64 << 62, &expected_stack(&[(1u64 << 31) - 1, u32::MAX as u64, 62]));
}

#[test]
fn leftmost_ancestor_of_top_bit() {
    prop_leftmost_ancestor(1u64 << 63, &expected_stack(&[u32::MAX as u64, u32::MAX as u64, 63]));
}

#[test]
fn right_child_and_height_test() {
    check_states(&MmrRightChildAndHeight, MmrRightChildAndHeight.gen_input_states(&random_words()));
}

#[test]
fn right_child_and_height_benchmark() {
    let snippet = MmrRightChildAndHeight;
    let states = vec![snippet.common_case_input_state(), snippet.worst_case_input_state()];
    check_states(&snippet, states);
}

fn prop_right_child_and_height(node_index: u64, is_right: u64, height: u64) {
    check_with_expected(&MmrRightChildAndHeight, &u64_input_stack(node_index), Some(&expected_stack(&[is_right, height])));
}

#[test]
fn right_child_and_height_node_index_equal_leftmost_ancestor() {
    prop_right_child_and_height(1, 0, 0);
    prop_right_child_and_height(3, 0, 1);
    prop_right_child_and_height(7, 0, 2);
    prop_right_child_and_height(15, 0, 3);
    prop_right_child_and_height(31, 0, 4);
    prop_right_child_and_height(63, 0, 5);
}

#[test]
fn right_child_and_height_node_index_any() {
    let cases: [(u64, u64, u64); 13] = [
        (1, 0, 0), (2, 1, 0), (3, 0, 1), (4, 0, 0), (5, 1, 0), (6, 1, 1), (7, 0, 2), (8, 0, 0),
        (14, 1, 2), (15, 0, 3), (16, 0, 0), (17, 1, 0), (18, 0, 1),
    ];
    for (node_index, is_right, height) in cases {
        prop_right_child_and_height(node_index, is_right, height);
    }
    let hi = (u32::MAX / 2) as u64;
    prop_right_child_and_height((hi << 32) + (u32::MAX - 1) as u64, 1, 61);
    prop_right_child_and_height((hi << 32) + u32::MAX as u64, 0, 62);
}

#[test]
fn right_child_and_height_node_is_left_child() {
    prop_right_child_and_height(1, 0, 0);
    prop_right_child_and_height(3, 0, 1);
    prop_right_child_and_height(4, 0, 0);
}

#[test]
fn node_index_zero_is_refused() {
    let mut stack = u64_input_stack(0);
    assert!(MmrLeftMostAncestor.rust_shadowing(&mut stack, &vec![], &vec![], &mut HashMap::new()).is_err());
    let mut stack = u64_input_stack(0);
    assert!(MmrRightChildAndHeight.rust_shadowing(&mut stack, &vec![], &vec![], &mut HashMap::new()).is_err());
}

/// Words drawn at random for the snippets' state generators.
fn random_words() -> Vec<u64> {
    (0..1200).map(|_| rand::random()).collect()
}
