use std::collections::HashMap;

use tasm_lib::data_type::DataType;
use tasm_lib::io::ReadStdIn;
use tasm_lib::dyn_malloc::rust_dyn_malloc_initialize;
use tasm_lib::snippet::Snippet;
use tasm_lib::test_helpers::{
    get_init_tvm_stack, link_for_isolated_run, rust_final_state,
    test_rust_equivalence_multiple_deprecated, ExecutionState, VmOutputState,
};

/// The final state that the reference implementation leaves, seeded the
/// way the equivalence check seeds it.
fn reference_observed<T: Snippet>(snippet: &T, state: &ExecutionState) -> VmOutputState {
    let mut memory = state.memory.clone();
    if state.words_allocated > 0 {
        rust_dyn_malloc_initialize(&mut memory, state.words_allocated);
    }
    rust_final_state(snippet, &state.stack, &state.std_in, &state.nondeterminism, &memory, &vec![0; 16], 0)
        .unwrap()
}

/// Links the snippet and checks every state against the reference run.
fn check_states<T: Snippet>(snippet: &T, states: Vec<ExecutionState>) {
    let program = link_for_isolated_run(snippet, 0);
    assert!(program.starts_with(&format!("call {}\nhalt\n", snippet.entrypoint())));
    let observed: Vec<VmOutputState> = states.iter().map(|s| reference_observed(snippet, s)).collect();
    let n = observed.len();
    let checked = test_rust_equivalence_multiple_deprecated(snippet, &states, observed).unwrap();
    assert_eq!(n, checked.len());
}


#[test]
fn read_stdin_new_snippet_test() {
    for _ in 0..10 {
        for data_type in [DataType::Bool, DataType::U32, DataType::U64, DataType::U128, DataType::BFE, DataType::XFE, DataType::Digest] {
            let snippet = ReadStdIn(data_type);
            check_states(&snippet, snippet.gen_input_states(&random_words()));
        }
    }
}

#[test]
fn read_stdin_benchmark() {
    let snippet = ReadStdIn(DataType::Digest);
    let states = vec![snippet.common_case_input_state(), snippet.worst_case_input_state()];
    check_states(&snippet, states);
}

#[test]
fn read_stdin_pushes_first_word_first() {
    let mut stack = vec![];
    let mut memory = HashMap::new();
    ReadStdIn(DataType::XFE).rust_shadowing(&mut stack, &vec![4, 5, 6, 7], &vec![], &mut memory).unwrap();
    assert_eq!(stack, vec![4, 5, 6]);
    assert_eq!(ReadStdIn(DataType::XFE).stack_diff(), 3);
}

#[test]
fn read_stdin_refuses_short_input() {
    let mut stack = vec![];
    let mut memory = HashMap::new();
    let r = ReadStdIn(DataType::Digest).rust_shadowing(&mut stack, &vec![1, 2], &vec![], &mut memory);
    assert_eq!(r, Err(tasm_lib::snippet::ShadowError::InputTooShort));
}

#[test]
fn read_stdin_code_reads_each_word() {
    let program = link_for_isolated_run(&ReadStdIn(DataType::U64), 0);
    assert_eq!(program.matches("read_io").count(), 2);
    let _ = HashMap::<u64, u64>::new();
}

/// Words drawn at random for the snippets' state generators.
fn random_words() -> Vec<u64> {
    (0..1200).map(|_| rand::random()).collect()
}
