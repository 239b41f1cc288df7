use std::collections::HashMap;

use tasm_lib::dyn_malloc::{allocate, AllocError, DynMalloc, ALLOCATION_BOUND, DYN_MALLOC_ADDRESS};
use tasm_lib::list::UnsafeNew;
use tasm_lib::data_type::DataType;
use tasm_lib::dyn_malloc::rust_dyn_malloc_initialize;
use tasm_lib::snippet::Snippet;
use tasm_lib::test_helpers::{
    get_init_tvm_stack, link_for_isolated_run, rust_final_state,
    test_rust_equivalence_multiple_deprecated, ExecutionState, VmOutputState,
};

/// The final state that the reference implementation leaves, seeded the
/// way the equivalence check seeds it.
fn reference_observed<T: Snippet>(snippet: &T, state: &ExecutionState) -> VmOutputState {
    let mut memory = state.memory.clone();
    if state.words_allocated > 0 {
        rust_dyn_malloc_initialize(&mut memory, state.words_allocated);
    }
    rust_final_state(snippet, &state.stack, &state.std_in, &state.nondeterminism, &memory, &vec![0; 16], 0)
        .unwrap()
}

/// Links the snippet and checks every state against the reference run.
fn check_states<T: Snippet>(snippet: &T, states: Vec<ExecutionState>) {
    let program = link_for_isolated_run(snippet, 0);
    assert!(program.starts_with(&format!("call {}\nhalt\n", snippet.entrypoint())));
    let observed: Vec<VmOutputState> = states.iter().map(|s| reference_observed(snippet, s)).collect();
    let n = observed.len();
    let checked = test_rust_equivalence_multiple_deprecated(snippet, &states, observed).unwrap();
    assert_eq!(n, checked.len());
}

fn size_state(size: u64, words_allocated: u64) -> ExecutionState {
    let mut stack = get_init_tvm_stack();
    stack.push(size);
    ExecutionState::with_stack_and_memory(stack, HashMap::new(), words_allocated)
}

#[test]
fn sane_address_chosen_for_dyn_malloc() {
    assert_eq!(0, DYN_MALLOC_ADDRESS);
}

#[test]
fn dyn_malloc_test() {
    check_states(&DynMalloc, DynMalloc.gen_input_states(&random_words()));
}

#[test]
fn unit_test() {
    let mut empty_memory_state = size_state(10, 0);
    let observed = reference_observed(&DynMalloc, &empty_memory_state);
    assert_eq!(observed.final_stack.last(), Some(&1));
    let mut non_empty_memory_state = size_state(10, 100);
    let observed = reference_observed(&DynMalloc, &non_empty_memory_state);
    assert_eq!(observed.final_stack.last(), Some(&100));
    empty_memory_state.stack.pop();
    non_empty_memory_state.stack.pop();
}

#[test]
fn dyn_malloc_benchmark() {
    let snippet = DynMalloc;
    let states = vec![snippet.common_case_input_state(), snippet.worst_case_input_state()];
    check_states(&snippet, states);
}

#[test]
fn allocations_from_empty_memory() {
    let mut memory = HashMap::new();
    assert_eq!(allocate(&mut memory, 10), Ok(1));
    assert_eq!(allocate(&mut memory, 1), Ok(11));
    assert_eq!(memory[&DYN_MALLOC_ADDRESS], 12);
}

#[test]
fn allocations_increase_and_cell_is_never_zero() {
    let mut memory = HashMap::new();
    memory.insert(DYN_MALLOC_ADDRESS, 0);
    let mut previous_end = 0;
    for size in [3u64, 1, 7, 100, 2] {
        let address = allocate(&mut memory, size).unwrap();
        assert!(address >= previous_end);
        assert!(address > 0);
        previous_end = address + size;
        assert_ne!(memory[&DYN_MALLOC_ADDRESS], 0);
    }
    let a = allocate(&mut memory, 0).unwrap();
    let b = allocate(&mut memory, 0).unwrap();
    assert_eq!(a, b);
}

#[test]
fn allocation_at_the_boundary() {
    let mut memory = HashMap::new();
    memory.insert(DYN_MALLOC_ADDRESS, ALLOCATION_BOUND - 11);
    let mut fits = memory.clone();
    assert_eq!(allocate(&mut fits, 10), Ok(ALLOCATION_BOUND - 11));
    assert_eq!(fits[&DYN_MALLOC_ADDRESS], ALLOCATION_BOUND - 1);
    let mut too_far = memory.clone();
    assert_eq!(allocate(&mut too_far, 11), Err(AllocError::AddressSpaceExhausted));
    assert_eq!(too_far, memory);
    let mut empty = HashMap::new();
    assert_eq!(allocate(&mut empty, ALLOCATION_BOUND), Err(AllocError::SizeTooLarge));
    assert!(empty.is_empty());
}

#[test]
fn dyn_malloc_refuses_what_does_not_fit() {
    let mut stack = vec![ALLOCATION_BOUND];
    let mut memory = HashMap::new();
    let r = DynMalloc.rust_shadowing(&mut stack, &vec![], &vec![], &mut memory);
    assert_eq!(r, Err(tasm_lib::snippet::ShadowError::AllocationFailed));
    let r = DynMalloc.rust_shadowing(&mut vec![], &vec![], &vec![], &mut memory);
    assert_eq!(r, Err(tasm_lib::snippet::ShadowError::StackUnderflow));
}

#[test]
fn initialization_code() {
    assert!(DynMalloc::get_initialization_code(0).is_empty());
    assert_eq!(DynMalloc::get_initialization_code(65), vec!["push 0", "push 65", "write_mem", "pop"]);
}

#[test]
fn list_allocation_goes_through_the_allocator() {
    let program = link_for_isolated_run(&UnsafeNew(DataType::U32), 0);
    assert!(program.contains("call tasm_memory_dyn_malloc"));
    assert_eq!(program.matches("tasm_memory_dyn_malloc:").count(), 1);
}

/// Words drawn at random for the snippets' state generators.
fn random_words() -> Vec<u64> {
    (0..1200).map(|_| rand::random()).collect()
}
