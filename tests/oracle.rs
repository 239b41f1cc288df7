use std::collections::HashMap;

use tasm_lib::arithmetic::U32IsOdd;
use tasm_lib::dyn_malloc::DynMalloc;
use tasm_lib::snippet::ShadowError;
use tasm_lib::test_helpers::{
    get_init_tvm_stack, rust_final_state, test_rust_equivalence_given_complete_state,
    test_rust_equivalence_given_complete_state_deprecated,
    test_rust_equivalence_given_execution_state, test_rust_equivalence_given_execution_state_deprecated,
    test_rust_equivalence_multiple_deprecated, verify_hasher_state_equivalence,
    verify_memory_equivalence, verify_stack_equivalence, verify_stack_growth, EquivalenceError,
    ExecutionState, VmOutputState,
};

fn odd_stack(value: u64) -> Vec<u64> {
    let mut stack = get_init_tvm_stack();
    stack.push(value);
    stack
}

fn observed(final_stack: Vec<u64>) -> VmOutputState {
    VmOutputState {
        output: vec![],
        final_stack,
        final_ram: HashMap::new(),
        final_sponge_state: vec![0; 16],
    }
}

#[test]
fn stacks_are_compared_above_the_program_digest() {
    let mut a = odd_stack(3);
    let b = odd_stack(3);
    a[0] = 77;
    a[4] = 99;
    assert_eq!(verify_stack_equivalence(&a, &b), Ok(()));
    a[5] = 1;
    assert_eq!(verify_stack_equivalence(&a, &b), Err(EquivalenceError::StackMismatch));
    assert_eq!(verify_stack_equivalence(&vec![1, 2], &vec![3]), Ok(()));
}

#[test]
fn memories_are_compared_but_for_the_allocator_cell() {
    let mut a = HashMap::new();
    let mut b = HashMap::new();
    a.insert(0, 5);
    b.insert(0, 9);
    a.insert(7, 1);
    b.insert(7, 1);
    assert_eq!(verify_memory_equivalence(&a, &b), Ok(()));
    b.insert(8, 1);
    assert_eq!(verify_memory_equivalence(&a, &b), Err(EquivalenceError::MemoryMismatch));
}

#[test]
fn sponge_states_are_compared() {
    let a = observed(vec![]);
    let mut b = observed(vec![]);
    assert_eq!(verify_hasher_state_equivalence(observed(vec![]), observed(vec![])), Ok(()));
    b.final_sponge_state[3] = 1;
    assert_eq!(verify_hasher_state_equivalence(a, b), Err(EquivalenceError::SpongeMismatch));
}

#[test]
fn stack_growth_is_checked() {
    let initial = vec![1, 2, 3];
    assert_eq!(verify_stack_growth(&U32IsOdd, &initial, &vec![1, 2, 1]), Ok(()));
    assert_eq!(
        verify_stack_growth(&U32IsOdd, &initial, &vec![1, 2]),
        Err(EquivalenceError::StackGrowthMismatch)
    );
}

#[test]
fn each_mismatch_is_named() {
    let stack = odd_stack(5);
    let memory = HashMap::new();
    let sponge = vec![0; 16];
    let check = |tasm: &VmOutputState, expected: Option<&Vec<u64>>| {
        test_rust_equivalence_given_complete_state(
            &U32IsOdd, &stack, &vec![], &vec![], &memory, &sponge, 0, expected, tasm,
        )
    };
    assert_eq!(check(&observed(odd_stack(1)), None), Ok(()));
    let mut with_output = observed(odd_stack(1));
    with_output.output.push(4);
    assert_eq!(check(&with_output, None), Err(EquivalenceError::OutputMismatch));
    assert_eq!(check(&observed(odd_stack(0)), None), Err(EquivalenceError::StackMismatch));
    assert_eq!(
        check(&observed(odd_stack(1)), Some(&odd_stack(0))),
        Err(EquivalenceError::ExpectedStackMismatch)
    );
    let mut with_memory = observed(odd_stack(1));
    with_memory.final_ram.insert(3, 3);
    assert_eq!(check(&with_memory, None), Err(EquivalenceError::MemoryMismatch));
    let mut with_sponge = observed(odd_stack(1));
    with_sponge.final_sponge_state[0] = 8;
    assert_eq!(check(&with_sponge, None), Err(EquivalenceError::SpongeMismatch));
    let low = vec![1, 2];
    assert_eq!(
        test_rust_equivalence_given_complete_state(
            &U32IsOdd, &low, &vec![], &vec![], &memory, &sponge, 0, None, &observed(vec![9]),
        ),
        Err(EquivalenceError::StackGrowthMismatch)
    );
    let empty = vec![];
    assert_eq!(
        test_rust_equivalence_given_complete_state(
            &U32IsOdd, &empty, &vec![], &vec![], &memory, &sponge, 0, None, &observed(vec![]),
        ),
        Err(EquivalenceError::ReferenceFailed(ShadowError::StackUnderflow))
    );
}

#[test]
fn state_counts_must_match() {
    let states = vec![ExecutionState::with_stack(odd_stack(2))];
    assert_eq!(
        test_rust_equivalence_multiple_deprecated(&U32IsOdd, &states, vec![]).err(),
        Some(EquivalenceError::StateCountMismatch)
    );
}

#[test]
fn allocator_cell_is_seeded_past_static_memory() {
    let mut stack = get_init_tvm_stack();
    stack.push(10);
    let state = ExecutionState::with_stack_and_memory(stack.clone(), HashMap::new(), 100);
    let mut expected = get_init_tvm_stack();
    expected.push(100);
    let mut ram = HashMap::new();
    ram.insert(0, 110);
    let tasm = VmOutputState { output: vec![], final_stack: expected, final_ram: ram, final_sponge_state: vec![] };
    let back = test_rust_equivalence_given_execution_state_deprecated(&DynMalloc, &state, tasm).unwrap();
    assert_eq!(back.final_stack.last(), Some(&100));
    let reference = rust_final_state(&DynMalloc, &stack, &vec![], &vec![], &HashMap::new(), &vec![], 100).unwrap();
    assert_eq!(reference.final_ram[&0], 110);
}

#[test]
fn observed_memory_is_written_back() {
    let mut memory = HashMap::new();
    memory.insert(9, 9);
    let mut tasm = observed(odd_stack(1));
    tasm.final_ram.insert(9, 9);
    tasm.final_ram.insert(0, 1);
    test_rust_equivalence_given_complete_state_deprecated(
        &U32IsOdd, &odd_stack(3), &vec![], &vec![], &mut memory, 0, None, &tasm,
    )
    .unwrap();
    assert_eq!(memory.get(&0), None);
    assert_eq!(memory[&9], 9);
}

#[test]
fn sponge_is_compared_with_a_fresh_one() {
    let state = ExecutionState::with_stack(odd_stack(3));
    let mut fresh = vec![0u64; 10];
    fresh.extend_from_slice(&[1; 6]);
    let mut tasm = observed(odd_stack(1));
    tasm.final_sponge_state = fresh;
    assert!(test_rust_equivalence_given_execution_state(&U32IsOdd, &state, tasm).is_ok());
    let tasm = observed(odd_stack(1));
    assert_eq!(
        test_rust_equivalence_given_execution_state(&U32IsOdd, &state, tasm).err(),
        Some(EquivalenceError::SpongeMismatch)
    );
}
