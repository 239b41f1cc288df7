use std::collections::HashMap;

use tasm_lib::data_type::DataType;
use tasm_lib::list::{Length, SafePop, UnsafeNew, SAFE_LIST_HEADER};
use tasm_lib::memory::{list_pop, list_push};
use tasm_lib::dyn_malloc::rust_dyn_malloc_initialize;
use tasm_lib::snippet::Snippet;
use tasm_lib::test_helpers::{
    get_init_tvm_stack, link_for_isolated_run, rust_final_state,
    test_rust_equivalence_given_input_values_deprecated,
    test_rust_equivalence_multiple_deprecated, ExecutionState, VmOutputState,
};

/// The final state that the reference implementation leaves, seeded the
/// way the equivalence check seeds it.
fn reference_observed<T: Snippet>(snippet: &T, state: &ExecutionState) -> VmOutputState {
    let mut memory = state.memory.clone();
    if state.words_allocated > 0 {
        rust_dyn_malloc_initialize(&mut memory, state.words_allocated);
    }
    rust_final_state(snippet, &state.stack, &state.std_in, &state.nondeterminism, &memory, &vec![0; 16], 0)
        .unwrap()
}

/// Links the snippet and checks every state against the reference run.
fn check_states<T: Snippet>(snippet: &T, states: Vec<ExecutionState>) {
    let program = link_for_isolated_run(snippet, 0);
    assert!(program.starts_with(&format!("call {}\nhalt\n", snippet.entrypoint())));
    let observed: Vec<VmOutputState> = states.iter().map(|s| reference_observed(snippet, s)).collect();
    let n = observed.len();
    let checked = test_rust_equivalence_multiple_deprecated(snippet, &states, observed).unwrap();
    assert_eq!(n, checked.len());
}

/// Checks one state against the reference run and an expected stack.
fn check_with_expected<T: Snippet>(
    snippet: &T,
    stack: &Vec<u64>,
    memory: &mut HashMap<u64, u64>,
    expected: Option<&Vec<u64>>,
) {
    let state = ExecutionState::with_stack_and_memory(stack.clone(), memory.clone(), 0);
    let observed = reference_observed(snippet, &state);
    test_rust_equivalence_given_input_values_deprecated(snippet, stack, &vec![], memory, 0, expected, &observed)
    .unwrap();
}

const FIELD_MODULUS: u64 = 0xffff_ffff_0000_0001;

fn all_types() -> Vec<DataType> {
    vec![DataType::Bool, DataType::U32, DataType::U64, DataType::BFE, DataType::XFE, DataType::Digest]
}

fn random_word() -> u64 {
    rand::random_range(0..FIELD_MODULUS)
}

/// Writes a list with a capacity word at `list_pointer`: `length`
/// elements of random words.
fn safe_insert_random_list(
    data_type: &DataType,
    list_pointer: u64,
    capacity: u32,
    length: usize,
    memory: &mut HashMap<u64, u64>,
) {
    let size = data_type.get_size() as u64;
    memory.insert(list_pointer, length as u64);
    memory.insert((list_pointer + 1) % FIELD_MODULUS, capacity as u64);
    for word in 0..(length as u64 * size) {
        memory.insert((list_pointer + 2 + word) % FIELD_MODULUS, random_word());
    }
}

#[test]
fn new_snippet_test_long() {
    for data_type in all_types() {
        let snippet = Length(data_type);
        check_states(&snippet, snippet.gen_input_states(&random_words()));
    }
}

fn prop_length(element_type: &DataType, list_pointer: u64, list_length: usize, expected: Option<&Vec<u64>>) {
    let mut init_stack = get_init_tvm_stack();
    init_stack.push(list_pointer);
    let mut memory = HashMap::new();
    safe_insert_random_list(element_type, list_pointer, 1000, list_length, &mut memory);
    check_with_expected(&Length(DataType::BFE), &init_stack, &mut memory, expected);
}

#[test]
fn list_u32_simple() {
    for (data_type, length) in [(DataType::U64, 42u64), (DataType::XFE, 588), (DataType::Digest, 4), (DataType::U32, 7)] {
        let mut expected = get_init_tvm_stack();
        expected.push(length);
        prop_length(&data_type, 1, length as usize, Some(&expected));
    }
}

#[test]
fn safe_length_benchmark() {
    let snippet = Length(DataType::Digest);
    let states = vec![snippet.common_case_input_state(), snippet.worst_case_input_state()];
    check_states(&snippet, states);
}

#[test]
fn pop_new_snippet_test() {
    for data_type in all_types() {
        let snippet = SafePop(data_type);
        check_states(&snippet, snippet.gen_input_states(&random_words()));
    }
}

fn prop_pop(data_type: DataType, list_pointer: u64, init_list_length: usize, list_capacity: u32) {
    let element_size = data_type.get_size();
    let mut init_stack = get_init_tvm_stack();
    init_stack.push(list_pointer);
    let mut memory = HashMap::new();
    safe_insert_random_list(&data_type, list_pointer, list_capacity, init_list_length, &mut memory);

    let last_element = list_pop(&mut memory, list_pointer, SAFE_LIST_HEADER, element_size as u64).unwrap();
    list_push(&mut memory, list_pointer, SAFE_LIST_HEADER, &last_element).unwrap();

    let mut expected_end_stack = get_init_tvm_stack();
    for i in 0..element_size {
        expected_end_stack.push(last_element[element_size - 1 - i]);
    }
    check_with_expected(&SafePop(data_type), &init_stack, &mut memory, Some(&expected_end_stack));

    assert_eq!(init_list_length as u64 - 1, memory[&list_pointer]);
    assert_eq!(list_capacity as u64, memory[&(list_pointer + 1)]);
}

#[test]
#[should_panic]
fn panic_if_pop_on_empty_list_1() {
    prop_pop(DataType::BFE, 48, 0, 107);
}

#[test]
#[should_panic]
fn panic_if_pop_on_empty_list_2() {
    prop_pop(DataType::U64, 48, 0, 107);
}

#[test]
#[should_panic]
fn panic_if_pop_on_empty_list_3() {
    prop_pop(DataType::XFE, 48, 0, 107);
}

#[test]
fn list_u32_n_is_n_pop() {
    for (pointer, length, capacity) in [(1u64, 1usize, 1u32), (2, 1, 1), (1, 1, 2), (2, 1, 2), (1, 2, 2), (2, 2, 2), (1, 2, 3), (2, 2, 3)] {
        prop_pop(DataType::Digest, pointer, length, capacity);
    }
    prop_pop(DataType::BFE, 48, 24, 107);
    prop_pop(DataType::Bool, 48, 24, 107);
    prop_pop(DataType::U32, 48, 24, 107);
    prop_pop(DataType::U64, 48, 48, 107);
    prop_pop(DataType::XFE, 48, 3, 107);
    prop_pop(DataType::Digest, 48, 20, 107);
}

#[test]
fn safe_pop_benchmark() {
    let snippet = SafePop(DataType::Digest);
    let states = vec![snippet.common_case_input_state(), snippet.worst_case_input_state()];
    check_states(&snippet, states);
}

#[test]
fn pop_leaves_first_word_on_top() {
    let mut memory = HashMap::new();
    memory.insert(10, 1);
    memory.insert(11, 4);
    memory.insert(12, 7);
    memory.insert(13, 8);
    memory.insert(14, 9);
    let mut stack = vec![10];
    SafePop(DataType::XFE).rust_shadowing(&mut stack, &vec![], &vec![], &mut memory).unwrap();
    assert_eq!(stack, vec![9, 8, 7]);
    assert_eq!(memory[&10], 0);
}

#[test]
fn new_new_snippet_test() {
    for data_type in [DataType::Bool, DataType::BFE, DataType::U32, DataType::XFE, DataType::Digest, DataType::U64] {
        let snippet = UnsafeNew(data_type);
        check_states(&snippet, snippet.gen_input_states(&random_words()));
    }
}

#[test]
fn unsafe_new_benchmark() {
    let snippet = UnsafeNew(DataType::Digest);
    let states = vec![snippet.common_case_input_state(), snippet.worst_case_input_state()];
    check_states(&snippet, states);
}

#[test]
fn unsafe_new_allocates_length_word_and_elements() {
    let mut stack = vec![3];
    let mut memory = HashMap::new();
    UnsafeNew(DataType::Digest).rust_shadowing(&mut stack, &vec![], &vec![], &mut memory).unwrap();
    assert_eq!(stack, vec![1]);
    assert_eq!(memory[&1], 0);
    assert_eq!(memory[&0], 17);
}

#[test]
fn list_labels_name_the_element_type() {
    assert_eq!(SafePop(DataType::Digest).entrypoint(), "tasm_list_safeimplu32_pop___digest");
    assert_eq!(Length(DataType::U64).entrypoint(), "tasm_list_safeimplu32_length___u64");
    assert_eq!(
        UnsafeNew(DataType::List(Box::new(DataType::XFE))).entrypoint(),
        "tasm_list_unsafeimplu32_new___list_Lxfe_R"
    );
    assert_eq!(SafePop(DataType::Digest).stack_diff(), 4);
}

#[test]
fn popped_element_names() {
    assert_eq!(
        SafePop(DataType::XFE).output_field_names(),
        vec!["element_2", "element_1", "element_0"]
    );
    assert_eq!(Length(DataType::Digest).input_field_names(), vec!["*list"]);
}

/// Words drawn at random for the snippets' state generators.
fn random_words() -> Vec<u64> {
    (0..1200).map(|_| rand::random()).collect()
}
