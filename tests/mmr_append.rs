use std::collections::HashMap;

use tasm_lib::library::Library;
use tasm_lib::memory::list_push;
use tasm_lib::snippet::Snippet;
use tasm_lib::mmr_append::{merge_peaks, CalculateNewPeaksFromAppend, AUTH_PATH_POINTER, LIST_HEADER};
use tasm_lib::test_helpers::get_init_tvm_stack;
use twenty_first::prelude::{BFieldElement, Digest, Mmr, Tip5};
use twenty_first::util_types::mmr::mmr_accumulator::MmrAccumulator;

fn words(digest: &Digest) -> Vec<u64> {
    digest.values().iter().map(|x| x.value()).collect()
}

fn read_list(memory: &HashMap<u64, u64>, pointer: u64) -> Vec<Vec<u64>> {
    let length = memory[&pointer];
    (0..length)
        .map(|i| (0..5).map(|j| memory[&(pointer + 1 + 5 * i + j)]).collect())
        .collect()
}

fn prop_calculate_new_peaks_from_append(start: &MmrAccumulator, new_leaf: Digest, expected: &MmrAccumulator) {
    let peaks_pointer = 0u64;
    let mut init_stack = get_init_tvm_stack();
    let old_leaf_count = start.num_leafs();
    init_stack.push(old_leaf_count >> 32);
    init_stack.push(old_leaf_count & u32::MAX as u64);
    init_stack.push(peaks_pointer);
    for value in words(&new_leaf).iter().rev() {
        init_stack.push(*value);
    }

    let mut memory: HashMap<u64, u64> = HashMap::new();
    memory.insert(peaks_pointer, 0);
    for peak in start.peaks() {
        list_push(&mut memory, peaks_pointer, LIST_HEADER, &words(&peak)).unwrap();
    }

    let mut stack = init_stack.clone();
    CalculateNewPeaksFromAppend.rust_shadowing(&mut stack, &vec![], &vec![], &mut memory).unwrap();
    let mut expected_final_stack = get_init_tvm_stack();
    expected_final_stack.push(peaks_pointer);
    expected_final_stack.push(AUTH_PATH_POINTER);
    assert_eq!(stack, expected_final_stack);
    assert_eq!(init_stack.len() as i64 + CalculateNewPeaksFromAppend.stack_diff(), stack.len() as i64);

    let produced: Vec<Vec<u64>> = read_list(&memory, peaks_pointer);
    let wanted: Vec<Vec<u64>> = expected.peaks().iter().map(words).collect();
    assert_eq!(produced, wanted);
}

#[test]
fn mmra_append_test_empty() {
    let mmra = MmrAccumulator::new_from_leafs(vec![]);
    let digest = Tip5::hash(&BFieldElement::new(0));
    let expected_final_mmra = MmrAccumulator::new_from_leafs(vec![digest]);
    prop_calculate_new_peaks_from_append(&mmra, digest, &expected_final_mmra);
}

#[test]
fn mmra_append_test_single() {
    let digest0 = Tip5::hash(&BFieldElement::new(4545));
    let digest1 = Tip5::hash(&BFieldElement::new(12345));
    let mmra = MmrAccumulator::new_from_leafs(vec![digest0]);
    let expected_final_mmra = MmrAccumulator::new_from_leafs(vec![digest0, digest1]);
    prop_calculate_new_peaks_from_append(&mmra, digest1, &expected_final_mmra);
}

#[test]
fn append_writes_authentication_path() {
    let digest0 = Tip5::hash(&BFieldElement::new(1));
    let digest1 = Tip5::hash(&BFieldElement::new(2));
    let mut memory: HashMap<u64, u64> = HashMap::new();
    memory.insert(0, 0);
    list_push(&mut memory, 0, LIST_HEADER, &words(&digest0)).unwrap();
    let mut stack = vec![0, 1, 0];
    for value in words(&digest1).iter().rev() {
        stack.push(*value);
    }
    CalculateNewPeaksFromAppend.rust_shadowing(&mut stack, &vec![], &vec![], &mut memory).unwrap();
    assert_eq!(read_list(&memory, AUTH_PATH_POINTER), vec![words(&digest0)]);
    assert_eq!(read_list(&memory, 0), vec![words(&Tip5::hash_pair(digest0, digest1))]);
}

#[test]
fn append_without_enough_peaks_fails() {
    let mut memory: HashMap<u64, u64> = HashMap::new();
    memory.insert(0, 0);
    let mut stack = vec![0, 1, 0, 1, 2, 3, 4, 5];
    assert!(CalculateNewPeaksFromAppend.rust_shadowing(&mut stack, &vec![], &vec![], &mut memory).is_err());
}

#[test]
fn digest_list_of_three_occupies_sixteen_words() {
    let base = 200u64;
    let mut memory: HashMap<u64, u64> = HashMap::new();
    memory.insert(base, 0);
    for i in 0..3u64 {
        list_push(&mut memory, base, LIST_HEADER, &vec![i, i, i, i, i]).unwrap();
    }
    assert_eq!(memory[&base], 3);
    for address in base..=base + 15 {
        assert!(memory.contains_key(&address));
    }
    assert_eq!(memory.len(), 16);
}

#[test]
fn merging_two_peaks() {
    let a = Tip5::hash(&BFieldElement::new(10));
    let b = Tip5::hash(&BFieldElement::new(11));
    let mut memory: HashMap<u64, u64> = HashMap::new();
    memory.insert(300, 0);
    memory.insert(AUTH_PATH_POINTER, 0);
    list_push(&mut memory, 300, LIST_HEADER, &words(&a)).unwrap();
    list_push(&mut memory, 300, LIST_HEADER, &words(&b)).unwrap();
    let mut twice = memory.clone();
    merge_peaks(&mut memory, 300, 1).unwrap();
    assert_eq!(read_list(&memory, 300), vec![words(&Tip5::hash_pair(a, b))]);
    assert_eq!(read_list(&memory, AUTH_PATH_POINTER), vec![words(&a)]);
    assert_eq!(
        merge_peaks(&mut twice, 300, 2),
        Err(tasm_lib::snippet::ShadowError::EmptyList)
    );
}

#[test]
fn append_code_reserves_static_auth_path() {
    let mut library = Library::with_preallocated_memory(65);
    let code = CalculateNewPeaksFromAppend.function_code(&mut library);
    assert!(code.starts_with("calculate_new_peaks_from_append:"));
    assert!(code.contains("push 65\n"));
    assert!(code.contains("calculate_new_peaks_from_append_while:"));
    assert_eq!(library.free_pointer(), 65 + 320);
    let again = CalculateNewPeaksFromAppend.function_code(&mut library);
    assert!(again.contains("push 385\n"));
}

#[test]
fn append_benchmark_state_runs() {
    let state = CalculateNewPeaksFromAppend.common_case_input_state();
    let mut stack = state.stack.clone();
    let mut memory = state.memory.clone();
    CalculateNewPeaksFromAppend.rust_shadowing(&mut stack, &vec![], &vec![], &mut memory).unwrap();
    assert_eq!(&stack[16..], &[200, AUTH_PATH_POINTER]);
    assert_eq!(memory[&200], 1);
}
