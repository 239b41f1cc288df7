use vstd::prelude::*;

use std::collections::HashMap;

use crate::arithmetic::{u64_of, U32_BOUND};
use crate::data_type::{total_width, DataType};
use crate::library::Library;
use crate::memory::{can_pop, can_push, element_of, list_pop, list_push, pushed};
use crate::mmr::{
    leaf_index_to_node_index, leftmost_ancestor_spec, lemma_non_leaf_nodes_left, log2_floor, popcount,
    right_lineage_and_height,
};
use crate::snippet::{field_names, ShadowError, Snippet};
use crate::test_helpers::{get_init_tvm_stack, seeded_memory_deprecated, ExecutionState};
use crate::text::{decimal, push_decimal};
use crate::DIGEST_LENGTH;
use twenty_first::prelude::{BFieldElement, Digest, Tip5};

verus! {

broadcast use vstd::std_specs::hash::group_hash_axioms;

/// The digest that Tip5 gives for a pair of digests, left then right.
pub uninterp spec fn tip5_hash_pair(left: Seq<u64>, right: Seq<u64>) -> Seq<u64>;

/// Relies on twenty_first's `Tip5::hash_pair`, a function of the two
/// digests alone that returns a digest of five canonical words.
#[verifier::external_body]
fn hash_pair(left: &Vec<u64>, right: &Vec<u64>) -> (r: Vec<u64>)
    requires
        left@.len() == DIGEST_LENGTH,
        right@.len() == DIGEST_LENGTH,
    ensures
        r@ == tip5_hash_pair(left@, right@),
        r@.len() == DIGEST_LENGTH,
{
    let l = Digest::new(std::array::from_fn(|i| BFieldElement::new(left[i])));
    let r = Digest::new(std::array::from_fn(|i| BFieldElement::new(right[i])));
    Tip5::hash_pair(l, r).values().iter().map(|x| x.value()).collect()
}

/// Words before the first element of the lists this snippet works on:
/// the length word only.
pub const LIST_HEADER: u64 = 1;

/// The largest MMR height that the authentication path has room for.
pub const MAX_MMR_HEIGHT: u64 = 64;

/// Where the authentication path of the new leaf is written.
pub const AUTH_PATH_POINTER: u64 = 65;

/// `memory` after one merge: the last two peaks leave the peak list, the
/// older of them is appended to the authentication path and their hash
/// is appended to the peak list.
pub open spec fn merge_once(memory: Map<u64, u64>, peaks: u64, auth: u64) -> Map<u64, u64> {
    let w = DIGEST_LENGTH as nat;
    let h = LIST_HEADER as nat;
    let new_hash = element_of(memory, peaks, h, w, (memory[peaks] - 1) as nat);
    let m1 = memory.insert(peaks, (memory[peaks] - 1) as u64);
    let previous_peak = element_of(m1, peaks, h, w, (m1[peaks] - 1) as nat);
    let m2 = m1.insert(peaks, (m1[peaks] - 1) as u64);
    let m3 = pushed(m2, auth, h, previous_peak);
    pushed(m3, peaks, h, tip5_hash_pair(previous_peak, new_hash))
}

/// Whether one merge runs without touching a missing word or an empty list.
pub open spec fn can_merge(memory: Map<u64, u64>, peaks: u64, auth: u64) -> bool {
    let w = DIGEST_LENGTH as nat;
    let h = LIST_HEADER as nat;
    let m1 = memory.insert(peaks, (memory[peaks] - 1) as u64);
    let m2 = m1.insert(peaks, (m1[peaks] - 1) as u64);
    let previous_peak = element_of(m1, peaks, h, w, (m1[peaks] - 1) as nat);
    let m3 = pushed(m2, auth, h, previous_peak);
    &&& can_pop(memory, peaks, h, w)
    &&& can_pop(m1, peaks, h, w)
    &&& can_push(m2, auth)
    &&& can_push(m3, peaks)
}

/// Whether `count` merges in a row all run.
pub open spec fn merges_run(memory: Map<u64, u64>, peaks: u64, auth: u64, count: nat) -> bool
    decreases count,
{
    count == 0 || (can_merge(memory, peaks, auth) && merges_run(
        merge_once(memory, peaks, auth),
        peaks,
        auth,
        (count - 1) as nat,
    ))
}

/// `memory` after `count` merges in a row.
pub open spec fn merged(memory: Map<u64, u64>, peaks: u64, auth: u64, count: nat) -> Map<u64, u64>
    decreases count,
{
    if count == 0 {
        memory
    } else {
        merged(merge_once(memory, peaks, auth), peaks, auth, (count - 1) as nat)
    }
}

/// Merges the last two peaks of the list at `peaks_pointer` `count` times
/// in a row: each merge appends the older of the two to the
/// authentication path and their hash to the peak list. It fails exactly
/// where a list is empty or a word is missing.
pub fn merge_peaks(memory: &mut HashMap<u64, u64>, peaks_pointer: u64, count: u32) -> (r: Result<
    (),
    ShadowError,
>)
    ensures
        r is Ok <==> merges_run(old(memory)@, peaks_pointer, AUTH_PATH_POINTER, count as nat),
        r is Ok ==> final(memory)@ == merged(old(memory)@, peaks_pointer, AUTH_PATH_POINTER, count as nat),
{
    let ghost start = memory@;
    let mut remaining: u32 = count;
    while remaining != 0
        invariant
            merges_run(start, peaks_pointer, AUTH_PATH_POINTER, count as nat) == merges_run(
                memory@,
                peaks_pointer,
                AUTH_PATH_POINTER,
                remaining as nat,
            ),
            merged(start, peaks_pointer, AUTH_PATH_POINTER, count as nat) == merged(
                memory@,
                peaks_pointer,
                AUTH_PATH_POINTER,
                remaining as nat,
            ),
            start == old(memory)@,
        decreases remaining,
    {
        let ghost before = memory@;
        let new_hash = match list_pop(memory, peaks_pointer, LIST_HEADER, DIGEST_LENGTH as u64) {
            Ok(e) => e,
            Err(e) => {
                proof {
                    assert(!can_merge(before, peaks_pointer, AUTH_PATH_POINTER));
                    assert(!merges_run(before, peaks_pointer, AUTH_PATH_POINTER, remaining as nat));
                }
                return Err(e);
            },
        };
        let previous_peak = match list_pop(memory, peaks_pointer, LIST_HEADER, DIGEST_LENGTH as u64) {
            Ok(e) => e,
            Err(e) => {
                proof {
                    assert(!can_merge(before, peaks_pointer, AUTH_PATH_POINTER));
                    assert(!merges_run(before, peaks_pointer, AUTH_PATH_POINTER, remaining as nat));
                }
                return Err(e);
            },
        };
        match list_push(memory, AUTH_PATH_POINTER, LIST_HEADER, &previous_peak) {
            Ok(()) => {},
            Err(e) => {
                proof {
                    assert(!can_merge(before, peaks_pointer, AUTH_PATH_POINTER));
                    assert(!merges_run(before, peaks_pointer, AUTH_PATH_POINTER, remaining as nat));
                }
                return Err(e);
            },
        }
        let parent = hash_pair(&previous_peak, &new_hash);
        match list_push(memory, peaks_pointer, LIST_HEADER, &parent) {
            Ok(()) => {},
            Err(e) => {
                proof {
                    assert(!can_merge(before, peaks_pointer, AUTH_PATH_POINTER));
                    assert(!merges_run(before, peaks_pointer, AUTH_PATH_POINTER, remaining as nat));
                }
                return Err(e);
            },
        }
        proof {
            assert(memory@ == merge_once(before, peaks_pointer, AUTH_PATH_POINTER));
        }
        remaining = remaining - 1;
    }
    Ok(())
}

/// The stack's inputs: leaf count (two limbs), peak list pointer and the
/// new leaf's digest, its first word on top.
pub open spec fn append_inputs_ok(stack: Seq<u64>) -> bool {
    let n = stack.len();
    &&& n >= 8
    &&& stack[n - 8] < U32_BOUND
    &&& stack[n - 7] < U32_BOUND
    &&& u64_of(stack[n - 8], stack[n - 7]) < 0x8000_0000_0000_0000
}

/// The new leaf's digest, first word first.
pub open spec fn new_leaf_of(stack: Seq<u64>) -> Seq<u64> {
    let n = stack.len();
    seq![stack[n - 1], stack[n - 2], stack[n - 3], stack[n - 4], stack[n - 5]]
}

/// Memory once the authentication path is emptied and the leaf appended.
pub open spec fn memory_with_leaf(stack: Seq<u64>, memory: Map<u64, u64>) -> Map<u64, u64> {
    pushed(
        memory.insert(AUTH_PATH_POINTER, 0),
        stack[stack.len() - 6],
        LIST_HEADER as nat,
        new_leaf_of(stack),
    )
}

/// How many merges the append makes: the length of the new leaf's
/// right lineage.
pub open spec fn merge_count(stack: Seq<u64>) -> nat {
    let n = stack.len();
    let leaf_count = u64_of(stack[n - 8], stack[n - 7]);
    let node_index = 2 * leaf_count - popcount(leaf_count) + 1;
    right_lineage_and_height(node_index as nat).0
}

/// Appends a leaf to an MMR given by its leaf count and its list of peaks:
/// the peaks of the grown MMR replace the old ones in the list and the new
/// leaf's authentication path is written to a static list.
#[derive(Debug)]
pub struct CalculateNewPeaksFromAppend;

/// Words of static memory the authentication path is given: room for a
/// digest at each height.
pub const AUTH_PATH_WORDS: u64 = 320;

/// The code of the append, with the authentication path at `auth_path`.
pub open spec fn append_code(entrypoint: Seq<char>, auth_path: nat) -> Seq<char> {
    entrypoint + ":"@ + "
                    call tasm_list_unsafeimplu32_push___digest
                    // _ old_leaf_count_hi old_leaf_count_lo *peaks

                    // Create the auth path return value, a list living in static
                    // memory: every call writes it at the same address.
                    push "@ + decimal(auth_path) + "
                    push 0
                    call tasm_list_unsafeimplu32_set_length___digest
                    // _ old_leaf_count_hi old_leaf_count_lo *peaks *auth_path

                    swap 1
                    // _ old_leaf_count_hi old_leaf_count_lo *auth_path *peaks

                    dup 3 dup 3
                    // _ old_leaf_count_hi old_leaf_count_lo *auth_path *peaks old_leaf_count_hi old_leaf_count_lo

                    call tasm_mmr_data_index_to_node_index
                    // _ old_leaf_count_hi old_leaf_count_lo *auth_path *peaks new_ni_hi new_ni_lo

                    call tasm_mmr_right_ancestor_count_and_own_height
                    pop
                    // _ old_leaf_count_hi old_leaf_count_lo *auth_path *peaks rac

                    call "@ + entrypoint
        + "_while
                    // _ old_leaf_count_hi old_leaf_count_lo *auth_path *peaks (rac = 0)

                    pop
                    swap 3 pop swap 1 pop
                    // _ *peaks *auth_path

                    return

                // _ old_leaf_count_hi old_leaf_count_lo *auth_path *peaks rac
                "@ + entrypoint + "_while:
                    dup 0
                    push 0
                    eq
                    skiz
                        return

                    swap 2 swap 1
                    // _ old_leaf_count_hi old_leaf_count_lo rac *auth_path *peaks

                    dup 0
                    call tasm_list_unsafeimplu32_pop___digest
                    // _ old_leaf_count_hi old_leaf_count_lo rac *auth_path *peaks [digest (new_hash)]

                    dup 5
                    call tasm_list_unsafeimplu32_pop___digest
                    // _ old_leaf_count_hi old_leaf_count_lo rac *auth_path *peaks [digest (new_hash)] [digest (previous_peak)]

                    // Update authentication path with latest previous_peak
                    dup 11
                    dup 5 dup 5 dup 5 dup 5 dup 5
                    call tasm_list_unsafeimplu32_push___digest
                    pop
                    // _ old_leaf_count_hi old_leaf_count_lo rac *auth_path *peaks [digest (new_hash)] [digest (previous_peak)]

                    hash
                    pop pop pop pop pop
                    // _ old_leaf_count_hi old_leaf_count_lo rac *auth_path *peaks [digest (new_peak)]

                    call tasm_list_unsafeimplu32_push___digest
                    // _ old_leaf_count_hi old_leaf_count_lo rac *auth_path *peaks

                    swap 1 swap 2
                    // _ old_leaf_count_hi old_leaf_count_lo *auth_path *peaks rac

                    push -1
                    add
                    // _ old_leaf_count_hi old_leaf_count_lo *auth_path *peaks (rac - 1)

                    recurse
"@
}

/// The code of the append where static memory has no room for the
/// authentication path: it stops the machine.
pub open spec fn exhausted_code(entrypoint: Seq<char>) -> Seq<char> {
    entrypoint + ":"@ + "
                    // static memory is exhausted: stop the machine
                    push 0
                    assert
                    return
"@
}

impl Snippet for CalculateNewPeaksFromAppend {
    open spec fn spec_crash_conditions(&self) -> Seq<Seq<char>> {
        Seq::empty()
    }

    open spec fn spec_entrypoint(&self) -> Seq<char> {
        "calculate_new_peaks_from_append"@
    }

    open spec fn spec_input_types(&self) -> Seq<DataType> {
        seq![DataType::U64, DataType::List(Box::new(DataType::Digest)), DataType::Digest]
    }

    open spec fn spec_output_types(&self) -> Seq<DataType> {
        seq![DataType::List(Box::new(DataType::Digest)), DataType::List(Box::new(DataType::Digest))]
    }

    open spec fn spec_code(&self, free_pointer: nat) -> Seq<char> {
        if free_pointer + AUTH_PATH_WORDS <= u64::MAX {
            append_code(self.spec_entrypoint(), free_pointer)
        } else {
            exhausted_code(self.spec_entrypoint())
        }
    }

    open spec fn shadow_accepts(
        &self,
        stack: Seq<u64>,
        std_in: Seq<u64>,
        secret_in: Seq<u64>,
        memory: Map<u64, u64>,
    ) -> bool {
        &&& append_inputs_ok(stack)
        &&& can_push(memory.insert(AUTH_PATH_POINTER, 0), stack[stack.len() - 6])
        &&& merges_run(
            memory_with_leaf(stack, memory),
            stack[stack.len() - 6],
            AUTH_PATH_POINTER,
            merge_count(stack),
        )
    }

    open spec fn shadow_stack(
        &self,
        stack: Seq<u64>,
        std_in: Seq<u64>,
        secret_in: Seq<u64>,
        memory: Map<u64, u64>,
    ) -> Seq<u64> {
        stack.take(stack.len() - 8).push(stack[stack.len() - 6]).push(AUTH_PATH_POINTER)
    }

    open spec fn shadow_memory(
        &self,
        stack: Seq<u64>,
        std_in: Seq<u64>,
        secret_in: Seq<u64>,
        memory: Map<u64, u64>,
    ) -> Map<u64, u64> {
        merged(
            memory_with_leaf(stack, memory),
            stack[stack.len() - 6],
            AUTH_PATH_POINTER,
            merge_count(stack),
        )
    }

    proof fn lemma_stack_diff(
        &self,
        stack: Seq<u64>,
        std_in: Seq<u64>,
        secret_in: Seq<u64>,
        memory: Map<u64, u64>,
    ) {
        reveal_with_fuel(total_width, 4);
    }

    fn entrypoint(&self) -> (r: String) {
        String::from_str("calculate_new_peaks_from_append")
    }

    fn input_types(&self) -> (r: Vec<DataType>) {
        vec![DataType::U64, DataType::List(Box::new(DataType::Digest)), DataType::Digest]
    }

    fn output_types(&self) -> (r: Vec<DataType>) {
        vec![DataType::List(Box::new(DataType::Digest)), DataType::List(Box::new(DataType::Digest))]
    }

    fn input_field_names(&self) -> (r: Vec<String>) {
        proof {
            reveal_with_fuel(total_width, 4);
        }
        field_names(
            &[
                "old_leaf_count_hi",
                "old_leaf_count_lo",
                "*peaks",
                "new_leaf_4",
                "new_leaf_3",
                "new_leaf_2",
                "new_leaf_1",
                "new_leaf_0",
            ],
        )
    }

    fn output_field_names(&self) -> (r: Vec<String>) {
        proof {
            reveal_with_fuel(total_width, 4);
        }
        field_names(&["*new_peaks", "*auth_path"])
    }

    fn crash_conditions(&self) -> (r: Vec<String>) {
        Vec::new()
    }

    fn stack_diff(&self) -> (r: i64) {
        proof {
            reveal_with_fuel(total_width, 4);
        }
        -6
    }

    /// Reserves static memory for the authentication path once per
    /// program: every call of the snippet writes the same words.
    fn function_code(&self, library: &mut Library) -> (r: String) {
        let mut code = self.entrypoint();
        code.append(":");
        if library.free_pointer() > u64::MAX - AUTH_PATH_WORDS {
            code.append("
                    // static memory is exhausted: stop the machine
                    push 0
                    assert
                    return
");
            proof {
                assert(library.spec_labels().is_prefix_of(library.spec_labels()));
            }
            return code;
        }
        let entrypoint = self.entrypoint();
        let auth_path = library.kmalloc(AUTH_PATH_WORDS);
        code.append("
                    call tasm_list_unsafeimplu32_push___digest
                    // _ old_leaf_count_hi old_leaf_count_lo *peaks

                    // Create the auth path return value, a list living in static
                    // memory: every call writes it at the same address.
                    push ");
        push_decimal(&mut code, auth_path);
        code.append("
                    push 0
                    call tasm_list_unsafeimplu32_set_length___digest
                    // _ old_leaf_count_hi old_leaf_count_lo *peaks *auth_path

                    swap 1
                    // _ old_leaf_count_hi old_leaf_count_lo *auth_path *peaks

                    dup 3 dup 3
                    // _ old_leaf_count_hi old_leaf_count_lo *auth_path *peaks old_leaf_count_hi old_leaf_count_lo

                    call tasm_mmr_data_index_to_node_index
                    // _ old_leaf_count_hi old_leaf_count_lo *auth_path *peaks new_ni_hi new_ni_lo

                    call tasm_mmr_right_ancestor_count_and_own_height
                    pop
                    // _ old_leaf_count_hi old_leaf_count_lo *auth_path *peaks rac

                    call ");
        code.append(entrypoint.as_str());
        code.append("_while
                    // _ old_leaf_count_hi old_leaf_count_lo *auth_path *peaks (rac = 0)

                    pop
                    swap 3 pop swap 1 pop
                    // _ *peaks *auth_path

                    return

                // _ old_leaf_count_hi old_leaf_count_lo *auth_path *peaks rac
                ");
        code.append(entrypoint.as_str());
        code.append("_while:
                    dup 0
                    push 0
                    eq
                    skiz
                        return

                    swap 2 swap 1
                    // _ old_leaf_count_hi old_leaf_count_lo rac *auth_path *peaks

                    dup 0
                    call tasm_list_unsafeimplu32_pop___digest
                    // _ old_leaf_count_hi old_leaf_count_lo rac *auth_path *peaks [digest (new_hash)]

                    dup 5
                    call tasm_list_unsafeimplu32_pop___digest
                    // _ old_leaf_count_hi old_leaf_count_lo rac *auth_path *peaks [digest (new_hash)] [digest (previous_peak)]

                    // Update authentication path with latest previous_peak
                    dup 11
                    dup 5 dup 5 dup 5 dup 5 dup 5
                    call tasm_list_unsafeimplu32_push___digest
                    pop
                    // _ old_leaf_count_hi old_leaf_count_lo rac *auth_path *peaks [digest (new_hash)] [digest (previous_peak)]

                    hash
                    pop pop pop pop pop
                    // _ old_leaf_count_hi old_leaf_count_lo rac *auth_path *peaks [digest (new_peak)]

                    call tasm_list_unsafeimplu32_push___digest
                    // _ old_leaf_count_hi old_leaf_count_lo rac *auth_path *peaks

                    swap 1 swap 2
                    // _ old_leaf_count_hi old_leaf_count_lo *auth_path *peaks rac

                    push -1
                    add
                    // _ old_leaf_count_hi old_leaf_count_lo *auth_path *peaks (rac - 1)

                    recurse
");
        code
    }

    fn gen_input_states(&self, random: &Vec<u64>) -> (r: Vec<ExecutionState>) {
        let state = empty_mmr_state();
        let states = vec![state];
        proof {
            assert(states@[0] == state);
        }
        states
    }

    fn common_case_input_state(&self) -> (r: ExecutionState) {
        empty_mmr_state()
    }

    fn worst_case_input_state(&self) -> (r: ExecutionState) {
        empty_mmr_state()
    }

    /// The reference implementation. It fails exactly where the machine
    /// would crash; otherwise it leaves the peak list pointer and the
    /// authentication path pointer in place of its inputs.
    fn rust_shadowing(
        &self,
        stack: &mut Vec<u64>,
        std_in: &Vec<u64>,
        secret_in: &Vec<u64>,
        memory: &mut HashMap<u64, u64>,
    ) -> (r: Result<(), ShadowError>)
    {
        proof {
            reveal_with_fuel(total_width, 4);
        }
        let n = stack.len();
        if n < 8 {
            return Err(ShadowError::StackUnderflow);
        }
        let hi = stack[n - 8];
        let lo = stack[n - 7];
        if hi >= U32_BOUND || lo >= U32_BOUND {
            return Err(ShadowError::ValueOutOfRange);
        }
        let old_leaf_count: u64 = hi * U32_BOUND + lo;
        if old_leaf_count >= 0x8000_0000_0000_0000 {
            return Err(ShadowError::ValueOutOfRange);
        }
        let peaks_pointer = stack[n - 6];
        let new_leaf: Vec<u64> = vec![stack[n - 1], stack[n - 2], stack[n - 3], stack[n - 4], stack[n - 5]];
        let ghost old_stack = stack@;
        let ghost old_memory = memory@;
        proof {
            assert(new_leaf@ =~= new_leaf_of(old_stack));
        }
        memory.insert(AUTH_PATH_POINTER, 0);
        match list_push(memory, peaks_pointer, LIST_HEADER, &new_leaf) {
            Ok(()) => {},
            Err(e) => {
                return Err(e);
            },
        }
        proof {
            lemma_non_leaf_nodes_left(old_leaf_count as nat);
        }
        let new_node_index = leaf_index_to_node_index(old_leaf_count);
        let (lineage, _height) = crate::mmr::right_lineage_length_and_own_height(new_node_index);
        let ghost start = memory@;
        proof {
            assert(start == memory_with_leaf(old_stack, old_memory));
            assert(lineage as nat == merge_count(old_stack));
        }
        match merge_peaks(memory, peaks_pointer, lineage) {
            Ok(()) => {},
            Err(e) => return Err(e),
        }
        stack.truncate(n - 8);
        stack.push(peaks_pointer);
        stack.push(AUTH_PATH_POINTER);
        proof {
            assert(stack@ =~= old_stack.take(n - 8).push(peaks_pointer).push(AUTH_PATH_POINTER));
        }
        Ok(())
    }
}

/// An empty MMR whose peak list is at word 200, and a leaf of zeros.
fn empty_mmr_state() -> (r: ExecutionState)
    ensures
        CalculateNewPeaksFromAppend.shadow_accepts(
            r.stack@,
            r.std_in@,
            r.nondeterminism@,
            seeded_memory_deprecated(r.memory@, r.words_allocated),
        ),
{
    let mut stack = get_init_tvm_stack();
    stack.push(0);
    stack.push(0);
    stack.push(200);
    let mut i: usize = 0;
    while i < DIGEST_LENGTH
        invariant
            i <= DIGEST_LENGTH,
            stack@.len() == 19 + i,
            stack@[16] == 0,
            stack@[17] == 0,
            stack@[18] == 200,
        decreases DIGEST_LENGTH - i,
    {
        stack.push(0);
        i = i + 1;
    }
    let mut memory: HashMap<u64, u64> = HashMap::new();
    memory.insert(200, 0);
    proof {
        vstd::arithmetic::power2::lemma2_to64();
        assert(log2_floor(1) == 0);
        assert(popcount(0) == 0);
        assert(leftmost_ancestor_spec(1) == (1nat, 0nat));
        assert(right_lineage_and_height(1) == (0nat, 0nat));
    }
    ExecutionState::with_stack_and_memory(stack, memory, 0)
}
} // verus!
