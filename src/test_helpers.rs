use vstd::prelude::*;

use std::collections::HashMap;

use crate::data_type::total_width;
use crate::dyn_malloc::{rust_dyn_malloc_initialize, DYN_MALLOC_ADDRESS};
use crate::library::{joined, Library};
use crate::snippet::{defines_label, ShadowError, Snippet};
use crate::DIGEST_LENGTH;
use twenty_first::prelude::Tip5;
use twenty_first::util_types::sponge::Domain;
use vstd::std_specs::iter::IteratorSpec;

verus! {

broadcast use vstd::std_specs::hash::group_hash_axioms;

/// An initial machine state: stack, public input, the nondeterministic
/// input tape, memory, and how many words were allocated statically
/// before the program starts.
pub struct ExecutionState {
    pub stack: Vec<u64>,
    pub std_in: Vec<u64>,
    pub nondeterminism: Vec<u64>,
    pub memory: HashMap<u64, u64>,
    pub words_allocated: u64,
}

/// Number of words on the machine's stack when a program starts.
pub const NUM_OP_STACK_REGISTERS: usize = 16;

/// The stack a program starts with: all its registers zero.
pub fn get_init_tvm_stack() -> (r: Vec<u64>)
    ensures
        r@ == Seq::new(NUM_OP_STACK_REGISTERS as nat, |i: int| 0u64),
{
    let mut stack: Vec<u64> = Vec::new();
    let mut i: usize = 0;
    while i < NUM_OP_STACK_REGISTERS
        invariant
            i <= NUM_OP_STACK_REGISTERS,
            stack@ == Seq::new(i as nat, |j: int| 0u64),
        decreases NUM_OP_STACK_REGISTERS - i,
    {
        stack.push(0);
        i = i + 1;
        proof {
            assert(stack@ =~= Seq::new(i as nat, |j: int| 0u64));
        }
    }
    stack
}

impl ExecutionState {
    /// A state with the given stack, no input, empty memory and nothing
    /// allocated statically.
    pub fn with_stack(stack: Vec<u64>) -> (r: ExecutionState)
        ensures
            r.stack == stack,
            r.std_in@.len() == 0,
            r.nondeterminism@.len() == 0,
            r.memory@ == Map::<u64, u64>::empty(),
            r.words_allocated == 0,
    {
        ExecutionState {
            stack,
            std_in: Vec::new(),
            nondeterminism: Vec::new(),
            memory: HashMap::new(),
            words_allocated: 0,
        }
    }

    /// A state with the given stack and memory, no input, and
    /// `words_allocated` words allocated statically.
    pub fn with_stack_and_memory(
        stack: Vec<u64>,
        memory: HashMap<u64, u64>,
        words_allocated: u64,
    ) -> (r: ExecutionState)
        ensures
            r.stack == stack,
            r.std_in@.len() == 0,
            r.nondeterminism@.len() == 0,
            r.memory == memory,
            r.words_allocated == words_allocated,
    {
        ExecutionState { stack, std_in: Vec::new(), nondeterminism: Vec::new(), memory, words_allocated }
    }
}

/// A state whose stack is the initial stack with `words` pushed, with no
/// input, empty memory and nothing allocated statically.
pub fn state_with_words(words: &Vec<u64>) -> (r: ExecutionState)
    ensures
        r.stack@ == Seq::new(NUM_OP_STACK_REGISTERS as nat, |i: int| 0u64) + words@,
        r.std_in@.len() == 0,
        r.nondeterminism@.len() == 0,
        r.memory@ == Map::<u64, u64>::empty(),
        r.words_allocated == 0,
{
    let mut stack = get_init_tvm_stack();
    let ghost start = stack@;
    let mut i: usize = 0;
    while i < words.len()
        invariant
            i <= words@.len(),
            start == Seq::new(NUM_OP_STACK_REGISTERS as nat, |i: int| 0u64),
            stack@ == start + words@.take(i as int),
        decreases words.len() - i,
    {
        stack.push(words[i]);
        proof {
            assert(words@.take(i as int + 1) == words@.take(i as int).push(words@[i as int]));
            assert(stack@ =~= start + words@.take(i as int + 1));
        }
        i = i + 1;
    }
    proof {
        assert(words@.take(words@.len() as int) =~= words@);
    }
    ExecutionState::with_stack(stack)
}

/// The `i`-th drawn word, or zero where fewer were drawn.
pub fn drawn(random: &Vec<u64>, i: usize) -> (r: u64)
    ensures
        i < random@.len() ==> r == random@[i as int],
        i >= random@.len() ==> r == 0,
{
    if i < random.len() {
        random[i]
    } else {
        0
    }
}

/// The initial stack with a `u64` pushed as two `u32` limbs, low limb on top.
pub fn u64_input_stack(value: u64) -> (r: Vec<u64>)
    ensures
        r@ == Seq::new(NUM_OP_STACK_REGISTERS as nat, |i: int| 0u64).push(
            value / 0x1_0000_0000,
        ).push(value % 0x1_0000_0000),
{
    let mut stack = get_init_tvm_stack();
    stack.push(value / 0x1_0000_0000);
    stack.push(value % 0x1_0000_0000);
    stack
}

/// A final machine state: output stream, stack, memory and the sponge's
/// registers.
pub struct VmOutputState {
    pub output: Vec<u64>,
    pub final_stack: Vec<u64>,
    pub final_ram: HashMap<u64, u64>,
    pub final_sponge_state: Vec<u64>,
}

/// How the reference and the observed final state of a run differ.
#[derive(Debug, PartialEq, Eq)]
pub enum EquivalenceError {
    /// The reference implementation stopped where the machine would crash.
    ReferenceFailed(ShadowError),
    /// The output streams differ.
    OutputMismatch,
    /// The stacks differ above the program digest.
    StackMismatch,
    /// The stack differs from the expected one above the program digest.
    ExpectedStackMismatch,
    /// The memories differ at an address other than the allocator's cell.
    MemoryMismatch,
    /// The sponge states differ.
    SpongeMismatch,
    /// The stack did not grow by the snippet's declared stack difference.
    StackGrowthMismatch,
    /// There are not as many observed final states as initial states.
    StateCountMismatch,
}

/// The stack without the program digest at its bottom.
pub open spec fn without_program_digest(stack: Seq<u64>) -> Seq<u64> {
    if stack.len() <= DIGEST_LENGTH {
        Seq::empty()
    } else {
        stack.skip(DIGEST_LENGTH as int)
    }
}

/// Memory without the allocator's cell.
pub open spec fn without_allocator_cell(memory: Map<u64, u64>) -> Map<u64, u64> {
    memory.remove(DYN_MALLOC_ADDRESS)
}

/// The net growth of the stack that the snippet declares.
pub open spec fn declared_growth<T: Snippet>(snippet: &T) -> int {
    total_width(snippet.spec_output_types()) - total_width(snippet.spec_input_types())
}

/// Checks that two stacks agree above the program digest.
pub fn verify_stack_equivalence(a: &Vec<u64>, b: &Vec<u64>) -> (r: Result<(), EquivalenceError>)
    ensures
        r is Ok <==> without_program_digest(a@) == without_program_digest(b@),
        r is Err ==> r == Err::<(), EquivalenceError>(EquivalenceError::StackMismatch),
{
    if a.len() <= DIGEST_LENGTH && b.len() <= DIGEST_LENGTH {
        return Ok(());
    }
    if a.len() != b.len() {
        proof {
            if a@.len() <= DIGEST_LENGTH || b@.len() <= DIGEST_LENGTH {
                assert(without_program_digest(a@).len() != without_program_digest(b@).len());
            } else {
                assert(without_program_digest(a@).len() != without_program_digest(b@).len());
            }
        }
        return Err(EquivalenceError::StackMismatch);
    }
    let mut i: usize = DIGEST_LENGTH;
    while i < a.len()
        invariant
            DIGEST_LENGTH <= i <= a@.len(),
            a@.len() == b@.len(),
            a@.len() > DIGEST_LENGTH,
            forall|j: int| DIGEST_LENGTH <= j < i ==> a@[j] == b@[j],
        decreases a.len() - i,
    {
        if a[i] != b[i] {
            proof {
                assert(without_program_digest(a@)[i - DIGEST_LENGTH] != without_program_digest(
                    b@,
                )[i - DIGEST_LENGTH]);
            }
            return Err(EquivalenceError::StackMismatch);
        }
        i = i + 1;
    }
    proof {
        assert(without_program_digest(a@) =~= without_program_digest(b@));
    }
    Ok(())
}

/// Whether the word of an entry of `a` is in `b` with the same value, or
/// is the allocator's cell.
pub open spec fn entry_agrees(entry: (&u64, &u64), b: Map<u64, u64>, a: Map<u64, u64>) -> bool {
    let k = *entry.0;
    k != DYN_MALLOC_ADDRESS ==> b.contains_key(k) && b[k] == a[k]
}

/// Whether every word of `a` but the allocator's cell is in `b` with the
/// same value.
fn agrees_on_entries(a: &HashMap<u64, u64>, b: &HashMap<u64, u64>) -> (r: bool)
    ensures
        r == (forall|k: u64|
            k != DYN_MALLOC_ADDRESS && #[trigger] a@.contains_key(k) ==> b@.contains_key(k)
                && b@[k] == a@[k]),
{
    let ghost entries = vstd::std_specs::hash::spec_hash_map_iter(a).remaining();
    for entry in it: a.iter()
        invariant
            it.seq() == entries,
            forall|i: int|
                0 <= i < it.index() ==> entry_agrees(#[trigger] entries[i], b@, a@),
    {
        let (k, v) = entry;
        assert(entry == entries[it.index()]);
        if *k != DYN_MALLOC_ADDRESS {
            match b.get(k) {
                Some(w) => {
                    if *w != *v {
                        proof {
                            assert(a@.contains_key(*entries[it.index() as int].0));
                        }
                        return false;
                    }
                },
                None => {
                    proof {
                        assert(a@.contains_key(*entries[it.index() as int].0));
                    }
                    return false;
                },
            }
        }
    }
    proof {
        assert forall|k: u64|
            k != DYN_MALLOC_ADDRESS && #[trigger] a@.contains_key(k) implies b@.contains_key(k)
            && b@[k] == a@[k] by {
            let s = entries;
            assert(s.contains((&k, &a@[k])));
            let i = choose|i: int| 0 <= i < s.len() && s[i] == (&k, &a@[k]);
            assert(entry_agrees(s[i], b@, a@));
            assert(*s[i].0 == k);
        }
    }
    true
}

/// Checks that two memories agree everywhere but at the allocator's cell.
pub fn verify_memory_equivalence(a_memory: &HashMap<u64, u64>, b_memory: &HashMap<u64, u64>) -> (r:
    Result<(), EquivalenceError>)
    ensures
        r is Ok <==> without_allocator_cell(a_memory@) == without_allocator_cell(b_memory@),
        r is Err ==> r == Err::<(), EquivalenceError>(EquivalenceError::MemoryMismatch),
{
    let a_in_b = agrees_on_entries(a_memory, b_memory);
    let b_in_a = agrees_on_entries(b_memory, a_memory);
    proof {
        let a = without_allocator_cell(a_memory@);
        let b = without_allocator_cell(b_memory@);
        if a_in_b && b_in_a {
            assert(a =~= b);
        }
        if a == b {
            assert forall|k: u64|
                k != DYN_MALLOC_ADDRESS && #[trigger] a_memory@.contains_key(k) implies b_memory@.contains_key(k)
                && b_memory@[k] == a_memory@[k] by {
                assert(a.contains_key(k));
                assert(a[k] == a_memory@[k]);
                assert(b.contains_key(k));
                assert(b[k] == b_memory@[k]);
            }
            assert forall|k: u64|
                k != DYN_MALLOC_ADDRESS && #[trigger] b_memory@.contains_key(k) implies a_memory@.contains_key(k)
                && a_memory@[k] == b_memory@[k] by {
                assert(b.contains_key(k));
                assert(b[k] == b_memory@[k]);
                assert(a.contains_key(k));
                assert(a[k] == a_memory@[k]);
            }
        }
    }
    if a_in_b && b_in_a {
        Ok(())
    } else {
        Err(EquivalenceError::MemoryMismatch)
    }
}

/// Checks that two final states leave the sponge in the same state.
pub fn verify_hasher_state_equivalence(a: VmOutputState, b: VmOutputState) -> (r: Result<
    (),
    EquivalenceError,
>)
    ensures
        r is Ok <==> a.final_sponge_state@ == b.final_sponge_state@,
        r is Err ==> r == Err::<(), EquivalenceError>(EquivalenceError::SpongeMismatch),
{
    if words_equal(&a.final_sponge_state, &b.final_sponge_state) {
        Ok(())
    } else {
        Err(EquivalenceError::SpongeMismatch)
    }
}

/// Whether two word sequences are equal.
fn words_equal(a: &Vec<u64>, b: &Vec<u64>) -> (r: bool)
    ensures
        r == (a@ == b@),
{
    if a.len() != b.len() {
        return false;
    }
    let mut i: usize = 0;
    while i < a.len()
        invariant
            i <= a@.len() == b@.len(),
            forall|j: int| 0 <= j < i ==> a@[j] == b@[j],
        decreases a.len() - i,
    {
        if a[i] != b[i] {
            return false;
        }
        i = i + 1;
    }
    proof {
        assert(a@ =~= b@);
    }
    true
}

/// Checks that the stack grew by the snippet's declared stack difference.
pub fn verify_stack_growth<T: Snippet>(
    shadowed_snippet: &T,
    initial_stack: &Vec<u64>,
    final_stack: &Vec<u64>,
) -> (r: Result<(), EquivalenceError>)
    ensures
        r is Ok <==> final_stack@.len() - initial_stack@.len() == declared_growth(shadowed_snippet),
        r is Err ==> r == Err::<(), EquivalenceError>(EquivalenceError::StackGrowthMismatch),
{
    let expected = shadowed_snippet.stack_diff();
    let observed: i128 = final_stack.len() as i128 - initial_stack.len() as i128;
    if observed == expected as i128 {
        Ok(())
    } else {
        Err(EquivalenceError::StackGrowthMismatch)
    }
}

/// The memory that the reference implementation starts from: where
/// words were allocated statically, the allocator's cell is set past them.
pub open spec fn seeded_memory(memory: Map<u64, u64>, words_statically_allocated: u64) -> Map<
    u64,
    u64,
> {
    if words_statically_allocated > 0 && !memory.contains_key(DYN_MALLOC_ADDRESS) {
        memory.insert(DYN_MALLOC_ADDRESS, words_statically_allocated)
    } else {
        memory
    }
}

/// Runs the reference implementation on copies of the given state and
/// returns its final state. The reference implementations write no
/// output and leave the sponge as it was.
pub fn rust_final_state<T: Snippet>(
    shadowed_snippet: &T,
    stack: &Vec<u64>,
    stdin: &Vec<u64>,
    nondeterminism: &Vec<u64>,
    memory: &HashMap<u64, u64>,
    sponge_state: &Vec<u64>,
    words_statically_allocated: u64,
) -> (r: Result<VmOutputState, ShadowError>)
    ensures
        ({
            let m = seeded_memory(memory@, words_statically_allocated);
            match r {
                Ok(state) => {
                    &&& shadowed_snippet.shadow_accepts(stack@, stdin@, nondeterminism@, m)
                    &&& state.final_stack@ == shadowed_snippet.shadow_stack(
                        stack@,
                        stdin@,
                        nondeterminism@,
                        m,
                    )
                    &&& state.final_ram@ == shadowed_snippet.shadow_memory(
                        stack@,
                        stdin@,
                        nondeterminism@,
                        m,
                    )
                    &&& state.output@.len() == 0
                    &&& state.final_sponge_state@ == sponge_state@
                },
                Err(_) => !shadowed_snippet.shadow_accepts(stack@, stdin@, nondeterminism@, m),
            }
        }),
{
    let mut rust_memory = memory.clone();
    let mut rust_stack = stack.clone();
    if words_statically_allocated > 0 && !memory.contains_key(&DYN_MALLOC_ADDRESS) {
        rust_dyn_malloc_initialize(&mut rust_memory, words_statically_allocated);
    }
    match shadowed_snippet.rust_shadowing(&mut rust_stack, stdin, nondeterminism, &mut rust_memory) {
        Ok(()) => Ok(
            VmOutputState {
                output: Vec::new(),
                final_stack: rust_stack,
                final_ram: rust_memory,
                final_sponge_state: sponge_state.clone(),
            },
        ),
        Err(e) => Err(e),
    }
}

/// Whether the reference final state and the observed one agree: same
/// output, same stack above the program digest (and the expected stack,
/// where one is given), same memory but for the allocator's cell, same
/// sponge state, and a stack that grew by the declared difference.
pub open spec fn final_states_agree(
    rust: &VmOutputState,
    tasm: &VmOutputState,
    initial_stack: Seq<u64>,
    growth: int,
    expected_final_stack: Option<Seq<u64>>,
) -> bool {
    &&& rust.output@ == tasm.output@
    &&& without_program_digest(rust.final_stack@) == without_program_digest(tasm.final_stack@)
    &&& (expected_final_stack matches Some(e) ==> without_program_digest(e)
        == without_program_digest(rust.final_stack@))
    &&& without_allocator_cell(rust.final_ram@) == without_allocator_cell(tasm.final_ram@)
    &&& rust.final_sponge_state@ == tasm.final_sponge_state@
    &&& tasm.final_stack@.len() - initial_stack.len() == growth
}

/// Compares the reference final state with the observed one, check by
/// check in the order of `final_states_agree`, and names the first that
/// fails.
pub fn compare_final_states<T: Snippet>(
    shadowed_snippet: &T,
    rust: &VmOutputState,
    tasm: &VmOutputState,
    initial_stack: &Vec<u64>,
    expected_final_stack: Option<&Vec<u64>>,
) -> (r: Result<(), EquivalenceError>)
    ensures
        r is Ok <==> final_states_agree(
            rust,
            tasm,
            initial_stack@,
            declared_growth(shadowed_snippet),
            match expected_final_stack {
                Some(e) => Some(e@),
                None => None,
            },
        ),
        !(r matches Err(EquivalenceError::ReferenceFailed(_))),
        !(r matches Err(EquivalenceError::StateCountMismatch)),
        r matches Err(EquivalenceError::OutputMismatch) ==> rust.output@ != tasm.output@,
        r matches Err(EquivalenceError::StackMismatch) ==> without_program_digest(
            rust.final_stack@,
        ) != without_program_digest(tasm.final_stack@),
        r matches Err(EquivalenceError::MemoryMismatch) ==> without_allocator_cell(rust.final_ram@)
            != without_allocator_cell(tasm.final_ram@),
        r matches Err(EquivalenceError::SpongeMismatch) ==> rust.final_sponge_state@
            != tasm.final_sponge_state@,
        r matches Err(EquivalenceError::StackGrowthMismatch) ==> tasm.final_stack@.len()
            - initial_stack@.len() != declared_growth(shadowed_snippet),
{
    if !words_equal(&rust.output, &tasm.output) {
        return Err(EquivalenceError::OutputMismatch);
    }
    match verify_stack_equivalence(&rust.final_stack, &tasm.final_stack) {
        Ok(()) => {},
        Err(e) => return Err(e),
    }
    match expected_final_stack {
        Some(expected) => {
            match verify_stack_equivalence(expected, &rust.final_stack) {
                Ok(()) => {},
                Err(_) => return Err(EquivalenceError::ExpectedStackMismatch),
            }
        },
        None => {},
    }
    match verify_memory_equivalence(&rust.final_ram, &tasm.final_ram) {
        Ok(()) => {},
        Err(e) => return Err(e),
    }
    if !words_equal(&rust.final_sponge_state, &tasm.final_sponge_state) {
        return Err(EquivalenceError::SpongeMismatch);
    }
    verify_stack_growth(shadowed_snippet, initial_stack, &tasm.final_stack)
}

/// Runs the reference implementation on the given state and compares its
/// final state with `tasm`, the one that running the linked program on
/// the machine left.
pub fn test_rust_equivalence_given_complete_state<T: Snippet>(
    shadowed_snippet: &T,
    stack: &Vec<u64>,
    stdin: &Vec<u64>,
    nondeterminism: &Vec<u64>,
    memory: &HashMap<u64, u64>,
    sponge_state: &Vec<u64>,
    words_statically_allocated: u64,
    expected_final_stack: Option<&Vec<u64>>,
    tasm: &VmOutputState,
) -> (r: Result<(), EquivalenceError>)
    ensures
        ({
            let m = seeded_memory(memory@, words_statically_allocated);
            let accepts = shadowed_snippet.shadow_accepts(stack@, stdin@, nondeterminism@, m);
            &&& (r matches Err(EquivalenceError::ReferenceFailed(_)) <==> !accepts)
            &&& !(r matches Err(EquivalenceError::StateCountMismatch))
            &&& (r is Ok <==> accepts && shadow_agrees(
                shadowed_snippet,
                stack@,
                stdin@,
                nondeterminism@,
                m,
                sponge_state@,
                tasm,
                match expected_final_stack {
                    Some(e) => Some(e@),
                    None => None,
                },
            ))
        }),
{
    let rust = match rust_final_state(
        shadowed_snippet,
        stack,
        stdin,
        nondeterminism,
        memory,
        sponge_state,
        words_statically_allocated,
    ) {
        Ok(state) => state,
        Err(e) => return Err(EquivalenceError::ReferenceFailed(e)),
    };
    proof {
        if tasm.output@.len() == 0 {
            assert(rust.output@ =~= tasm.output@);
        }
    }
    compare_final_states(shadowed_snippet, &rust, tasm, stack, expected_final_stack)
}

/// Whether the reference implementation, run on the given state, agrees
/// with the observed final state `tasm`.
pub open spec fn shadow_agrees<T: Snippet>(
    snippet: &T,
    stack: Seq<u64>,
    stdin: Seq<u64>,
    nondeterminism: Seq<u64>,
    memory: Map<u64, u64>,
    sponge_state: Seq<u64>,
    tasm: &VmOutputState,
    expected_final_stack: Option<Seq<u64>>,
) -> bool {
    let final_stack = snippet.shadow_stack(stack, stdin, nondeterminism, memory);
    &&& tasm.output@.len() == 0
    &&& without_program_digest(final_stack) == without_program_digest(tasm.final_stack@)
    &&& (expected_final_stack matches Some(e) ==> without_program_digest(e)
        == without_program_digest(final_stack))
    &&& without_allocator_cell(snippet.shadow_memory(stack, stdin, nondeterminism, memory))
        == without_allocator_cell(tasm.final_ram@)
    &&& sponge_state == tasm.final_sponge_state@
    &&& tasm.final_stack@.len() - stack.len() == declared_growth(snippet)
}

/// The program that runs a snippet alone: a call of its entrypoint and a
/// halt, then its code, then the code of everything it imports.
pub fn link_for_isolated_run<T: Snippet>(snippet_struct: &T, words_statically_allocated: u64) -> (r:
    String)
    ensures
        exists|library: Library|
            {
                &&& library.wf()
                &&& library.spec_free_pointer() >= static_memory_start(words_statically_allocated)
                &&& #[trigger] r@ == "call "@ + snippet_struct.spec_entrypoint() + "\nhalt\n\n"@
                    + snippet_struct.spec_code(static_memory_start(words_statically_allocated))
                    + "\n"@ + joined(library.spec_bodies())
            },
{
    let mut library = Library::with_preallocated_memory(words_statically_allocated);
    let entrypoint = snippet_struct.entrypoint();
    let function_body = snippet_struct.function_code(&mut library);
    let library_code = library.all_imports();
    let mut code = String::from_str("call ");
    code.append(entrypoint.as_str());
    code.append("\nhalt\n\n");
    code.append(function_body.as_str());
    code.append("\n");
    code.append(library_code.as_str());
    proof {
        assert(code@ == "call "@ + snippet_struct.spec_entrypoint() + "\nhalt\n\n"@ + function_body@
            + "\n"@ + joined(library.spec_bodies()));
    }
    code
}

/// The first word of static memory when `words_statically_allocated`
/// words are taken: word 0 stays the allocator's cell.
pub open spec fn static_memory_start(words_statically_allocated: u64) -> nat {
    if words_statically_allocated == 0 {
        1
    } else {
        words_statically_allocated as nat
    }
}

/// The memory that the reference implementation starts from in the
/// older check: the allocator's cell is set wherever words were allocated
/// statically.
pub open spec fn seeded_memory_deprecated(memory: Map<u64, u64>, words_statically_allocated: u64) -> Map<
    u64,
    u64,
> {
    if words_statically_allocated > 0 {
        memory.insert(DYN_MALLOC_ADDRESS, words_statically_allocated)
    } else {
        memory
    }
}

/// Whether the reference implementation, run on the initial state,
/// agrees with the observed final state.
pub open spec fn state_agrees<T: Snippet>(
    snippet: &T,
    stack: Seq<u64>,
    stdin: Seq<u64>,
    nondeterminism: Seq<u64>,
    memory: Map<u64, u64>,
    words_statically_allocated: u64,
    expected_final_stack: Option<Seq<u64>>,
    tasm: &VmOutputState,
) -> bool {
    let m = seeded_memory_deprecated(memory, words_statically_allocated);
    &&& snippet.shadow_accepts(stack, stdin, nondeterminism, m)
    &&& shadow_agrees(
        snippet,
        stack,
        stdin,
        nondeterminism,
        m,
        tasm.final_sponge_state@,
        tasm,
        expected_final_stack,
    )
}

/// Runs the reference implementation and compares its final state with
/// `tasm`; on success `memory` becomes the observed final memory, so that
/// callers can probe it.
pub fn test_rust_equivalence_given_complete_state_deprecated<T: Snippet>(
    snippet_struct: &T,
    stack: &Vec<u64>,
    stdin: &Vec<u64>,
    nondeterminism: &Vec<u64>,
    memory: &mut HashMap<u64, u64>,
    words_statically_allocated: u64,
    expected_final_stack: Option<&Vec<u64>>,
    tasm: &VmOutputState,
) -> (r: Result<(), EquivalenceError>)
    ensures
        r is Ok <==> state_agrees(
            snippet_struct,
            stack@,
            stdin@,
            nondeterminism@,
            old(memory)@,
            words_statically_allocated,
            match expected_final_stack {
                Some(e) => Some(e@),
                None => None,
            },
            tasm,
        ),
        r matches Err(EquivalenceError::ReferenceFailed(_)) <==> !snippet_struct.shadow_accepts(
            stack@,
            stdin@,
            nondeterminism@,
            seeded_memory_deprecated(old(memory)@, words_statically_allocated),
        ),
        !(r matches Err(EquivalenceError::StateCountMismatch)),
        r is Ok ==> final(memory)@ == without_allocator_cell(tasm.final_ram@),
        r is Err ==> final(memory)@ == old(memory)@,
{
    let mut start_memory = memory.clone();
    if words_statically_allocated > 0 {
        rust_dyn_malloc_initialize(&mut start_memory, words_statically_allocated);
    }
    let result = test_rust_equivalence_given_complete_state(
        snippet_struct,
        stack,
        stdin,
        nondeterminism,
        &start_memory,
        &tasm.final_sponge_state,
        0,
        expected_final_stack,
        tasm,
    );
    match result {
        Ok(()) => {
            let mut final_memory = tasm.final_ram.clone();
            final_memory.remove(&DYN_MALLOC_ADDRESS);
            *memory = final_memory;
            Ok(())
        },
        Err(e) => Err(e),
    }
}

/// The older check for a state with public input and no nondeterministic
/// input: on success `memory` becomes the observed final memory.
pub fn test_rust_equivalence_given_input_values_deprecated<T: Snippet>(
    snippet_struct: &T,
    stack: &Vec<u64>,
    stdin: &Vec<u64>,
    memory: &mut HashMap<u64, u64>,
    words_statically_allocated: u64,
    expected_final_stack: Option<&Vec<u64>>,
    tasm: &VmOutputState,
) -> (r: Result<(), EquivalenceError>)
    ensures
        r is Ok <==> state_agrees(
            snippet_struct,
            stack@,
            stdin@,
            Seq::empty(),
            old(memory)@,
            words_statically_allocated,
            match expected_final_stack {
                Some(e) => Some(e@),
                None => None,
            },
            tasm,
        ),
        r is Ok ==> final(memory)@ == without_allocator_cell(tasm.final_ram@),
        r is Err ==> final(memory)@ == old(memory)@,
{
    let nondeterminism: Vec<u64> = Vec::new();
    proof {
        assert(nondeterminism@ =~= Seq::empty());
    }
    test_rust_equivalence_given_complete_state_deprecated(
        snippet_struct,
        stack,
        stdin,
        &nondeterminism,
        memory,
        words_statically_allocated,
        expected_final_stack,
        tasm,
    )
}

/// The sponge state a run starts from: ten zero words, then six words one.
pub open spec fn fresh_sponge() -> Seq<u64> {
    Seq::new(10, |i: int| 0u64) + Seq::new(6, |i: int| 1u64)
}

/// Relies on twenty_first's `Tip5::new(Domain::FixedLength)`: a state of
/// ten zero words followed by six words one.
#[verifier::external_body]
pub(crate) fn fresh_sponge_state() -> (r: Vec<u64>)
    ensures
        r@ == fresh_sponge(),
{
    Tip5::new(Domain::FixedLength).state.iter().map(|x| x.value()).collect()
}

/// Checks one initial state against the observed final state `tasm`,
/// seeding the allocator's cell only where memory leaves it unset and
/// starting from a fresh sponge, and hands `tasm` back where they agree.
pub fn test_rust_equivalence_given_execution_state<T: Snippet>(
    snippet_struct: &T,
    execution_state: &ExecutionState,
    tasm: VmOutputState,
) -> (r: Result<VmOutputState, EquivalenceError>)
    ensures
        ({
            let m = seeded_memory(execution_state.memory@, execution_state.words_allocated);
            r is Ok <==> snippet_struct.shadow_accepts(
                execution_state.stack@,
                execution_state.std_in@,
                execution_state.nondeterminism@,
                m,
            ) && shadow_agrees(
                snippet_struct,
                execution_state.stack@,
                execution_state.std_in@,
                execution_state.nondeterminism@,
                m,
                fresh_sponge(),
                &tasm,
                None,
            )
        }),
        r matches Ok(s) ==> s == tasm,
{
    let sponge = fresh_sponge_state();
    match test_rust_equivalence_given_complete_state(
        snippet_struct,
        &execution_state.stack,
        &execution_state.std_in,
        &execution_state.nondeterminism,
        &execution_state.memory,
        &sponge,
        execution_state.words_allocated,
        None,
        &tasm,
    ) {
        Ok(()) => Ok(tasm),
        Err(e) => Err(e),
    }
}

/// Checks one initial state against the observed final state `tasm` and
/// hands `tasm` back where they agree.
pub fn test_rust_equivalence_given_execution_state_deprecated<T: Snippet>(
    snippet_struct: &T,
    execution_state: &ExecutionState,
    tasm: VmOutputState,
) -> (r: Result<VmOutputState, EquivalenceError>)
    ensures
        r is Ok <==> state_agrees(
            snippet_struct,
            execution_state.stack@,
            execution_state.std_in@,
            execution_state.nondeterminism@,
            execution_state.memory@,
            execution_state.words_allocated,
            None,
            &tasm,
        ),
        r matches Ok(s) ==> s == tasm,
{
    let mut memory = execution_state.memory.clone();
    match test_rust_equivalence_given_complete_state_deprecated(
        snippet_struct,
        &execution_state.stack,
        &execution_state.std_in,
        &execution_state.nondeterminism,
        &mut memory,
        execution_state.words_allocated,
        None,
        &tasm,
    ) {
        Ok(()) => Ok(tasm),
        Err(e) => Err(e),
    }
}

/// Checks each initial state against the observed final state at the same
/// position and hands the observed states back where all agree.
pub fn test_rust_equivalence_multiple_deprecated<T: Snippet>(
    snippet_struct: &T,
    execution_states: &Vec<ExecutionState>,
    tasm_states: Vec<VmOutputState>,
) -> (r: Result<Vec<VmOutputState>, EquivalenceError>)
    ensures
        r is Ok <==> execution_states@.len() == tasm_states@.len() && forall|i: int|
            0 <= i < execution_states@.len() ==> state_agrees(
                snippet_struct,
                execution_states@[i].stack@,
                execution_states@[i].std_in@,
                execution_states@[i].nondeterminism@,
                execution_states@[i].memory@,
                execution_states@[i].words_allocated,
                None,
                #[trigger] &tasm_states@[i],
            ),
        r matches Ok(v) ==> v@ == tasm_states@,
        r matches Err(EquivalenceError::StateCountMismatch) ==> execution_states@.len()
            != tasm_states@.len(),
{
    if execution_states.len() != tasm_states.len() {
        return Err(EquivalenceError::StateCountMismatch);
    }
    let mut i: usize = 0;
    while i < execution_states.len()
        invariant
            i <= execution_states@.len() == tasm_states@.len(),
            forall|j: int|
                0 <= j < i ==> state_agrees(
                    snippet_struct,
                    execution_states@[j].stack@,
                    execution_states@[j].std_in@,
                    execution_states@[j].nondeterminism@,
                    execution_states@[j].memory@,
                    execution_states@[j].words_allocated,
                    None,
                    #[trigger] &tasm_states@[j],
                ),
        decreases execution_states.len() - i,
    {
        let state = &execution_states[i];
        let mut memory = state.memory.clone();
        match test_rust_equivalence_given_complete_state_deprecated(
            snippet_struct,
            &state.stack,
            &state.std_in,
            &state.nondeterminism,
            &mut memory,
            state.words_allocated,
            None,
            &tasm_states[i],
        ) {
            Ok(()) => {},
            Err(e) => {
                proof {
                    assert(!state_agrees(
                        snippet_struct,
                        execution_states@[i as int].stack@,
                        execution_states@[i as int].std_in@,
                        execution_states@[i as int].nondeterminism@,
                        execution_states@[i as int].memory@,
                        execution_states@[i as int].words_allocated,
                        None,
                        &tasm_states@[i as int],
                    ));
                }
                return Err(e);
            },
        }
        i = i + 1;
    }
    Ok(tasm_states)
}

} // verus!
