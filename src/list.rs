use vstd::prelude::*;

use std::collections::HashMap;

use crate::data_type::{label_name, total_width, width, DataType};
use crate::dyn_malloc::{allocate, allocation_fits, free_address, DynMalloc, DYN_MALLOC_ADDRESS};
use crate::library::Library;
use crate::memory::{can_pop, element_of, element_offset, list_pop, word_address, word_at};
use crate::FIELD_MODULUS;
use crate::test_helpers::{drawn, get_init_tvm_stack, seeded_memory_deprecated, state_with_words, ExecutionState};
use crate::snippet::{element_names, field_names, ShadowError, Snippet};
use crate::text::{decimal, push_decimal};

verus! {

broadcast use vstd::std_specs::hash::group_hash_axioms;

/// Words before the first element of a list with a length word only.
pub const UNSAFE_LIST_HEADER: u64 = 1;

/// Words before the first element of a list with a length and a capacity word.
pub const SAFE_LIST_HEADER: u64 = 2;

/// Number of words that a list of `capacity` elements of `width` words
/// takes, its length word included.
pub open spec fn unsafe_list_words(capacity: nat, width: nat) -> nat {
    capacity * width + 1
}

/// A list with a capacity word at `pointer` that holds `length` elements
/// of `element_size` words; the words come from `random`, from index
/// `first` on, reduced to field elements.
fn safe_list_memory(
    pointer: u64,
    capacity: u64,
    length: u64,
    element_size: u64,
    random: &Vec<u64>,
    first: usize,
) -> (m: HashMap<u64, u64>)
    requires
        length <= 128,
        1 <= element_size <= 5,
        first <= 1024,
    ensures
        m@.contains_key(pointer),
        m@[pointer] == length,
        forall|w: int|
            0 <= w < length * element_size ==> #[trigger] m@.contains_key(word_at(pointer, 2 + w)),
{
    let mut m: HashMap<u64, u64> = HashMap::new();
    proof {
        assert(length * element_size <= 640) by (nonlinear_arith)
            requires
                length <= 128,
                element_size <= 5,
        ;
    }
    let words = length * element_size;
    let mut w: u64 = 0;
    while w < words
        invariant
            words == length * element_size,
            words <= 640,
            first <= 1024,
            w <= words,
            forall|v: int| 0 <= v < w ==> #[trigger] m@.contains_key(word_at(pointer, 2 + v)),
        decreases words - w,
    {
        let address = word_address(pointer, 2 + w as u128);
        let value = drawn(random, first + w as usize) % FIELD_MODULUS;
        m.insert(address, value);
        w = w + 1;
    }
    let capacity_address = word_address(pointer, 1);
    m.insert(capacity_address, capacity);
    m.insert(pointer, length);
    m
}

proof fn lemma_last_element_present(m: Map<u64, u64>, pointer: u64, length: u64, element_size: u64)
    requires
        1 <= length <= 128,
        1 <= element_size <= 5,
        m.contains_key(pointer),
        m[pointer] == length,
        forall|w: int|
            0 <= w < length * element_size ==> #[trigger] m.contains_key(word_at(pointer, 2 + w)),
    ensures
        can_pop(m, pointer, SAFE_LIST_HEADER as nat, element_size as nat),
{
    assert forall|j: int| 0 <= j < element_size implies #[trigger] m.contains_key(
        word_at(pointer, element_offset(SAFE_LIST_HEADER as nat, element_size as nat, (length - 1) as nat, j)),
    ) by {
        let w = (length - 1) * element_size + j;
        assert(w < length * element_size) by (nonlinear_arith)
            requires
                w == (length - 1) * element_size + j,
                j < element_size,
                length >= 1,
        ;
        assert(w >= 0) by (nonlinear_arith)
            requires
                w == (length - 1) * element_size + j,
                j >= 0,
                length >= 1,
        ;
        assert(element_offset(SAFE_LIST_HEADER as nat, element_size as nat, (length - 1) as nat, j) == 2 + w);
        assert(m.contains_key(word_at(pointer, 2 + w)));
    }
}

/// The instructions that multiply the top of the stack by `size`;
/// nothing where the size is one.
pub open spec fn mul_text(size: nat) -> Seq<char> {
    if size != 1 {
        "push "@ + decimal(size) + "\n mul\n"@
    } else {
        Seq::empty()
    }
}

/// The instructions that read the `count` last words of an element of
/// `size` words onto the stack, moving the address down between reads.
pub open spec fn read_words_text(count: nat, size: nat) -> Seq<char>
    decreases count,
{
    if count == 0 {
        Seq::empty()
    } else {
        read_words_text((count - 1) as nat, size) + "read_mem\nswap 1\n"@ + if count - 1 != size - 1 {
            "push -1\nadd\n"@
        } else {
            Seq::empty()
        }
    }
}

/// Appends `code` with the instruction that multiplies the top of the
/// stack by `size`; nothing where the size is one.
fn push_mul_with_size(code: &mut String, size: usize)
    ensures
        final(code)@ == old(code)@ + mul_text(size as nat),
{
    if size != 1 {
        code.append("push ");
        push_decimal(code, size as u64);
        code.append("\n mul\n");
    }
}

/// Creates an empty list with a length word only: it allocates room for
/// `capacity` elements and sets the length to zero.
#[derive(Debug)]
pub struct UnsafeNew(pub DataType);

impl Snippet for UnsafeNew {
    open spec fn spec_crash_conditions(&self) -> Seq<Seq<char>> {
        seq!["Requested list size exceeds u32::MAX bfe words"@]
    }

    open spec fn spec_code(&self, free_pointer: nat) -> Seq<char> {
        self.spec_entrypoint() + ":"@ + ("\n                // _ capacity\n"@ + mul_text(width(self.0))
            + "                // _ capacity_in_words\n                push 1\n                add\n                call "@
            + "tasm_memory_dyn_malloc"@
            + "\n                // _ *list\n                push 0\n                write_mem\n                return\n"@)
    }

    open spec fn spec_entrypoint(&self) -> Seq<char> {
        "tasm_list_unsafeimplu32_new___"@ + label_name(self.0)
    }

    open spec fn spec_input_types(&self) -> Seq<DataType> {
        seq![DataType::U32]
    }

    open spec fn spec_output_types(&self) -> Seq<DataType> {
        seq![DataType::List(Box::new(self.0))]
    }

    open spec fn shadow_accepts(
        &self,
        stack: Seq<u64>,
        std_in: Seq<u64>,
        secret_in: Seq<u64>,
        memory: Map<u64, u64>,
    ) -> bool {
        stack.len() >= 1 && allocation_fits(
            memory,
            unsafe_list_words(stack.last() as nat, width(self.0)),
        )
    }

    open spec fn shadow_stack(
        &self,
        stack: Seq<u64>,
        std_in: Seq<u64>,
        secret_in: Seq<u64>,
        memory: Map<u64, u64>,
    ) -> Seq<u64> {
        stack.drop_last().push(free_address(memory) as u64)
    }

    open spec fn shadow_memory(
        &self,
        stack: Seq<u64>,
        std_in: Seq<u64>,
        secret_in: Seq<u64>,
        memory: Map<u64, u64>,
    ) -> Map<u64, u64> {
        let address = free_address(memory);
        memory.insert(
            DYN_MALLOC_ADDRESS,
            (address + unsafe_list_words(stack.last() as nat, width(self.0))) as u64,
        ).insert(address as u64, 0)
    }

    proof fn lemma_stack_diff(
        &self,
        stack: Seq<u64>,
        std_in: Seq<u64>,
        secret_in: Seq<u64>,
        memory: Map<u64, u64>,
    ) {
        reveal_with_fuel(total_width, 4);
    }

    fn entrypoint(&self) -> (r: String) {
        let mut s = String::from_str("tasm_list_unsafeimplu32_new___");
        let name = self.0.label_friendly_name();
        s.append(name.as_str());
        s
    }

    fn input_types(&self) -> (r: Vec<DataType>) {
        vec![DataType::U32]
    }

    fn output_types(&self) -> (r: Vec<DataType>) {
        vec![DataType::List(Box::new(self.0.duplicate()))]
    }

    fn input_field_names(&self) -> (r: Vec<String>) {
        proof {
            reveal_with_fuel(total_width, 4);
        }
        field_names(&["capacity"])
    }

    fn output_field_names(&self) -> (r: Vec<String>) {
        proof {
            reveal_with_fuel(total_width, 4);
        }
        field_names(&["list_pointer"])
    }

    fn crash_conditions(&self) -> (r: Vec<String>) {
        let r = field_names(&["Requested list size exceeds u32::MAX bfe words"]);
        proof {
            assert(r@.len() == self.spec_crash_conditions().len());
        }
        r
    }

    fn stack_diff(&self) -> (r: i64) {
        proof {
            assert(seq![DataType::U32].drop_last() =~= Seq::<DataType>::empty());
            assert(seq![DataType::List(Box::new(self.0))].drop_last() =~= Seq::<DataType>::empty());
        }
        0
    }

    fn function_code(&self, library: &mut Library) -> (r: String) {
        let element_size = self.0.get_size();
        let dyn_alloc = library.import(&DynMalloc);
        let mut body = String::from_str("\n                // _ capacity\n");
        push_mul_with_size(&mut body, element_size);
        body.append("                // _ capacity_in_words\n                push 1\n                add\n                call ");
        body.append(dyn_alloc.as_str());
        body.append("\n                // _ *list\n                push 0\n                write_mem\n                return\n");
        let mut code = self.entrypoint();
        code.append(":");
        code.append(body.as_str());
        code
    }

    fn gen_input_states(&self, random: &Vec<u64>) -> (r: Vec<ExecutionState>) {
        let mut states: Vec<ExecutionState> = Vec::new();
        let mut i: usize = 0;
        while i < 6
            invariant
                i <= 6,
                states@.len() == i,
                forall|j: int| 0 <= j < states@.len() ==> self.shadow_accepts(
                    #[trigger] states@[j].stack@,
                    states@[j].std_in@,
                    states@[j].nondeterminism@,
                    seeded_memory_deprecated(states@[j].memory@, states@[j].words_allocated),
                ),
            decreases 6 - i,
        {
            let capacity: u64 = if i == 0 {
                0
            } else if i == 1 {
                1
            } else if i == 2 {
                2
            } else if i == 3 {
                3
            } else if i == 4 {
                5
            } else {
                102
            };
            let size = self.0.get_size();
            proof {
                assert(capacity * size <= 5 * 102) by (nonlinear_arith)
                    requires
                        size <= 5,
                        capacity <= 102,
                ;
            }
            let state = state_with_words(&vec![capacity]);
            states.push(state);
            i = i + 1;
        }
        states
    }

    fn common_case_input_state(&self) -> (r: ExecutionState) {
        let size = self.0.get_size();
        proof {
            assert(2 * size <= 5 * 2) by (nonlinear_arith)
                requires
                    size <= 5,
            ;
        }
        let mut stack = get_init_tvm_stack();
        stack.push(2);
        ExecutionState::with_stack(stack)
    }

    fn worst_case_input_state(&self) -> (r: ExecutionState) {
        let size = self.0.get_size();
        proof {
            assert(1000000 * size <= 5 * 1000000) by (nonlinear_arith)
                requires
                    size <= 5,
            ;
        }
        let mut stack = get_init_tvm_stack();
        stack.push(1000000);
        ExecutionState::with_stack(stack)
    }

    fn rust_shadowing(
        &self,
        stack: &mut Vec<u64>,
        std_in: &Vec<u64>,
        secret_in: &Vec<u64>,
        memory: &mut HashMap<u64, u64>,
    ) -> (r: Result<(), ShadowError>) {
        proof {
            assert(seq![DataType::U32].drop_last() =~= Seq::<DataType>::empty());
            assert(seq![DataType::List(Box::new(self.0))].drop_last() =~= Seq::<DataType>::empty());
        }
        let capacity = match stack.pop() {
            Some(c) => c,
            None => return Err(ShadowError::StackUnderflow),
        };
        let element_size = self.0.get_size() as u64;
        if capacity >= crate::dyn_malloc::ALLOCATION_BOUND {
            proof {
                assert(capacity * element_size >= capacity) by (nonlinear_arith)
                    requires
                        element_size >= 1,
                ;
            }
            return Err(ShadowError::AllocationFailed);
        }
        proof {
            assert(capacity * element_size <= 5 * 0x1_0000_0000) by (nonlinear_arith)
                requires
                    element_size <= 5,
                    capacity < 0x1_0000_0000,
            ;
        }
        let words = capacity * element_size + 1;
        match allocate(memory, words) {
            Ok(list_pointer) => {
                memory.insert(list_pointer, 0);
                stack.push(list_pointer);
                Ok(())
            },
            Err(_) => Err(ShadowError::AllocationFailed),
        }
    }
}

/// Reads the length of a list with a capacity word.
#[derive(Debug)]
pub struct Length(pub DataType);

impl Snippet for Length {
    open spec fn spec_crash_conditions(&self) -> Seq<Seq<char>> {
        Seq::empty()
    }

    open spec fn spec_entrypoint(&self) -> Seq<char> {
        "tasm_list_safeimplu32_length___"@ + label_name(self.0)
    }

    open spec fn spec_input_types(&self) -> Seq<DataType> {
        seq![DataType::List(Box::new(self.0))]
    }

    open spec fn spec_output_types(&self) -> Seq<DataType> {
        seq![DataType::U32]
    }

    open spec fn shadow_accepts(
        &self,
        stack: Seq<u64>,
        std_in: Seq<u64>,
        secret_in: Seq<u64>,
        memory: Map<u64, u64>,
    ) -> bool {
        stack.len() >= 1 && memory.contains_key(stack.last())
    }

    open spec fn shadow_stack(
        &self,
        stack: Seq<u64>,
        std_in: Seq<u64>,
        secret_in: Seq<u64>,
        memory: Map<u64, u64>,
    ) -> Seq<u64> {
        stack.drop_last().push(memory[stack.last()])
    }

    open spec fn shadow_memory(
        &self,
        stack: Seq<u64>,
        std_in: Seq<u64>,
        secret_in: Seq<u64>,
        memory: Map<u64, u64>,
    ) -> Map<u64, u64> {
        memory
    }

    open spec fn spec_code(&self, free_pointer: nat) -> Seq<char> {
        self.spec_entrypoint()
            + ":"@
            + "\n                read_mem\n                swap 1\n                pop\n                return\n"@
    }

    proof fn lemma_stack_diff(
        &self,
        stack: Seq<u64>,
        std_in: Seq<u64>,
        secret_in: Seq<u64>,
        memory: Map<u64, u64>,
    ) {
        reveal_with_fuel(total_width, 4);
    }

    fn entrypoint(&self) -> (r: String) {
        let mut s = String::from_str("tasm_list_safeimplu32_length___");
        let name = self.0.label_friendly_name();
        s.append(name.as_str());
        s
    }

    fn input_types(&self) -> (r: Vec<DataType>) {
        vec![DataType::List(Box::new(self.0.duplicate()))]
    }

    fn output_types(&self) -> (r: Vec<DataType>) {
        vec![DataType::U32]
    }

    fn input_field_names(&self) -> (r: Vec<String>) {
        proof {
            reveal_with_fuel(total_width, 4);
        }
        field_names(&["*list"])
    }

    fn output_field_names(&self) -> (r: Vec<String>) {
        proof {
            reveal_with_fuel(total_width, 4);
        }
        field_names(&["list_length"])
    }

    fn crash_conditions(&self) -> (r: Vec<String>) {
        Vec::new()
    }

    fn stack_diff(&self) -> (r: i64) {
        proof {
            assert(seq![DataType::U32].drop_last() =~= Seq::<DataType>::empty());
            assert(seq![DataType::List(Box::new(self.0))].drop_last() =~= Seq::<DataType>::empty());
        }
        0
    }

    fn function_code(&self, library: &mut Library) -> (r: String) {
        let mut code = self.entrypoint();
        code.append(":");
        code.append("\n                read_mem\n                swap 1\n                pop\n                return\n");
        proof {
            assert(library.spec_labels().is_prefix_of(library.spec_labels()));
        }
        code
    }

    fn gen_input_states(&self, random: &Vec<u64>) -> (r: Vec<ExecutionState>) {
        let mut states: Vec<ExecutionState> = Vec::new();
        let mut i: usize = 0;
        while i < 5
            invariant
                i <= 5,
                states@.len() == i,
                forall|j: int| 0 <= j < states@.len() ==> self.shadow_accepts(
                    #[trigger] states@[j].stack@,
                    states@[j].std_in@,
                    states@[j].nondeterminism@,
                    seeded_memory_deprecated(states@[j].memory@, states@[j].words_allocated),
                ),
            decreases 5 - i,
        {
            let pointer = drawn(random, 0) % FIELD_MODULUS;
            let length = drawn(random, 1) % 101;
            let memory = safe_list_memory(pointer, 100, length, self.0.get_size() as u64, random, 2);
            let mut state = state_with_words(&vec![pointer]);
            state.memory = memory;
            states.push(state);
            i = i + 1;
        }
        states
    }

    fn common_case_input_state(&self) -> (r: ExecutionState) {
        let mut stack = get_init_tvm_stack();
        stack.push(1);
        let memory = safe_list_memory(1, 64, 32, self.0.get_size() as u64, &Vec::new(), 0);
        ExecutionState::with_stack_and_memory(stack, memory, 1)
    }

    fn worst_case_input_state(&self) -> (r: ExecutionState) {
        let mut stack = get_init_tvm_stack();
        stack.push(1);
        let memory = safe_list_memory(1, 128, 64, self.0.get_size() as u64, &Vec::new(), 0);
        ExecutionState::with_stack_and_memory(stack, memory, 1)
    }

    fn rust_shadowing(
        &self,
        stack: &mut Vec<u64>,
        std_in: &Vec<u64>,
        secret_in: &Vec<u64>,
        memory: &mut HashMap<u64, u64>,
    ) -> (r: Result<(), ShadowError>) {
        proof {
            assert(seq![DataType::U32].drop_last() =~= Seq::<DataType>::empty());
            assert(seq![DataType::List(Box::new(self.0))].drop_last() =~= Seq::<DataType>::empty());
        }
        let list_address = match stack.pop() {
            Some(a) => a,
            None => return Err(ShadowError::StackUnderflow),
        };
        match memory.get(&list_address) {
            Some(length) => {
                stack.push(*length);
                Ok(())
            },
            None => Err(ShadowError::UninitializedMemory),
        }
    }
}

/// Takes the last element of a list with a capacity word and leaves its
/// words on the stack, the first word on top. The words stay in memory;
/// only the length word changes.
#[derive(Debug)]
pub struct SafePop(pub DataType);

impl Snippet for SafePop {
    open spec fn spec_crash_conditions(&self) -> Seq<Seq<char>> {
        seq!["stack underflow"@]
    }

    open spec fn spec_code(&self, free_pointer: nat) -> Seq<char> {
        self.spec_entrypoint() + ":"@ + ("
                read_mem
                // _ *list length

                // Assert that length is not 0
                dup 0
                push 0
                eq
                push 0
                eq
                assert

                // Decrease length value by one and write back to memory
                swap 1
                dup 1
                push -1
                add
                write_mem
                swap 1
                // _ *list initial_length
"@ + mul_text(width(self.0))
            + "                add\n                push 1\n                add\n                // _ address_for_last_element\n"@
            + read_words_text(width(self.0), width(self.0)) + "                pop\n                return\n"@)
    }

    open spec fn spec_entrypoint(&self) -> Seq<char> {
        "tasm_list_safeimplu32_pop___"@ + label_name(self.0)
    }

    open spec fn spec_input_types(&self) -> Seq<DataType> {
        seq![DataType::List(Box::new(self.0))]
    }

    open spec fn spec_output_types(&self) -> Seq<DataType> {
        seq![self.0]
    }

    open spec fn shadow_accepts(
        &self,
        stack: Seq<u64>,
        std_in: Seq<u64>,
        secret_in: Seq<u64>,
        memory: Map<u64, u64>,
    ) -> bool {
        stack.len() >= 1 && can_pop(memory, stack.last(), SAFE_LIST_HEADER as nat, width(self.0))
    }

    open spec fn shadow_stack(
        &self,
        stack: Seq<u64>,
        std_in: Seq<u64>,
        secret_in: Seq<u64>,
        memory: Map<u64, u64>,
    ) -> Seq<u64> {
        let p = stack.last();
        stack.drop_last() + element_of(
            memory,
            p,
            SAFE_LIST_HEADER as nat,
            width(self.0),
            (memory[p] - 1) as nat,
        ).reverse()
    }

    open spec fn shadow_memory(
        &self,
        stack: Seq<u64>,
        std_in: Seq<u64>,
        secret_in: Seq<u64>,
        memory: Map<u64, u64>,
    ) -> Map<u64, u64> {
        memory.insert(stack.last(), (memory[stack.last()] - 1) as u64)
    }

    proof fn lemma_stack_diff(
        &self,
        stack: Seq<u64>,
        std_in: Seq<u64>,
        secret_in: Seq<u64>,
        memory: Map<u64, u64>,
    ) {
        reveal_with_fuel(total_width, 4);
    }

    fn entrypoint(&self) -> (r: String) {
        let mut s = String::from_str("tasm_list_safeimplu32_pop___");
        let name = self.0.label_friendly_name();
        s.append(name.as_str());
        s
    }

    fn input_types(&self) -> (r: Vec<DataType>) {
        vec![DataType::List(Box::new(self.0.duplicate()))]
    }

    fn output_types(&self) -> (r: Vec<DataType>) {
        vec![self.0.duplicate()]
    }

    fn input_field_names(&self) -> (r: Vec<String>) {
        proof {
            reveal_with_fuel(total_width, 4);
        }
        field_names(&["*list"])
    }

    fn output_field_names(&self) -> (r: Vec<String>) {
        proof {
            reveal_with_fuel(total_width, 4);
        }
        element_names(self.0.get_size())
    }

    fn crash_conditions(&self) -> (r: Vec<String>) {
        let r = field_names(&["stack underflow"]);
        proof {
            assert(r@.len() == self.spec_crash_conditions().len());
        }
        r
    }

    fn stack_diff(&self) -> (r: i64) {
        proof {
            assert(seq![self.0].drop_last() =~= Seq::<DataType>::empty());
            assert(seq![DataType::List(Box::new(self.0))].drop_last() =~= Seq::<DataType>::empty());
        }
        self.0.get_size() as i64 - 1
    }

    fn function_code(&self, library: &mut Library) -> (r: String) {
        let element_size = self.0.get_size();
        let mut body = String::from_str(
            "
                read_mem
                // _ *list length

                // Assert that length is not 0
                dup 0
                push 0
                eq
                push 0
                eq
                assert

                // Decrease length value by one and write back to memory
                swap 1
                dup 1
                push -1
                add
                write_mem
                swap 1
                // _ *list initial_length
",
        );
        push_mul_with_size(&mut body, element_size);
        body.append("                add\n                push 1\n                add\n                // _ address_for_last_element\n");
        let ghost prologue = body@;
        let mut i: usize = 0;
        while i < element_size
            invariant
                i <= element_size,
                element_size == width(self.0),
                body@ == prologue + read_words_text(i as nat, element_size as nat),
            decreases element_size - i,
        {
            body.append("read_mem\nswap 1\n");
            if i != element_size - 1 {
                body.append("push -1\nadd\n");
            }
            i = i + 1;
        }
        body.append("                pop\n                return\n");
        let mut code = self.entrypoint();
        code.append(":");
        code.append(body.as_str());
        proof {
            assert(library.spec_labels().is_prefix_of(library.spec_labels()));
        }
        code
    }

    fn gen_input_states(&self, random: &Vec<u64>) -> (r: Vec<ExecutionState>) {
        let mut states: Vec<ExecutionState> = Vec::new();
        let mut i: usize = 0;
        while i < 10
            invariant
                i <= 10,
                states@.len() == i,
                forall|j: int| 0 <= j < states@.len() ==> self.shadow_accepts(
                    #[trigger] states@[j].stack@,
                    states@[j].std_in@,
                    states@[j].nondeterminism@,
                    seeded_memory_deprecated(states@[j].memory@, states@[j].words_allocated),
                ),
            decreases 10 - i,
        {
            let pointer = drawn(random, i) % FIELD_MODULUS;
            let size = self.0.get_size() as u64;
            let length = (i + 1) as u64;
            let memory = safe_list_memory(pointer, 30, length, size, random, 10);
            proof {
                lemma_last_element_present(memory@, pointer, length, size);
            }
            let mut state = state_with_words(&vec![pointer]);
            state.memory = memory;
            states.push(state);
            i = i + 1;
        }
        states
    }

    fn common_case_input_state(&self) -> (r: ExecutionState) {
        let size = self.0.get_size() as u64;
        let mut stack = get_init_tvm_stack();
        stack.push(1);
        let memory = safe_list_memory(1, 30, 30, size, &Vec::new(), 0);
        proof {
            lemma_last_element_present(memory@, 1, 30, size);
        }
        ExecutionState::with_stack_and_memory(stack, memory, 0)
    }

    fn worst_case_input_state(&self) -> (r: ExecutionState) {
        let size = self.0.get_size() as u64;
        let mut stack = get_init_tvm_stack();
        stack.push(1);
        let memory = safe_list_memory(1, 30, 30, size, &Vec::new(), 0);
        proof {
            lemma_last_element_present(memory@, 1, 30, size);
        }
        ExecutionState::with_stack_and_memory(stack, memory, 0)
    }

    fn rust_shadowing(
        &self,
        stack: &mut Vec<u64>,
        std_in: &Vec<u64>,
        secret_in: &Vec<u64>,
        memory: &mut HashMap<u64, u64>,
    ) -> (r: Result<(), ShadowError>) {
        proof {
            assert(seq![self.0].drop_last() =~= Seq::<DataType>::empty());
            assert(seq![DataType::List(Box::new(self.0))].drop_last() =~= Seq::<DataType>::empty());
        }
        let ghost old_stack = stack@;
        let list_pointer = match stack.pop() {
            Some(p) => p,
            None => return Err(ShadowError::StackUnderflow),
        };
        let element = match list_pop(memory, list_pointer, SAFE_LIST_HEADER, self.0.get_size() as u64) {
            Ok(e) => e,
            Err(e) => return Err(e),
        };
        let mut i: usize = element.len();
        while i > 0
            invariant
                i <= element@.len(),
                stack@ == old_stack.drop_last() + element@.reverse().take(element@.len() - i),
            decreases i,
        {
            i = i - 1;
            stack.push(element[i]);
            proof {
                assert(element@.reverse().take(element@.len() - i) =~= element@.reverse().take(
                    element@.len() - i - 1,
                ).push(element@[i as int]));
            }
        }
        proof {
            assert(element@.reverse().take(element@.len() as int) =~= element@.reverse());
        }
        Ok(())
    }
}

} // verus!
