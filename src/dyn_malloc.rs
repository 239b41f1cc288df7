use vstd::prelude::*;

use std::collections::HashMap;

use crate::data_type::{total_width, DataType};
use crate::library::Library;
use crate::test_helpers::{drawn, get_init_tvm_stack, seeded_memory_deprecated, state_with_words, ExecutionState};
use crate::snippet::{field_names, ShadowError, Snippet};
use crate::text::push_decimal;

verus! {

broadcast use vstd::std_specs::hash::group_hash_axioms;

/// The memory word that holds the dynamic allocator's next free address.
pub const DYN_MALLOC_ADDRESS: u64 = 0;

/// Allocation sizes and the allocator's cursor stay below this bound, the
/// range of the machine's native word counts.
pub const ALLOCATION_BOUND: u64 = 0x1_0000_0000;

/// The address the allocator grants next: the cell's value, where zero
/// (or a cell never written) stands for address 1.
pub open spec fn free_address(memory: Map<u64, u64>) -> nat {
    if memory.contains_key(DYN_MALLOC_ADDRESS) && memory[DYN_MALLOC_ADDRESS] != 0 {
        memory[DYN_MALLOC_ADDRESS] as nat
    } else {
        1
    }
}

/// Whether `size` words can be granted: the size and the cursor after the
/// allocation both stay below the native bound.
pub open spec fn allocation_fits(memory: Map<u64, u64>, size: nat) -> bool {
    size < ALLOCATION_BOUND && free_address(memory) + size < ALLOCATION_BOUND
}

/// Why the dynamic allocator refused a request; the machine halts there.
#[derive(Debug, PartialEq, Eq)]
pub enum AllocError {
    /// The request is for `2^32` words or more.
    SizeTooLarge,
    /// The cursor would reach `2^32` or beyond.
    AddressSpaceExhausted,
}

/// Grants `size` fresh words and returns the first: the allocator reads
/// its cell, takes zero as address 1, and stores the address after the
/// granted words.
pub fn allocate(memory: &mut HashMap<u64, u64>, size: u64) -> (r: Result<u64, AllocError>)
    ensures
        match r {
            Ok(address) => {
                &&& allocation_fits(old(memory)@, size as nat)
                &&& address == free_address(old(memory)@)
                &&& final(memory)@ == old(memory)@.insert(DYN_MALLOC_ADDRESS, (address + size) as u64)
            },
            Err(AllocError::SizeTooLarge) => {
                &&& size >= ALLOCATION_BOUND
                &&& final(memory)@ == old(memory)@
            },
            Err(AllocError::AddressSpaceExhausted) => {
                &&& size < ALLOCATION_BOUND
                &&& free_address(old(memory)@) + size >= ALLOCATION_BOUND
                &&& final(memory)@ == old(memory)@
            },
        },
{
    let current: u64 = match memory.get(&DYN_MALLOC_ADDRESS) {
        Some(v) => if *v == 0 {
            1
        } else {
            *v
        },
        None => 1,
    };
    if size >= ALLOCATION_BOUND {
        return Err(AllocError::SizeTooLarge);
    }
    if current >= ALLOCATION_BOUND - size {
        return Err(AllocError::AddressSpaceExhausted);
    }
    memory.insert(DYN_MALLOC_ADDRESS, current + size);
    Ok(current)
}

/// Sets the allocator's cell so that dynamic memory starts after the
/// first `words_statically_allocated` words.
pub fn rust_dyn_malloc_initialize(memory: &mut HashMap<u64, u64>, words_statically_allocated: u64)
    ensures
        final(memory)@ == old(memory)@.insert(DYN_MALLOC_ADDRESS, words_statically_allocated),
{
    memory.insert(DYN_MALLOC_ADDRESS, words_statically_allocated);
}

/// The allocator's cell is written and holds `value`.
pub open spec fn cell_holds(memory: Map<u64, u64>, value: nat) -> bool {
    memory.contains_key(DYN_MALLOC_ADDRESS) && memory[DYN_MALLOC_ADDRESS] == value
}

/// Dynamic allocations in one run never overlap, and a request for at
/// least one word comes at a higher address than every earlier one; the
/// cell never holds zero after an allocation. `memories[k]` is the memory
/// at the `k`-th allocation, which granted `sizes[k]` words at
/// `addresses[k]`; the cell keeps its value between two allocations.
pub proof fn lemma_allocations_increase(
    memories: Seq<Map<u64, u64>>,
    sizes: Seq<nat>,
    addresses: Seq<nat>,
)
    requires
        sizes.len() == memories.len(),
        addresses.len() == memories.len(),
        forall|k: int|
            0 <= k < memories.len() ==> allocation_fits(#[trigger] memories[k], sizes[k])
                && addresses[k] == free_address(memories[k]),
        forall|k: int|
            0 <= k < memories.len() - 1 ==> cell_holds(memories[k + 1], addresses[k] + sizes[k]),
    ensures
        forall|i: int, j: int|
            0 <= i < j < addresses.len() ==> #[trigger] addresses[i] + sizes[i] <= #[trigger] addresses[j],
        forall|i: int, j: int|
            0 <= i < j < addresses.len() && sizes[i] > 0 ==> #[trigger] addresses[i] < #[trigger] addresses[j],
        forall|k: int| 0 <= k < addresses.len() ==> #[trigger] addresses[k] + sizes[k] != 0,
    decreases memories.len(),
{
    let n = memories.len();
    assert forall|k: int| 0 <= k < addresses.len() implies #[trigger] addresses[k] + sizes[k] != 0 by {
        assert(allocation_fits(memories[k], sizes[k]));
    }
    if n >= 2 {
        let (m, s, a) = (memories.drop_last(), sizes.drop_last(), addresses.drop_last());
        assert forall|k: int| 0 <= k < m.len() - 1 implies cell_holds(m[k + 1], a[k] + s[k]) by {
            assert(cell_holds(memories[k + 1], addresses[k] + sizes[k]));
        }
        lemma_allocations_increase(m, s, a);
        let last = n - 1;
        assert(allocation_fits(memories[last], sizes[last]));
        assert(cell_holds(memories[last - 1 + 1], addresses[last - 1] + sizes[last - 1]));
        assert(addresses[last] == addresses[last - 1] + sizes[last - 1]) by {
            assert(allocation_fits(memories[last - 1], sizes[last - 1]));
        }
        assert forall|i: int, j: int|
            0 <= i < j < addresses.len() implies #[trigger] addresses[i] + sizes[i] <= #[trigger] addresses[j] by {
            if j < last {
                assert(addresses.drop_last()[i] == addresses[i]);
                assert(addresses.drop_last()[j] == addresses[j]);
                assert(sizes.drop_last()[i] == sizes[i]);
            } else if i < last - 1 {
                assert(addresses.drop_last()[i] == addresses[i]);
                assert(addresses.drop_last()[last - 1] == addresses[last - 1]);
                assert(sizes.drop_last()[i] == sizes[i]);
                assert(addresses[i] + sizes[i] <= addresses[last - 1]);
            }
        }
    }
}

/// The snippet that performs a dynamic allocation: it takes a size and
/// leaves the address of the granted words.
#[derive(Debug)]
pub struct DynMalloc;

impl DynMalloc {
    /// Instructions that set the allocator's cell to `malloc_init_value`;
    /// none where the value is zero.
    pub fn get_initialization_code(malloc_init_value: u32) -> (r: Vec<String>)
        ensures
            malloc_init_value == 0 ==> r@.len() == 0,
            malloc_init_value != 0 ==> r@.map_values(|s: String| s@) == seq![
                "push 0"@,
                "push "@ + crate::text::decimal(malloc_init_value as nat),
                "write_mem"@,
                "pop"@,
            ],
    {
        let mut ret: Vec<String> = Vec::new();
        if malloc_init_value > 0 {
            ret.push(String::from_str("push 0"));
            let mut push_value = String::from_str("push ");
            push_decimal(&mut push_value, malloc_init_value as u64);
            ret.push(push_value);
            ret.push(String::from_str("write_mem"));
            ret.push(String::from_str("pop"));
            proof {
                assert(ret@.map_values(|s: String| s@) =~= seq![
                    "push 0"@,
                    "push "@ + crate::text::decimal(malloc_init_value as nat),
                    "write_mem"@,
                    "pop"@,
                ]);
            }
        }
        ret
    }
}

impl Snippet for DynMalloc {
    open spec fn spec_crash_conditions(&self) -> Seq<Seq<char>> {
        seq!["Caller attempts to allocate more than 2^32 words"@, "More than 2^32 words allocated to memory"@]
    }

    open spec fn spec_entrypoint(&self) -> Seq<char> {
        "tasm_memory_dyn_malloc"@
    }

    open spec fn spec_input_types(&self) -> Seq<DataType> {
        seq![DataType::U32]
    }

    open spec fn spec_output_types(&self) -> Seq<DataType> {
        seq![DataType::U32]
    }

    open spec fn shadow_accepts(
        &self,
        stack: Seq<u64>,
        std_in: Seq<u64>,
        secret_in: Seq<u64>,
        memory: Map<u64, u64>,
    ) -> bool {
        stack.len() >= 1 && allocation_fits(memory, stack.last() as nat)
    }

    open spec fn shadow_stack(
        &self,
        stack: Seq<u64>,
        std_in: Seq<u64>,
        secret_in: Seq<u64>,
        memory: Map<u64, u64>,
    ) -> Seq<u64> {
        stack.drop_last().push(free_address(memory) as u64)
    }

    open spec fn shadow_memory(
        &self,
        stack: Seq<u64>,
        std_in: Seq<u64>,
        secret_in: Seq<u64>,
        memory: Map<u64, u64>,
    ) -> Map<u64, u64> {
        memory.insert(DYN_MALLOC_ADDRESS, (free_address(memory) + stack.last()) as u64)
    }

    open spec fn spec_code(&self, free_pointer: nat) -> Seq<char> {
        self.spec_entrypoint()
            + ":"@
            + "
                push 0
                read_mem
                // _ size *free_pointer *next_addr'

                // add 1 iff `next_addr` was 0, i.e. uninitialized.
                dup 0
                push 0
                eq
                add
                // _ size *free_pointer *next_addr

                dup 0
                dup 3
                // _ size *free_pointer *next_addr *next_addr size

                // Ensure that `size` does not exceed 2^32
                split
                swap 1
                push 0
                eq
                assert
                add
                // _ size *free_pointer *next_addr *(next_addr + size)

                // Ensure that no more than 2^32 words are allocated
                split
                swap 1
                push 0
                eq
                assert

                swap 1
                swap 3
                pop
                // _ *next_addr *free_pointer *(next_addr + size)
                write_mem
                pop
                // _ *next_addr
                return
"@
    }

    proof fn lemma_stack_diff(
        &self,
        stack: Seq<u64>,
        std_in: Seq<u64>,
        secret_in: Seq<u64>,
        memory: Map<u64, u64>,
    ) {
        reveal_with_fuel(total_width, 4);
    }

    fn entrypoint(&self) -> (r: String) {
        String::from_str("tasm_memory_dyn_malloc")
    }

    fn input_types(&self) -> (r: Vec<DataType>) {
        vec![DataType::U32]
    }

    fn output_types(&self) -> (r: Vec<DataType>) {
        vec![DataType::U32]
    }

    fn input_field_names(&self) -> (r: Vec<String>) {
        proof {
            reveal_with_fuel(total_width, 4);
        }
        field_names(&["size"])
    }

    fn output_field_names(&self) -> (r: Vec<String>) {
        proof {
            reveal_with_fuel(total_width, 4);
        }
        field_names(&["*addr"])
    }

    fn crash_conditions(&self) -> (r: Vec<String>) {
        let r = field_names(&["Caller attempts to allocate more than 2^32 words", "More than 2^32 words allocated to memory"]);
        proof {
            assert(r@.len() == self.spec_crash_conditions().len());
        }
        r
    }

    fn stack_diff(&self) -> (r: i64) {
        proof {
            assert(seq![DataType::U32].drop_last() =~= Seq::<DataType>::empty());
        }
        0
    }

    fn function_code(&self, library: &mut Library) -> (r: String) {
        let mut code = self.entrypoint();
        code.append(":");
        code.append(
            "
                push 0
                read_mem
                // _ size *free_pointer *next_addr'

                // add 1 iff `next_addr` was 0, i.e. uninitialized.
                dup 0
                push 0
                eq
                add
                // _ size *free_pointer *next_addr

                dup 0
                dup 3
                // _ size *free_pointer *next_addr *next_addr size

                // Ensure that `size` does not exceed 2^32
                split
                swap 1
                push 0
                eq
                assert
                add
                // _ size *free_pointer *next_addr *(next_addr + size)

                // Ensure that no more than 2^32 words are allocated
                split
                swap 1
                push 0
                eq
                assert

                swap 1
                swap 3
                pop
                // _ *next_addr *free_pointer *(next_addr + size)
                write_mem
                pop
                // _ *next_addr
                return
",
        );
        proof {
            assert(library.spec_labels().is_prefix_of(library.spec_labels()));
        }
        code
    }

    fn gen_input_states(&self, random: &Vec<u64>) -> (r: Vec<ExecutionState>) {
        let mut states: Vec<ExecutionState> = Vec::new();
        let mut i: usize = 0;
        while i < 2
            invariant
                i <= 2,
                states@.len() == i,
                forall|j: int| 0 <= j < states@.len() ==> self.shadow_accepts(
                    #[trigger] states@[j].stack@,
                    states@[j].std_in@,
                    states@[j].nondeterminism@,
                    seeded_memory_deprecated(states@[j].memory@, states@[j].words_allocated),
                ),
            decreases 2 - i,
        {
            let mut state = if i == 0 {
                state_with_words(&vec![drawn(random, 0) % 10_000])
            } else {
                ExecutionState::with_stack(get_init_tvm_stack())
            };
            if i == 0 {
                state.words_allocated = drawn(random, 1) % 10_000;
            }
            states.push(state);
            i = i + 1;
        }
        states
    }

    fn common_case_input_state(&self) -> (r: ExecutionState) {
        let mut stack = get_init_tvm_stack();
        stack.push(10);
        ExecutionState::with_stack(stack)
    }

    fn worst_case_input_state(&self) -> (r: ExecutionState) {
        let mut stack = get_init_tvm_stack();
        stack.push(0x8000_0000);
        ExecutionState::with_stack(stack)
    }

    fn rust_shadowing(
        &self,
        stack: &mut Vec<u64>,
        std_in: &Vec<u64>,
        secret_in: &Vec<u64>,
        memory: &mut HashMap<u64, u64>,
    ) -> (r: Result<(), ShadowError>) {
        proof {
            assert(seq![DataType::U32].drop_last() =~= Seq::<DataType>::empty());
        }
        let size = match stack.pop() {
            Some(size) => size,
            None => return Err(ShadowError::StackUnderflow),
        };
        match allocate(memory, size) {
            Ok(address) => {
                stack.push(address);
                Ok(())
            },
            Err(_) => Err(ShadowError::AllocationFailed),
        }
    }
}

} // verus!
