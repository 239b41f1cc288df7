use vstd::prelude::*;

use std::collections::HashMap;

use crate::data_type::{total_width, DataType};
use crate::library::Library;
use crate::test_helpers::{drawn, get_init_tvm_stack, seeded_memory_deprecated, state_with_words, ExecutionState};
use crate::snippet::{field_names, ShadowError, Snippet};
use vstd::arithmetic::power2::pow2;

verus! {

/// `2^32`: the base of the two `u32` limbs of a `u64` on the stack.
pub const U32_BOUND: u64 = 0x1_0000_0000;

/// The `u64` whose high and low `u32` limbs are `hi` and `lo`.
pub open spec fn u64_of(hi: u64, lo: u64) -> nat {
    hi as nat * U32_BOUND as nat + lo as nat
}

/// The words of a `u64` as it lies on the stack: high limb first, so that
/// the low limb ends up on top.
pub fn encode_u64(value: u64) -> (r: Vec<u64>)
    ensures
        r@ == seq![value / U32_BOUND, value % U32_BOUND],
        u64_of(r@[0], r@[1]) == value,
{
    let r = vec![value / U32_BOUND, value % U32_BOUND];
    proof {
        assert(r@ =~= seq![value / U32_BOUND, value % U32_BOUND]);
    }
    r
}

/// The `u64` that two words stand for, where both are `u32` limbs.
pub fn decode_u64(words: &Vec<u64>) -> (r: Option<u64>)
    ensures
        r is Some <==> words@.len() == 2 && words@[0] < U32_BOUND && words@[1] < U32_BOUND,
        r matches Some(v) ==> v == u64_of(words@[0], words@[1]),
{
    if words.len() != 2 || words[0] >= U32_BOUND || words[1] >= U32_BOUND {
        return None;
    }
    Some(words[0] * U32_BOUND + words[1])
}

/// Encoding a `u64` into its two limbs and decoding them gives the value
/// back, and every pair of limbs is the encoding of the value it decodes to.
pub proof fn lemma_u64_encoding_round_trip(value: u64, hi: u64, lo: u64)
    ensures
        (value / U32_BOUND) < U32_BOUND && (value % U32_BOUND) < U32_BOUND,
        u64_of(value / U32_BOUND, value % U32_BOUND) == value,
        hi < U32_BOUND && lo < U32_BOUND ==> u64_of(hi, lo) <= u64::MAX && (u64_of(hi, lo)
            as u64) / U32_BOUND == hi && (u64_of(hi, lo) as u64) % U32_BOUND == lo,
{
    if hi < U32_BOUND && lo < U32_BOUND {
        assert(u64_of(hi, lo) <= u64::MAX) by (nonlinear_arith)
            requires
                hi < 0x1_0000_0000,
                lo < 0x1_0000_0000,
                u64_of(hi, lo) == hi as nat * 0x1_0000_0000 + lo as nat,
        ;
        let v = u64_of(hi, lo);
        vstd::arithmetic::div_mod::lemma_fundamental_div_mod_converse(
            v as int,
            U32_BOUND as int,
            hi as int,
            lo as int,
        );
    }
}

/// Replaces the top of the stack by its parity.
#[derive(Debug)]
pub struct U32IsOdd;

impl Snippet for U32IsOdd {
    open spec fn spec_crash_conditions(&self) -> Seq<Seq<char>> {
        seq!["if `value` is not a u32"@]
    }

    open spec fn spec_entrypoint(&self) -> Seq<char> {
        "is_odd"@
    }

    open spec fn spec_input_types(&self) -> Seq<DataType> {
        seq![DataType::U32]
    }

    open spec fn spec_output_types(&self) -> Seq<DataType> {
        seq![DataType::Bool]
    }

    open spec fn shadow_accepts(
        &self,
        stack: Seq<u64>,
        std_in: Seq<u64>,
        secret_in: Seq<u64>,
        memory: Map<u64, u64>,
    ) -> bool {
        stack.len() >= 1
    }

    open spec fn shadow_stack(
        &self,
        stack: Seq<u64>,
        std_in: Seq<u64>,
        secret_in: Seq<u64>,
        memory: Map<u64, u64>,
    ) -> Seq<u64> {
        stack.drop_last().push(stack.last() % 2)
    }

    open spec fn shadow_memory(
        &self,
        stack: Seq<u64>,
        std_in: Seq<u64>,
        secret_in: Seq<u64>,
        memory: Map<u64, u64>,
    ) -> Map<u64, u64> {
        memory
    }

    open spec fn spec_code(&self, free_pointer: nat) -> Seq<char> {
        self.spec_entrypoint()
            + ":"@
            + "
                    lsb
                    swap1
                    pop
                    return
"@
    }

    proof fn lemma_stack_diff(
        &self,
        stack: Seq<u64>,
        std_in: Seq<u64>,
        secret_in: Seq<u64>,
        memory: Map<u64, u64>,
    ) {
        reveal_with_fuel(total_width, 4);
    }

    fn entrypoint(&self) -> (r: String) {
        String::from_str("is_odd")
    }

    fn input_types(&self) -> (r: Vec<DataType>) {
        vec![DataType::U32]
    }

    fn output_types(&self) -> (r: Vec<DataType>) {
        vec![DataType::Bool]
    }

    fn input_field_names(&self) -> (r: Vec<String>) {
        proof {
            reveal_with_fuel(total_width, 4);
        }
        field_names(&["value"])
    }

    fn output_field_names(&self) -> (r: Vec<String>) {
        proof {
            reveal_with_fuel(total_width, 4);
        }
        field_names(&["value % 2"])
    }

    fn crash_conditions(&self) -> (r: Vec<String>) {
        let r = field_names(&["if `value` is not a u32"]);
        proof {
            assert(r@.len() == self.spec_crash_conditions().len());
        }
        r
    }

    fn stack_diff(&self) -> (r: i64) {
        proof {
            assert(seq![DataType::U32].drop_last() =~= Seq::<DataType>::empty());
            assert(seq![DataType::Bool].drop_last() =~= Seq::<DataType>::empty());
        }
        0
    }

    fn function_code(&self, library: &mut Library) -> (r: String) {
        let mut code = self.entrypoint();
        code.append(":");
        code.append(
            "
                    lsb
                    swap1
                    pop
                    return
",
        );
        proof {
            assert(library.spec_labels().is_prefix_of(library.spec_labels()));
        }
        code
    }

    fn gen_input_states(&self, random: &Vec<u64>) -> (r: Vec<ExecutionState>) {
        let mut states: Vec<ExecutionState> = Vec::new();
        let mut i: usize = 0;
        while i < 5
            invariant
                i <= 5,
                states@.len() == i,
                forall|j: int| 0 <= j < states@.len() ==> self.shadow_accepts(
                    #[trigger] states@[j].stack@,
                    states@[j].std_in@,
                    states@[j].nondeterminism@,
                    seeded_memory_deprecated(states@[j].memory@, states@[j].words_allocated),
                ),
            decreases 5 - i,
        {
            let n = drawn(random, 0) % 0x1_0000_0000;
            let value: u64 = if i == 0 {
                n - n % 2
            } else if i == 1 {
                n - n % 2 + 1
            } else if i == 2 {
                crate::FIELD_MODULUS - 1
            } else if i == 3 {
                0x1_0000_0000
            } else {
                0x1_0000_0001
            };
            let state = state_with_words(&vec![value]);
            states.push(state);
            i = i + 1;
        }
        states
    }

    fn common_case_input_state(&self) -> (r: ExecutionState) {
        let mut stack = get_init_tvm_stack();
        stack.push(6);
        ExecutionState::with_stack(stack)
    }

    fn worst_case_input_state(&self) -> (r: ExecutionState) {
        let mut stack = get_init_tvm_stack();
        stack.push(0xffff_ffff);
        ExecutionState::with_stack(stack)
    }

    fn rust_shadowing(
        &self,
        stack: &mut Vec<u64>,
        std_in: &Vec<u64>,
        secret_in: &Vec<u64>,
        memory: &mut HashMap<u64, u64>,
    ) -> (r: Result<(), ShadowError>) {
        proof {
            assert(seq![DataType::U32].drop_last() =~= Seq::<DataType>::empty());
            assert(seq![DataType::Bool].drop_last() =~= Seq::<DataType>::empty());
        }
        let value = match stack.pop() {
            Some(v) => v,
            None => return Err(ShadowError::StackUnderflow),
        };
        stack.push(value % 2);
        Ok(())
    }
}

/// Shifts a `u64` (two `u32` limbs, low limb nearer the top) right by a
/// `u32` amount below 64.
#[derive(Debug)]
pub struct ShiftRightU64;

impl Snippet for ShiftRightU64 {
    open spec fn spec_crash_conditions(&self) -> Seq<Seq<char>> {
        Seq::empty()
    }

    open spec fn spec_entrypoint(&self) -> Seq<char> {
        "tasm_arithmetic_u64_shift_right"@
    }

    open spec fn spec_input_types(&self) -> Seq<DataType> {
        seq![DataType::U64, DataType::U32]
    }

    open spec fn spec_output_types(&self) -> Seq<DataType> {
        seq![DataType::U64]
    }

    open spec fn shadow_accepts(
        &self,
        stack: Seq<u64>,
        std_in: Seq<u64>,
        secret_in: Seq<u64>,
        memory: Map<u64, u64>,
    ) -> bool {
        &&& stack.len() >= 3
        &&& stack[stack.len() - 1] < 64
        &&& stack[stack.len() - 2] < U32_BOUND
        &&& stack[stack.len() - 3] < U32_BOUND
    }

    open spec fn shadow_stack(
        &self,
        stack: Seq<u64>,
        std_in: Seq<u64>,
        secret_in: Seq<u64>,
        memory: Map<u64, u64>,
    ) -> Seq<u64> {
        let n = stack.len();
        let shifted = u64_of(stack[n - 3], stack[n - 2]) / pow2(stack[n - 1] as nat);
        stack.take(n - 3).push((shifted / U32_BOUND as nat) as u64).push(
            (shifted % U32_BOUND as nat) as u64,
        )
    }

    open spec fn shadow_memory(
        &self,
        stack: Seq<u64>,
        std_in: Seq<u64>,
        secret_in: Seq<u64>,
        memory: Map<u64, u64>,
    ) -> Map<u64, u64> {
        memory
    }

    open spec fn spec_code(&self, free_pointer: nat) -> Seq<char> {
        self.spec_entrypoint()
            + ":"@
            + "
                // Bounds check: Verify that shift amount is less than 64.
                push 64
                dup 1
                lt
                assert
                // _ value_hi value_lo shift

                // If shift amount is greater than 32, we need to special-case!
                dup 0
                push 32
                lt
                // _ value_hi value_lo shift (shift > 32)

                skiz
                    call "@
            + self.spec_entrypoint()
            + "_handle_hi_shift
                // _ value_hi value_lo shift

                push -1
                mul
                push 32
                add
                // _ value_hi value_lo (32 - shift)

                push 2
                pow
                // _ value_hi value_lo (2 ^ (32 - shift))

                swap 1
                dup 1
                mul
                split
                pop
                // _ value_hi (2 ^ (32 - shift)) (value_lo >> shift)

                swap 2
                mul
                split
                // _ (value_lo >> shift) (value_hi >> shift) carry

                swap 1
                swap 2
                add

                return

            // start: _ value_hi value_lo shift
            // end: _ (value >> 32)_hi (value >> 32)_lo (shift - 32)
            "@
            + self.spec_entrypoint()
            + "_handle_hi_shift:
                push -32
                add
                swap 2 swap 1 push 32
                call "@
            + self.spec_entrypoint()
            + "
                swap 1 swap 2
                return
"@
    }

    proof fn lemma_stack_diff(
        &self,
        stack: Seq<u64>,
        std_in: Seq<u64>,
        secret_in: Seq<u64>,
        memory: Map<u64, u64>,
    ) {
        reveal_with_fuel(total_width, 4);
    }

    fn entrypoint(&self) -> (r: String) {
        String::from_str("tasm_arithmetic_u64_shift_right")
    }

    fn input_types(&self) -> (r: Vec<DataType>) {
        vec![DataType::U64, DataType::U32]
    }

    fn output_types(&self) -> (r: Vec<DataType>) {
        vec![DataType::U64]
    }

    fn input_field_names(&self) -> (r: Vec<String>) {
        proof {
            reveal_with_fuel(total_width, 4);
        }
        field_names(&["value_hi", "value_lo", "shift_amount"])
    }

    fn output_field_names(&self) -> (r: Vec<String>) {
        proof {
            reveal_with_fuel(total_width, 4);
        }
        field_names(&["shifted_value_hi", "shifted_value_lo"])
    }

    fn crash_conditions(&self) -> (r: Vec<String>) {
        Vec::new()
    }

    fn stack_diff(&self) -> (r: i64) {
        proof {
            assert(seq![DataType::U64, DataType::U32].drop_last() =~= seq![DataType::U64]);
            assert(seq![DataType::U64].drop_last() =~= Seq::<DataType>::empty());
        }
        -1
    }

    fn function_code(&self, library: &mut Library) -> (r: String) {
        let entrypoint = self.entrypoint();
        let mut code = self.entrypoint();
        code.append(":");
        code.append(
            "
                // Bounds check: Verify that shift amount is less than 64.
                push 64
                dup 1
                lt
                assert
                // _ value_hi value_lo shift

                // If shift amount is greater than 32, we need to special-case!
                dup 0
                push 32
                lt
                // _ value_hi value_lo shift (shift > 32)

                skiz
                    call ",
        );
        code.append(entrypoint.as_str());
        code.append(
            "_handle_hi_shift
                // _ value_hi value_lo shift

                push -1
                mul
                push 32
                add
                // _ value_hi value_lo (32 - shift)

                push 2
                pow
                // _ value_hi value_lo (2 ^ (32 - shift))

                swap 1
                dup 1
                mul
                split
                pop
                // _ value_hi (2 ^ (32 - shift)) (value_lo >> shift)

                swap 2
                mul
                split
                // _ (value_lo >> shift) (value_hi >> shift) carry

                swap 1
                swap 2
                add

                return

            // start: _ value_hi value_lo shift
            // end: _ (value >> 32)_hi (value >> 32)_lo (shift - 32)
            ",
        );
        code.append(entrypoint.as_str());
        code.append(
            "_handle_hi_shift:
                push -32
                add
                swap 2 swap 1 push 32
                call ",
        );
        code.append(entrypoint.as_str());
        code.append(
            "
                swap 1 swap 2
                return
",
        );
        proof {
            assert(library.spec_labels().is_prefix_of(library.spec_labels()));
        }
        code
    }

    fn gen_input_states(&self, random: &Vec<u64>) -> (r: Vec<ExecutionState>) {
        let mut states: Vec<ExecutionState> = Vec::new();
        let mut i: usize = 0;
        while i < 64
            invariant
                i <= 64,
                states@.len() == i,
                forall|j: int| 0 <= j < states@.len() ==> self.shadow_accepts(
                    #[trigger] states@[j].stack@,
                    states@[j].std_in@,
                    states@[j].nondeterminism@,
                    seeded_memory_deprecated(states@[j].memory@, states@[j].words_allocated),
                ),
            decreases 64 - i,
        {
            let value = (drawn(random, i) % 0x1_0000_0000) * 2;
            let state = state_with_words(&vec![value / U32_BOUND, value % U32_BOUND, i as u64]);
            states.push(state);
            i = i + 1;
        }
        states
    }

    fn common_case_input_state(&self) -> (r: ExecutionState) {
        let mut stack = get_init_tvm_stack();
        stack.push(0);
        stack.push(0x642);
        stack.push(15);
        ExecutionState::with_stack(stack)
    }

    fn worst_case_input_state(&self) -> (r: ExecutionState) {
        let mut stack = get_init_tvm_stack();
        stack.push(0);
        stack.push(0x123);
        stack.push(33);
        ExecutionState::with_stack(stack)
    }

    fn rust_shadowing(
        &self,
        stack: &mut Vec<u64>,
        std_in: &Vec<u64>,
        secret_in: &Vec<u64>,
        memory: &mut HashMap<u64, u64>,
    ) -> (r: Result<(), ShadowError>) {
        proof {
            assert(seq![DataType::U64, DataType::U32].drop_last() =~= seq![DataType::U64]);
            assert(seq![DataType::U64].drop_last() =~= Seq::<DataType>::empty());
        }
        let n = stack.len();
        if n < 3 {
            return Err(ShadowError::StackUnderflow);
        }
        let shift_amount = stack[n - 1];
        let lo = stack[n - 2];
        let hi = stack[n - 3];
        if shift_amount >= 64 || lo >= U32_BOUND || hi >= U32_BOUND {
            return Err(ShadowError::ValueOutOfRange);
        }
        let ghost old_stack = stack@;
        stack.pop();
        stack.pop();
        stack.pop();
        let value: u64 = hi * U32_BOUND + lo;
        let shifted: u64 = value >> shift_amount;
        proof {
            vstd::bits::lemma_u64_shr_is_div(value, shift_amount);
            assert(stack@ =~= old_stack.take(n - 3));
        }
        stack.push(shifted / U32_BOUND);
        stack.push(shifted % U32_BOUND);
        Ok(())
    }
}

} // verus!
