use vstd::prelude::*;

use std::collections::HashMap;

use crate::arithmetic::{u64_of, U32_BOUND};
use crate::data_type::{total_width, DataType};
use crate::library::Library;
use crate::test_helpers::{drawn, seeded_memory_deprecated, u64_input_stack, ExecutionState};
use crate::snippet::{field_names, ShadowError, Snippet};
use vstd::arithmetic::power2::{lemma_pow2_pos, pow2};

verus! {

/// `floor(log2(n))`, and 0 for `n` below 2.
pub open spec fn log2_floor(n: nat) -> nat
    decreases n,
{
    if n < 2 {
        0
    } else {
        1 + log2_floor(n / 2)
    }
}

/// Number of one bits of `n`.
pub open spec fn popcount(n: nat) -> nat
    decreases n,
{
    if n == 0 {
        0
    } else {
        n % 2 + popcount(n / 2)
    }
}

/// Number of nodes above leaf level that an MMR holds before the leaf with
/// index `n`: each complete tree of `2^h` leaves holds `2^h - 1` of them.
pub open spec fn non_leaf_nodes_left_spec(n: nat) -> nat
    decreases n,
{
    if n == 0 {
        0
    } else {
        n / 2 + non_leaf_nodes_left_spec(n / 2)
    }
}

/// Index (counted from one, in post-order) and height of the root of the
/// smallest complete tree that holds node `node_index`.
pub open spec fn leftmost_ancestor_spec(node_index: nat) -> (nat, nat) {
    ((pow2(log2_floor(node_index) + 1) - 1) as nat, log2_floor(node_index))
}

/// The walk from `candidate`, a node of height `height` whose subtree
/// holds `node_index`, down to `node_index`: a step to the right child
/// adds one to `count`, a step to the left child sets it to zero. Returns
/// the count and the height at which the walk meets the node.
pub open spec fn right_lineage_walk(node_index: nat, candidate: nat, height: nat, count: nat) -> (
    nat,
    nat,
)
    decreases height,
{
    if candidate == node_index || height == 0 {
        (count, height)
    } else if candidate - pow2(height) < node_index {
        right_lineage_walk(node_index, (candidate - 1) as nat, (height - 1) as nat, count + 1)
    } else {
        right_lineage_walk(node_index, (candidate - pow2(height)) as nat, (height - 1) as nat, 0)
    }
}

/// For a node: how many of the node and its ancestors, up to the first
/// that is a left child, are right children; and the node's height. The
/// node is a right child exactly where the count is not zero.
pub open spec fn right_lineage_and_height(node_index: nat) -> (nat, nat) {
    right_lineage_walk(
        node_index,
        leftmost_ancestor_spec(node_index).0,
        leftmost_ancestor_spec(node_index).1,
        0,
    )
}

proof fn lemma_log2_floor_bound(n: nat)
    requires
        n >= 1,
    ensures
        pow2(log2_floor(n)) <= n < pow2(log2_floor(n) + 1),
    decreases n,
{
    vstd::arithmetic::power2::lemma_pow2_unfold(log2_floor(n) + 1);
    if n >= 2 {
        lemma_log2_floor_bound(n / 2);
        vstd::arithmetic::power2::lemma_pow2_unfold(log2_floor(n));
    } else {
        vstd::arithmetic::power2::lemma2_to64();
    }
}

pub(crate) proof fn lemma_non_leaf_nodes_left(n: nat)
    ensures
        non_leaf_nodes_left_spec(n) + popcount(n) == n,
    decreases n,
{
    if n > 0 {
        lemma_non_leaf_nodes_left(n / 2);
    }
}

/// Relies on twenty_first's `util_types::mmr::shared_advanced::leftmost_ancestor`:
/// `(2^(h+1) - 1, h)` with `h = ilog2(node_index)`, and `(u64::MAX, 63)`
/// where the top bit is set. It panics on zero.
#[verifier::external_body]
fn leftmost_ancestor(node_index: u64) -> (r: (u64, u32))
    requires
        node_index >= 1,
    ensures
        r.0 == leftmost_ancestor_spec(node_index as nat).0,
        r.1 == leftmost_ancestor_spec(node_index as nat).1,
{
    twenty_first::util_types::mmr::shared_advanced::leftmost_ancestor(node_index)
}

/// Relies on twenty_first's
/// `util_types::mmr::shared_advanced::right_lineage_length_and_own_height`:
/// the walk down from the leftmost ancestor that `right_lineage_walk`
/// states (left child `candidate - 2^height`, right child `candidate - 1`).
/// For a positive index the walk meets the node by height 0. It panics on
/// zero.
#[verifier::external_body]
pub(crate) fn right_lineage_length_and_own_height(node_index: u64) -> (r: (u32, u32))
    requires
        node_index >= 1,
    ensures
        r.0 as nat == right_lineage_and_height(node_index as nat).0,
        r.1 as nat == right_lineage_and_height(node_index as nat).1,
{
    twenty_first::util_types::mmr::shared_advanced::right_lineage_length_and_own_height(node_index)
}

/// Relies on twenty_first's `util_types::mmr::shared_advanced::leaf_index_to_node_index`:
/// `2 * leaf_index - leaf_index.count_ones() + 1`, for indices below `2^63`.
#[verifier::external_body]
pub(crate) fn leaf_index_to_node_index(leaf_index: u64) -> (r: u64)
    requires
        leaf_index < 0x8000_0000_0000_0000,
    ensures
        r == 2 * leaf_index - popcount(leaf_index as nat) + 1,
{
    twenty_first::util_types::mmr::shared_advanced::leaf_index_to_node_index(leaf_index)
}

/// `floor(log2(value))` for a positive value.
pub fn log_2_floor(value: u128) -> (r: u64)
    requires
        value >= 1,
    ensures
        r == log2_floor(value as nat),
{
    proof {
        lemma_log2_floor_bound(value as nat);
        vstd::arithmetic::power2::lemma2_to64();
        vstd::arithmetic::power2::lemma_pow2_adds(64, 64);
        let h = log2_floor(value as nat);
        if h >= 128 {
            if h > 128 {
                vstd::arithmetic::power2::lemma_pow2_strictly_increases(128, h);
            }
            assert(pow2(64) == 0x1_0000_0000_0000_0000nat);
            assert(pow2(128) == pow2(64) * pow2(64));
            assert(pow2(128) > u128::MAX) by (nonlinear_arith)
                requires
                    pow2(128) == pow2(64) * pow2(64),
                    pow2(64) == 0x1_0000_0000_0000_0000nat,
            ;
            assert(false);
        }
    }
    let mut x: u128 = value;
    let mut r: u64 = 0;
    while x >= 2
        invariant
            x >= 1,
            r + log2_floor(x as nat) == log2_floor(value as nat),
            log2_floor(value as nat) < 128,
        decreases x,
    {
        proof {
            assert(log2_floor(x as nat) == 1 + log2_floor((x / 2) as nat));
        }
        x = x / 2;
        r = r + 1;
    }
    r
}

/// Number of non-leaf nodes in an MMR before the leaf with this index.
pub fn non_leaf_nodes_left(leaf_index: u64) -> (r: u64)
    ensures
        r == non_leaf_nodes_left_spec(leaf_index as nat),
        r == leaf_index - popcount(leaf_index as nat),
{
    proof {
        lemma_non_leaf_nodes_left(leaf_index as nat);
    }
    let mut x: u64 = leaf_index;
    let mut r: u64 = 0;
    while x > 0
        invariant
            r + non_leaf_nodes_left_spec(x as nat) == non_leaf_nodes_left_spec(leaf_index as nat),
            non_leaf_nodes_left_spec(leaf_index as nat) <= leaf_index,
        decreases x,
    {
        x = x / 2;
        r = r + x;
    }
    r
}

/// Pops a `u64` given as two `u32` limbs, low limb on top.
fn pop_u64(stack: &mut Vec<u64>) -> (r: Result<u64, ShadowError>)
    ensures
        match r {
            Ok(v) => {
                &&& old(stack)@.len() >= 2
                &&& old(stack)@[old(stack)@.len() - 1] < U32_BOUND
                &&& old(stack)@[old(stack)@.len() - 2] < U32_BOUND
                &&& v == u64_of(old(stack)@[old(stack)@.len() - 2], old(stack)@[old(stack)@.len() - 1])
                &&& final(stack)@ == old(stack)@.take(old(stack)@.len() - 2)
            },
            Err(_) => !(old(stack)@.len() >= 2 && old(stack)@[old(stack)@.len() - 1] < U32_BOUND
                && old(stack)@[old(stack)@.len() - 2] < U32_BOUND),
        },
{
    let n = stack.len();
    if n < 2 {
        return Err(ShadowError::StackUnderflow);
    }
    let lo = stack[n - 1];
    let hi = stack[n - 2];
    if lo >= U32_BOUND || hi >= U32_BOUND {
        return Err(ShadowError::ValueOutOfRange);
    }
    let ghost old_stack = stack@;
    stack.pop();
    stack.pop();
    proof {
        assert(stack@ =~= old_stack.take(n - 2));
    }
    Ok(hi * U32_BOUND + lo)
}

/// The stack holds a `u64` on top, as two `u32` limbs.
pub open spec fn has_u64_on_top(stack: Seq<u64>) -> bool {
    stack.len() >= 2 && stack[stack.len() - 1] < U32_BOUND && stack[stack.len() - 2] < U32_BOUND
}

/// The `u64` on top of the stack.
pub open spec fn u64_on_top(stack: Seq<u64>) -> nat {
    u64_of(stack[stack.len() - 2], stack[stack.len() - 1])
}

/// `stack` with the `u64` `v` pushed as two limbs, low limb on top.
pub open spec fn push_u64(stack: Seq<u64>, v: nat) -> Seq<u64> {
    stack.push((v / U32_BOUND as nat) as u64).push((v % U32_BOUND as nat) as u64)
}

/// Replaces a node index by the index and height of its leftmost ancestor.
///
/// The code calls the `u64` routines of the snippet catalog by their
/// labels; a program that links it links those as well.
#[derive(Debug)]
pub struct MmrLeftMostAncestor;

impl Snippet for MmrLeftMostAncestor {
    open spec fn spec_crash_conditions(&self) -> Seq<Seq<char>> {
        seq!["Inputs are not u32s"@, "Node index beyond ~2^63?"@]
    }

    open spec fn spec_entrypoint(&self) -> Seq<char> {
        "tasm_mmr_leftmost_ancestor"@
    }

    open spec fn spec_input_types(&self) -> Seq<DataType> {
        seq![DataType::U64]
    }

    open spec fn spec_output_types(&self) -> Seq<DataType> {
        seq![DataType::U64, DataType::U32]
    }

    open spec fn shadow_accepts(
        &self,
        stack: Seq<u64>,
        std_in: Seq<u64>,
        secret_in: Seq<u64>,
        memory: Map<u64, u64>,
    ) -> bool {
        has_u64_on_top(stack) && u64_on_top(stack) >= 1
    }

    open spec fn shadow_stack(
        &self,
        stack: Seq<u64>,
        std_in: Seq<u64>,
        secret_in: Seq<u64>,
        memory: Map<u64, u64>,
    ) -> Seq<u64> {
        let (index, height) = leftmost_ancestor_spec(u64_on_top(stack));
        push_u64(stack.take(stack.len() - 2), index).push(height as u64)
    }

    open spec fn shadow_memory(
        &self,
        stack: Seq<u64>,
        std_in: Seq<u64>,
        secret_in: Seq<u64>,
        memory: Map<u64, u64>,
    ) -> Map<u64, u64> {
        memory
    }

    open spec fn spec_code(&self, free_pointer: nat) -> Seq<char> {
        self.spec_entrypoint()
            + ":"@
            + "
                call tasm_arithmetic_u64_log_2_floor
                // _ log2_floor

                dup 0
                // notice that log2_floor = height
                // _ height log2_floor

                push 1
                add
                // _ height (log2_floor + 1)

                call tasm_arithmetic_u64_pow2
                // _ height 2^(log2_floor + 1)_hi 2^(log2_floor + 1)_lo

                call tasm_arithmetic_u64_decr
                // _ height leftmost_ancestor_hi leftmost_ancestor_lo

                swap 1
                swap 2
                // _ leftmost_ancestor_hi leftmost_ancestor_lo height

                return
"@
    }

    proof fn lemma_stack_diff(
        &self,
        stack: Seq<u64>,
        std_in: Seq<u64>,
        secret_in: Seq<u64>,
        memory: Map<u64, u64>,
    ) {
        reveal_with_fuel(total_width, 4);
    }

    fn entrypoint(&self) -> (r: String) {
        String::from_str("tasm_mmr_leftmost_ancestor")
    }

    fn input_types(&self) -> (r: Vec<DataType>) {
        vec![DataType::U64]
    }

    fn output_types(&self) -> (r: Vec<DataType>) {
        vec![DataType::U64, DataType::U32]
    }

    fn input_field_names(&self) -> (r: Vec<String>) {
        proof {
            reveal_with_fuel(total_width, 4);
        }
        field_names(&["node_index_hi", "node_index_lo"])
    }

    fn output_field_names(&self) -> (r: Vec<String>) {
        proof {
            reveal_with_fuel(total_width, 4);
        }
        field_names(&["leftmost_ancestor_hi", "leftmost_ancestor_lo", "height"])
    }

    fn crash_conditions(&self) -> (r: Vec<String>) {
        let r = field_names(&["Inputs are not u32s", "Node index beyond ~2^63?"]);
        proof {
            assert(r@.len() == self.spec_crash_conditions().len());
        }
        r
    }

    fn stack_diff(&self) -> (r: i64) {
        proof {
            assert(seq![DataType::U64, DataType::U32].drop_last() =~= seq![DataType::U64]);
            assert(seq![DataType::U64].drop_last() =~= Seq::<DataType>::empty());
        }
        1
    }

    fn function_code(&self, library: &mut Library) -> (r: String) {
        let mut code = self.entrypoint();
        code.append(":");
        code.append(
            "
                call tasm_arithmetic_u64_log_2_floor
                // _ log2_floor

                dup 0
                // notice that log2_floor = height
                // _ height log2_floor

                push 1
                add
                // _ height (log2_floor + 1)

                call tasm_arithmetic_u64_pow2
                // _ height 2^(log2_floor + 1)_hi 2^(log2_floor + 1)_lo

                call tasm_arithmetic_u64_decr
                // _ height leftmost_ancestor_hi leftmost_ancestor_lo

                swap 1
                swap 2
                // _ leftmost_ancestor_hi leftmost_ancestor_lo height

                return
",
        );
        proof {
            assert(library.spec_labels().is_prefix_of(library.spec_labels()));
        }
        code
    }

    fn gen_input_states(&self, random: &Vec<u64>) -> (r: Vec<ExecutionState>) {
        let mut states: Vec<ExecutionState> = Vec::new();
        let mut i: usize = 0;
        while i < 10
            invariant
                i <= 10,
                states@.len() == i,
                forall|j: int| 0 <= j < states@.len() ==> self.shadow_accepts(
                    #[trigger] states@[j].stack@,
                    states@[j].std_in@,
                    states@[j].nondeterminism@,
                    seeded_memory_deprecated(states@[j].memory@, states@[j].words_allocated),
                ),
            decreases 10 - i,
        {
            let mut value = drawn(random, i) % 0x7fff_ffff_ffff_ffff;
            if value == 0 {
                value = 1;
            }
            proof {
                crate::arithmetic::lemma_u64_encoding_round_trip(value, 0, 0);
            }
            let state = ExecutionState::with_stack(u64_input_stack(value));
            states.push(state);
            i = i + 1;
        }
        states
    }

    fn common_case_input_state(&self) -> (r: ExecutionState) {
        proof {
            crate::arithmetic::lemma_u64_encoding_round_trip(0xffff_ffff, 0, 0);
        }
        ExecutionState::with_stack(u64_input_stack(0xffff_ffff))
    }

    fn worst_case_input_state(&self) -> (r: ExecutionState) {
        proof {
            crate::arithmetic::lemma_u64_encoding_round_trip(0x7fff_ffff_ffff_ffff, 0, 0);
        }
        ExecutionState::with_stack(u64_input_stack(0x7fff_ffff_ffff_ffff))
    }

    fn rust_shadowing(
        &self,
        stack: &mut Vec<u64>,
        std_in: &Vec<u64>,
        secret_in: &Vec<u64>,
        memory: &mut HashMap<u64, u64>,
    ) -> (r: Result<(), ShadowError>) {
        proof {
            assert(seq![DataType::U64, DataType::U32].drop_last() =~= seq![DataType::U64]);
            assert(seq![DataType::U64].drop_last() =~= Seq::<DataType>::empty());
        }
        let node_index = match pop_u64(stack) {
            Ok(v) => v,
            Err(e) => return Err(e),
        };
        if node_index == 0 {
            return Err(ShadowError::ValueOutOfRange);
        }
        let (index, height) = leftmost_ancestor(node_index);
        stack.push(index / U32_BOUND);
        stack.push(index % U32_BOUND);
        stack.push(height as u64);
        Ok(())
    }
}

/// Replaces a leaf index by the height of the MMR in which that leaf is
/// the last one: `floor(log2(leaf_index + 1))`.
///
/// The code calls the `u64` routines of the snippet catalog by their
/// labels; a program that links it links those as well.
#[derive(Debug)]
pub struct GetHeightFromDataIndex;

impl Snippet for GetHeightFromDataIndex {
    open spec fn spec_crash_conditions(&self) -> Seq<Seq<char>> {
        Seq::empty()
    }

    open spec fn spec_entrypoint(&self) -> Seq<char> {
        "tasm_mmr_get_height_from_leaf_index"@
    }

    open spec fn spec_input_types(&self) -> Seq<DataType> {
        seq![DataType::U64]
    }

    open spec fn spec_output_types(&self) -> Seq<DataType> {
        seq![DataType::U32]
    }

    open spec fn shadow_accepts(
        &self,
        stack: Seq<u64>,
        std_in: Seq<u64>,
        secret_in: Seq<u64>,
        memory: Map<u64, u64>,
    ) -> bool {
        has_u64_on_top(stack)
    }

    open spec fn shadow_stack(
        &self,
        stack: Seq<u64>,
        std_in: Seq<u64>,
        secret_in: Seq<u64>,
        memory: Map<u64, u64>,
    ) -> Seq<u64> {
        stack.take(stack.len() - 2).push(log2_floor(u64_on_top(stack) + 1) as u64)
    }

    open spec fn shadow_memory(
        &self,
        stack: Seq<u64>,
        std_in: Seq<u64>,
        secret_in: Seq<u64>,
        memory: Map<u64, u64>,
    ) -> Map<u64, u64> {
        memory
    }

    open spec fn spec_code(&self, free_pointer: nat) -> Seq<char> {
        self.spec_entrypoint()
            + ":"@
            + "
                call tasm_arithmetic_u64_incr
                call tasm_arithmetic_u64_log_2_floor
                return
"@
    }

    proof fn lemma_stack_diff(
        &self,
        stack: Seq<u64>,
        std_in: Seq<u64>,
        secret_in: Seq<u64>,
        memory: Map<u64, u64>,
    ) {
        reveal_with_fuel(total_width, 4);
    }

    fn entrypoint(&self) -> (r: String) {
        String::from_str("tasm_mmr_get_height_from_leaf_index")
    }

    fn input_types(&self) -> (r: Vec<DataType>) {
        vec![DataType::U64]
    }

    fn output_types(&self) -> (r: Vec<DataType>) {
        vec![DataType::U32]
    }

    fn input_field_names(&self) -> (r: Vec<String>) {
        proof {
            reveal_with_fuel(total_width, 4);
        }
        field_names(&["leaf_index_hi", "leaf_index_lo"])
    }

    fn output_field_names(&self) -> (r: Vec<String>) {
        proof {
            reveal_with_fuel(total_width, 4);
        }
        field_names(&["height"])
    }

    fn crash_conditions(&self) -> (r: Vec<String>) {
        Vec::new()
    }

    fn stack_diff(&self) -> (r: i64) {
        proof {
            assert(seq![DataType::U32].drop_last() =~= Seq::<DataType>::empty());
            assert(seq![DataType::U64].drop_last() =~= Seq::<DataType>::empty());
        }
        -1
    }

    fn function_code(&self, library: &mut Library) -> (r: String) {
        let mut code = self.entrypoint();
        code.append(":");
        code.append(
            "
                call tasm_arithmetic_u64_incr
                call tasm_arithmetic_u64_log_2_floor
                return
",
        );
        proof {
            assert(library.spec_labels().is_prefix_of(library.spec_labels()));
        }
        code
    }

    fn gen_input_states(&self, random: &Vec<u64>) -> (r: Vec<ExecutionState>) {
        let mut states: Vec<ExecutionState> = Vec::new();
        let mut i: usize = 0;
        while i < 40
            invariant
                i <= 40,
                states@.len() == i,
                forall|j: int| 0 <= j < states@.len() ==> self.shadow_accepts(
                    #[trigger] states@[j].stack@,
                    states@[j].std_in@,
                    states@[j].nondeterminism@,
                    seeded_memory_deprecated(states@[j].memory@, states@[j].words_allocated),
                ),
            decreases 40 - i,
        {
            let mut value = drawn(random, i) % 0x7fff_ffff_ffff_ffff;
            proof {
                crate::arithmetic::lemma_u64_encoding_round_trip(value, 0, 0);
            }
            let state = ExecutionState::with_stack(u64_input_stack(value));
            states.push(state);
            i = i + 1;
        }
        states
    }

    fn common_case_input_state(&self) -> (r: ExecutionState) {
        proof {
            crate::arithmetic::lemma_u64_encoding_round_trip(0xffff_ffff, 0, 0);
        }
        ExecutionState::with_stack(u64_input_stack(0xffff_ffff))
    }

    fn worst_case_input_state(&self) -> (r: ExecutionState) {
        proof {
            crate::arithmetic::lemma_u64_encoding_round_trip(0x7fff_ffff_ffff_ffff, 0, 0);
        }
        ExecutionState::with_stack(u64_input_stack(0x7fff_ffff_ffff_ffff))
    }

    fn rust_shadowing(
        &self,
        stack: &mut Vec<u64>,
        std_in: &Vec<u64>,
        secret_in: &Vec<u64>,
        memory: &mut HashMap<u64, u64>,
    ) -> (r: Result<(), ShadowError>) {
        proof {
            assert(seq![DataType::U32].drop_last() =~= Seq::<DataType>::empty());
            assert(seq![DataType::U64].drop_last() =~= Seq::<DataType>::empty());
        }
        let leaf_index = match pop_u64(stack) {
            Ok(v) => v,
            Err(e) => return Err(e),
        };
        let height = log_2_floor(leaf_index as u128 + 1);
        stack.push(height);
        Ok(())
    }
}

/// Replaces a node index by whether the node is a right child, and its
/// height.
///
/// The code calls the `u64` and MMR routines of the snippet catalog by
/// their labels; a program that links it links those as well.
#[derive(Debug)]
pub struct MmrRightChildAndHeight;

impl Snippet for MmrRightChildAndHeight {
    open spec fn spec_crash_conditions(&self) -> Seq<Seq<char>> {
        seq!["Node index exceeds 2^63?"@]
    }

    open spec fn spec_entrypoint(&self) -> Seq<char> {
        "tasm_mmr_right_child_and_height"@
    }

    open spec fn spec_input_types(&self) -> Seq<DataType> {
        seq![DataType::U64]
    }

    open spec fn spec_output_types(&self) -> Seq<DataType> {
        seq![DataType::Bool, DataType::U32]
    }

    open spec fn shadow_accepts(
        &self,
        stack: Seq<u64>,
        std_in: Seq<u64>,
        secret_in: Seq<u64>,
        memory: Map<u64, u64>,
    ) -> bool {
        has_u64_on_top(stack) && u64_on_top(stack) >= 1
    }

    open spec fn shadow_stack(
        &self,
        stack: Seq<u64>,
        std_in: Seq<u64>,
        secret_in: Seq<u64>,
        memory: Map<u64, u64>,
    ) -> Seq<u64> {
        let (lineage, height) = right_lineage_and_height(u64_on_top(stack));
        stack.take(stack.len() - 2).push(if lineage != 0 {
            1u64
        } else {
            0u64
        }).push(height as u64)
    }

    open spec fn shadow_memory(
        &self,
        stack: Seq<u64>,
        std_in: Seq<u64>,
        secret_in: Seq<u64>,
        memory: Map<u64, u64>,
    ) -> Map<u64, u64> {
        memory
    }

    open spec fn spec_code(&self, free_pointer: nat) -> Seq<char> {
        self.spec_entrypoint()
            + ":"@
            + "
                // Get leftmost ancestor and its height on top of stack
                push 0 // is `is_r` onto stack
                dup 2
                dup 2
                call tasm_mmr_leftmost_ancestor
                // _ ni_hi ni_lo is_r c_hi c_lo height

                swap 2
                swap 1
                // _ ni_hi ni_lo is_r height c_hi c_lo
                call "@
            + self.spec_entrypoint()
            + "_loop
                // _ ni_hi ni_lo is_r height c_hi c_lo
                pop
                pop
                swap 2
                pop
                swap 2
                pop

                // _ is_r height
                return

            // _ ni_hi ni_lo is_r height c_hi c_lo
            "@
            + self.spec_entrypoint()
            + "_loop:
                dup 5
                dup 5
                dup 3
                dup 3
                call tasm_arithmetic_u64_eq
                // _ ni_hi ni_lo is_r height c_hi c_lo (c == ni)
                skiz return

                dup 1
                dup 1
                dup 4
                // _ ni_hi ni_lo is_r height c_hi c_lo c_hi c_lo height

                call tasm_mmr_left_child
                // _ ni_hi ni_lo is_r height c_hi c_lo lc_hi lc_lo

                dup 7 dup 7
                swap 2
                swap 1
                swap 3
                swap 1
                // _ ni_hi ni_lo is_r height c_hi c_lo ni_hi ni_lo lc_hi lc_lo

                call tasm_arithmetic_u64_lt
                // _ ni_hi ni_lo prev_is_r height c_hi c_lo ni_hi ni_lo lc_hi lc_lo is_r
                push 1
                dup 1
                skiz call "@
            + self.spec_entrypoint()
            + "_branch_then\n                skiz call "@
            + self.spec_entrypoint()
            + "_branch_else
                // _ ni_hi ni_lo is_r height c_hi c_lo

                // Decrement height by one
                swap 2
                push -1
                add
                swap 2
                recurse

            "@
            + self.spec_entrypoint()
            + "_branch_then:
                // Set candidate to right child
                pop
                swap 8
                pop
                pop pop pop pop
                // _ ni_hi ni_lo is_r height c_hi c_lo
                call tasm_mmr_right_child
                push 0
                return

            "@
            + self.spec_entrypoint()
            + "_branch_else:
                // Set candidate to left child
                swap 8
                pop
                swap 4 pop swap 4 pop
                pop pop
                // _ ni_hi ni_lo is_r height lc_hi lc_lo
                return
"@
    }

    proof fn lemma_stack_diff(
        &self,
        stack: Seq<u64>,
        std_in: Seq<u64>,
        secret_in: Seq<u64>,
        memory: Map<u64, u64>,
    ) {
        reveal_with_fuel(total_width, 4);
    }

    fn entrypoint(&self) -> (r: String) {
        String::from_str("tasm_mmr_right_child_and_height")
    }

    fn input_types(&self) -> (r: Vec<DataType>) {
        vec![DataType::U64]
    }

    fn output_types(&self) -> (r: Vec<DataType>) {
        vec![DataType::Bool, DataType::U32]
    }

    fn input_field_names(&self) -> (r: Vec<String>) {
        proof {
            reveal_with_fuel(total_width, 4);
        }
        field_names(&["node_index_hi", "node_index_lo"])
    }

    fn output_field_names(&self) -> (r: Vec<String>) {
        proof {
            reveal_with_fuel(total_width, 4);
        }
        field_names(&["is_right_child", "height"])
    }

    fn crash_conditions(&self) -> (r: Vec<String>) {
        let r = field_names(&["Node index exceeds 2^63?"]);
        proof {
            assert(r@.len() == self.spec_crash_conditions().len());
        }
        r
    }

    fn stack_diff(&self) -> (r: i64) {
        proof {
            assert(seq![DataType::Bool, DataType::U32].drop_last() =~= seq![DataType::Bool]);
            assert(seq![DataType::Bool].drop_last() =~= Seq::<DataType>::empty());
            assert(seq![DataType::U64].drop_last() =~= Seq::<DataType>::empty());
            reveal_with_fuel(total_width, 3);
        }
        0
    }

    fn function_code(&self, library: &mut Library) -> (r: String) {
        let entrypoint = self.entrypoint();
        let mut code = self.entrypoint();
        code.append(":");
        code.append(
            "
                // Get leftmost ancestor and its height on top of stack
                push 0 // is `is_r` onto stack
                dup 2
                dup 2
                call tasm_mmr_leftmost_ancestor
                // _ ni_hi ni_lo is_r c_hi c_lo height

                swap 2
                swap 1
                // _ ni_hi ni_lo is_r height c_hi c_lo
                call ",
        );
        code.append(entrypoint.as_str());
        code.append(
            "_loop
                // _ ni_hi ni_lo is_r height c_hi c_lo
                pop
                pop
                swap 2
                pop
                swap 2
                pop

                // _ is_r height
                return

            // _ ni_hi ni_lo is_r height c_hi c_lo
            ",
        );
        code.append(entrypoint.as_str());
        code.append(
            "_loop:
                dup 5
                dup 5
                dup 3
                dup 3
                call tasm_arithmetic_u64_eq
                // _ ni_hi ni_lo is_r height c_hi c_lo (c == ni)
                skiz return

                dup 1
                dup 1
                dup 4
                // _ ni_hi ni_lo is_r height c_hi c_lo c_hi c_lo height

                call tasm_mmr_left_child
                // _ ni_hi ni_lo is_r height c_hi c_lo lc_hi lc_lo

                dup 7 dup 7
                swap 2
                swap 1
                swap 3
                swap 1
                // _ ni_hi ni_lo is_r height c_hi c_lo ni_hi ni_lo lc_hi lc_lo

                call tasm_arithmetic_u64_lt
                // _ ni_hi ni_lo prev_is_r height c_hi c_lo ni_hi ni_lo lc_hi lc_lo is_r
                push 1
                dup 1
                skiz call ",
        );
        code.append(entrypoint.as_str());
        code.append("_branch_then\n                skiz call ");
        code.append(entrypoint.as_str());
        code.append(
            "_branch_else
                // _ ni_hi ni_lo is_r height c_hi c_lo

                // Decrement height by one
                swap 2
                push -1
                add
                swap 2
                recurse

            ",
        );
        code.append(entrypoint.as_str());
        code.append(
            "_branch_then:
                // Set candidate to right child
                pop
                swap 8
                pop
                pop pop pop pop
                // _ ni_hi ni_lo is_r height c_hi c_lo
                call tasm_mmr_right_child
                push 0
                return

            ",
        );
        code.append(entrypoint.as_str());
        code.append(
            "_branch_else:
                // Set candidate to left child
                swap 8
                pop
                swap 4 pop swap 4 pop
                pop pop
                // _ ni_hi ni_lo is_r height lc_hi lc_lo
                return
",
        );
        proof {
            assert(library.spec_labels().is_prefix_of(library.spec_labels()));
        }
        code
    }

    fn gen_input_states(&self, random: &Vec<u64>) -> (r: Vec<ExecutionState>) {
        let mut states: Vec<ExecutionState> = Vec::new();
        let mut i: usize = 0;
        while i < 10
            invariant
                i <= 10,
                states@.len() == i,
                forall|j: int| 0 <= j < states@.len() ==> self.shadow_accepts(
                    #[trigger] states@[j].stack@,
                    states@[j].std_in@,
                    states@[j].nondeterminism@,
                    seeded_memory_deprecated(states@[j].memory@, states@[j].words_allocated),
                ),
            decreases 10 - i,
        {
            let mut value = drawn(random, i) % 0x7fff_ffff_ffff_ffff;
            if value == 0 {
                value = 1;
            }
            proof {
                crate::arithmetic::lemma_u64_encoding_round_trip(value, 0, 0);
            }
            let state = ExecutionState::with_stack(u64_input_stack(value));
            states.push(state);
            i = i + 1;
        }
        states
    }

    fn common_case_input_state(&self) -> (r: ExecutionState) {
        proof {
            crate::arithmetic::lemma_u64_encoding_round_trip(0x1_0000_0001, 0, 0);
        }
        ExecutionState::with_stack(u64_input_stack(0x1_0000_0001))
    }

    fn worst_case_input_state(&self) -> (r: ExecutionState) {
        proof {
            crate::arithmetic::lemma_u64_encoding_round_trip(0x4000_0000_0000_0001, 0, 0);
        }
        ExecutionState::with_stack(u64_input_stack(0x4000_0000_0000_0001))
    }

    fn rust_shadowing(
        &self,
        stack: &mut Vec<u64>,
        std_in: &Vec<u64>,
        secret_in: &Vec<u64>,
        memory: &mut HashMap<u64, u64>,
    ) -> (r: Result<(), ShadowError>) {
        proof {
            assert(seq![DataType::Bool, DataType::U32].drop_last() =~= seq![DataType::Bool]);
            assert(seq![DataType::Bool].drop_last() =~= Seq::<DataType>::empty());
            assert(seq![DataType::U64].drop_last() =~= Seq::<DataType>::empty());
            reveal_with_fuel(total_width, 3);
        }
        let node_index = match pop_u64(stack) {
            Ok(v) => v,
            Err(e) => return Err(e),
        };
        if node_index == 0 {
            return Err(ShadowError::ValueOutOfRange);
        }
        let (lineage, height) = right_lineage_length_and_own_height(node_index);
        stack.push(if lineage != 0 {
            1
        } else {
            0
        });
        stack.push(height as u64);
        Ok(())
    }
}

/// Replaces a leaf index by the number of non-leaf nodes to its left.
///
/// The code calls the `u64` routines of the snippet catalog by their
/// labels; a program that links it links those as well.
#[derive(Debug)]
pub struct MmrNonLeafNodesLeftUsingAnd;

impl Snippet for MmrNonLeafNodesLeftUsingAnd {
    open spec fn spec_crash_conditions(&self) -> Seq<Seq<char>> {
        seq!["Input values are not u32s"@]
    }

    open spec fn spec_entrypoint(&self) -> Seq<char> {
        "non_leaf_nodes_left"@
    }

    open spec fn spec_input_types(&self) -> Seq<DataType> {
        seq![DataType::U64]
    }

    open spec fn spec_output_types(&self) -> Seq<DataType> {
        seq![DataType::U64]
    }

    open spec fn shadow_accepts(
        &self,
        stack: Seq<u64>,
        std_in: Seq<u64>,
        secret_in: Seq<u64>,
        memory: Map<u64, u64>,
    ) -> bool {
        has_u64_on_top(stack)
    }

    open spec fn shadow_stack(
        &self,
        stack: Seq<u64>,
        std_in: Seq<u64>,
        secret_in: Seq<u64>,
        memory: Map<u64, u64>,
    ) -> Seq<u64> {
        push_u64(stack.take(stack.len() - 2), non_leaf_nodes_left_spec(u64_on_top(stack)))
    }

    open spec fn shadow_memory(
        &self,
        stack: Seq<u64>,
        std_in: Seq<u64>,
        secret_in: Seq<u64>,
        memory: Map<u64, u64>,
    ) -> Map<u64, u64> {
        memory
    }

    open spec fn spec_code(&self, free_pointer: nat) -> Seq<char> {
        self.spec_entrypoint()
            + ":"@
            + "
            // Handle leaf_index == 0: if leaf_index == 0 => return leaf_index
            dup1 dup1 push 0 push 0 call tasm_arithmetic_u64_eq
            skiz return

            dup1 dup1
            call tasm_arithmetic_u64_log_2_floor
            call tasm_arithmetic_u64_incr
            // _ di_hi di_lo log2_floor

            push 0
            push 0 push 0
            // _ di_hi di_lo log2_floor h ret_hi ret_lo

            call "@
            + self.spec_entrypoint()
            + "_while
            swap4 pop
            swap4 pop
            pop pop
            // _ ret_hi ret_lo
            return

        "@
            + self.spec_entrypoint()
            + "_while:
            dup3 dup3 eq
            skiz return

            dup2
            call tasm_arithmetic_u64_pow2
            dup1 dup1
            dup9 dup9
            call tasm_arithmetic_u64_and
            push 0 push 0
            call tasm_arithmetic_u64_eq
            push 0
            eq
            skiz call "@
            + self.spec_entrypoint()
            + "_if_then
            pop pop
            swap2 push 1 add swap2
            recurse

        "@
            + self.spec_entrypoint()
            + "_if_then:
            call tasm_arithmetic_u64_decr
            call tasm_arithmetic_u64_add
            push 0 push 0
            return
"@
    }

    proof fn lemma_stack_diff(
        &self,
        stack: Seq<u64>,
        std_in: Seq<u64>,
        secret_in: Seq<u64>,
        memory: Map<u64, u64>,
    ) {
        reveal_with_fuel(total_width, 4);
    }

    fn entrypoint(&self) -> (r: String) {
        String::from_str("non_leaf_nodes_left")
    }

    fn input_types(&self) -> (r: Vec<DataType>) {
        vec![DataType::U64]
    }

    fn output_types(&self) -> (r: Vec<DataType>) {
        vec![DataType::U64]
    }

    fn input_field_names(&self) -> (r: Vec<String>) {
        proof {
            reveal_with_fuel(total_width, 4);
        }
        field_names(&["leaf_index_hi", "leaf_index_lo"])
    }

    fn output_field_names(&self) -> (r: Vec<String>) {
        proof {
            reveal_with_fuel(total_width, 4);
        }
        field_names(&["node_count_hi", "node_count_lo"])
    }

    fn crash_conditions(&self) -> (r: Vec<String>) {
        let r = field_names(&["Input values are not u32s"]);
        proof {
            assert(r@.len() == self.spec_crash_conditions().len());
        }
        r
    }

    fn stack_diff(&self) -> (r: i64) {
        proof {
            assert(seq![DataType::U64].drop_last() =~= Seq::<DataType>::empty());
        }
        0
    }

    fn function_code(&self, library: &mut Library) -> (r: String) {
        let entrypoint = self.entrypoint();
        let mut code = self.entrypoint();
        code.append(":");
        code.append(
            "
            // Handle leaf_index == 0: if leaf_index == 0 => return leaf_index
            dup1 dup1 push 0 push 0 call tasm_arithmetic_u64_eq
            skiz return

            dup1 dup1
            call tasm_arithmetic_u64_log_2_floor
            call tasm_arithmetic_u64_incr
            // _ di_hi di_lo log2_floor

            push 0
            push 0 push 0
            // _ di_hi di_lo log2_floor h ret_hi ret_lo

            call ",
        );
        code.append(entrypoint.as_str());
        code.append(
            "_while
            swap4 pop
            swap4 pop
            pop pop
            // _ ret_hi ret_lo
            return

        ",
        );
        code.append(entrypoint.as_str());
        code.append(
            "_while:
            dup3 dup3 eq
            skiz return

            dup2
            call tasm_arithmetic_u64_pow2
            dup1 dup1
            dup9 dup9
            call tasm_arithmetic_u64_and
            push 0 push 0
            call tasm_arithmetic_u64_eq
            push 0
            eq
            skiz call ",
        );
        code.append(entrypoint.as_str());
        code.append(
            "_if_then
            pop pop
            swap2 push 1 add swap2
            recurse

        ",
        );
        code.append(entrypoint.as_str());
        code.append(
            "_if_then:
            call tasm_arithmetic_u64_decr
            call tasm_arithmetic_u64_add
            push 0 push 0
            return
",
        );
        proof {
            assert(library.spec_labels().is_prefix_of(library.spec_labels()));
        }
        code
    }

    fn gen_input_states(&self, random: &Vec<u64>) -> (r: Vec<ExecutionState>) {
        let mut states: Vec<ExecutionState> = Vec::new();
        let mut i: usize = 0;
        while i < 31
            invariant
                i <= 31,
                states@.len() == i,
                forall|j: int| 0 <= j < states@.len() ==> self.shadow_accepts(
                    #[trigger] states@[j].stack@,
                    states@[j].std_in@,
                    states@[j].nondeterminism@,
                    seeded_memory_deprecated(states@[j].memory@, states@[j].words_allocated),
                ),
            decreases 31 - i,
        {
            let value = if i == 30 {
                0
            } else {
                drawn(random, i) % 0x7fff_ffff_ffff_ffff
            };
            proof {
                crate::arithmetic::lemma_u64_encoding_round_trip(value, 0, 0);
            }
            let state = ExecutionState::with_stack(u64_input_stack(value));
            states.push(state);
            i = i + 1;
        }
        states
    }

    fn common_case_input_state(&self) -> (r: ExecutionState) {
        proof {
            crate::arithmetic::lemma_u64_encoding_round_trip(0xffff_ffff, 0, 0);
        }
        ExecutionState::with_stack(u64_input_stack(0xffff_ffff))
    }

    fn worst_case_input_state(&self) -> (r: ExecutionState) {
        proof {
            crate::arithmetic::lemma_u64_encoding_round_trip(0x7fff_ffff_ffff_ffff, 0, 0);
        }
        ExecutionState::with_stack(u64_input_stack(0x7fff_ffff_ffff_ffff))
    }

    fn rust_shadowing(
        &self,
        stack: &mut Vec<u64>,
        std_in: &Vec<u64>,
        secret_in: &Vec<u64>,
        memory: &mut HashMap<u64, u64>,
    ) -> (r: Result<(), ShadowError>) {
        proof {
            assert(seq![DataType::U64].drop_last() =~= Seq::<DataType>::empty());
        }
        let leaf_index = match pop_u64(stack) {
            Ok(v) => v,
            Err(e) => return Err(e),
        };
        let result = non_leaf_nodes_left(leaf_index);
        stack.push(result / U32_BOUND);
        stack.push(result % U32_BOUND);
        Ok(())
    }
}

} // verus!
