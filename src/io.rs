use vstd::prelude::*;

use std::collections::HashMap;

use crate::data_type::{label_name, total_width, width, DataType};
use crate::library::Library;
use crate::test_helpers::{drawn, get_init_tvm_stack, seeded_memory_deprecated, ExecutionState};
use crate::text::repeated;
use crate::snippet::{element_names, field_names, ShadowError, Snippet};

verus! {

/// Moves a value of the given type from the public input to the stack:
/// the first word read is pushed first.
#[derive(Debug)]
pub struct ReadStdIn(pub DataType);

impl Snippet for ReadStdIn {
    open spec fn spec_crash_conditions(&self) -> Seq<Seq<char>> {
        seq!["std input too short"@]
    }

    open spec fn spec_code(&self, free_pointer: nat) -> Seq<char> {
        self.spec_entrypoint() + ":"@ + ("\n"@ + repeated("read_io\n"@, width(self.0)) + "return\n"@)
    }

    open spec fn spec_entrypoint(&self) -> Seq<char> {
        "tasm_io_read_stdin___"@ + label_name(self.0)
    }

    open spec fn spec_input_types(&self) -> Seq<DataType> {
        Seq::empty()
    }

    open spec fn spec_output_types(&self) -> Seq<DataType> {
        seq![self.0]
    }

    open spec fn shadow_accepts(
        &self,
        stack: Seq<u64>,
        std_in: Seq<u64>,
        secret_in: Seq<u64>,
        memory: Map<u64, u64>,
    ) -> bool {
        std_in.len() >= width(self.0)
    }

    open spec fn shadow_stack(
        &self,
        stack: Seq<u64>,
        std_in: Seq<u64>,
        secret_in: Seq<u64>,
        memory: Map<u64, u64>,
    ) -> Seq<u64> {
        stack + std_in.take(width(self.0) as int)
    }

    open spec fn shadow_memory(
        &self,
        stack: Seq<u64>,
        std_in: Seq<u64>,
        secret_in: Seq<u64>,
        memory: Map<u64, u64>,
    ) -> Map<u64, u64> {
        memory
    }

    proof fn lemma_stack_diff(
        &self,
        stack: Seq<u64>,
        std_in: Seq<u64>,
        secret_in: Seq<u64>,
        memory: Map<u64, u64>,
    ) {
        reveal_with_fuel(total_width, 4);
    }

    fn entrypoint(&self) -> (r: String) {
        let mut s = String::from_str("tasm_io_read_stdin___");
        let name = self.0.label_friendly_name();
        s.append(name.as_str());
        s
    }

    fn input_types(&self) -> (r: Vec<DataType>) {
        Vec::new()
    }

    fn output_types(&self) -> (r: Vec<DataType>) {
        vec![self.0.duplicate()]
    }

    fn input_field_names(&self) -> (r: Vec<String>) {
        proof {
            reveal_with_fuel(total_width, 4);
        }
        Vec::new()
    }

    fn output_field_names(&self) -> (r: Vec<String>) {
        proof {
            reveal_with_fuel(total_width, 4);
        }
        element_names(self.0.get_size())
    }

    fn crash_conditions(&self) -> (r: Vec<String>) {
        let r = field_names(&["std input too short"]);
        proof {
            assert(r@.len() == self.spec_crash_conditions().len());
        }
        r
    }

    fn stack_diff(&self) -> (r: i64) {
        proof {
            assert(seq![self.0].drop_last() =~= Seq::<DataType>::empty());
        }
        self.0.get_size() as i64
    }

    fn function_code(&self, library: &mut Library) -> (r: String) {
        let mut body = String::from_str("\n");
        let size = self.0.get_size();
        let mut i: usize = 0;
        while i < size
            invariant
                i <= size,
                size == width(self.0),
                body@ == "\n"@ + repeated("read_io\n"@, i as nat),
            decreases size - i,
        {
            body.append("read_io\n");
            i = i + 1;
        }
        body.append("return\n");
        let mut code = self.entrypoint();
        code.append(":");
        code.append(body.as_str());
        proof {
            assert(library.spec_labels().is_prefix_of(library.spec_labels()));
        }
        code
    }

    fn gen_input_states(&self, random: &Vec<u64>) -> (r: Vec<ExecutionState>) {
        let mut states: Vec<ExecutionState> = Vec::new();
        let mut i: usize = 0;
        while i < 1
            invariant
                i <= 1,
                states@.len() == i,
                forall|j: int| 0 <= j < states@.len() ==> self.shadow_accepts(
                    #[trigger] states@[j].stack@,
                    states@[j].std_in@,
                    states@[j].nondeterminism@,
                    seeded_memory_deprecated(states@[j].memory@, states@[j].words_allocated),
                ),
            decreases 1 - i,
        {
            let size = self.0.get_size();
            let mut std_in: Vec<u64> = Vec::new();
            let mut k: usize = 0;
            while k < size
                invariant
                    k <= size,
                    std_in@.len() == k,
                decreases size - k,
            {
                std_in.push(drawn(random, k) % crate::FIELD_MODULUS);
                k = k + 1;
            }
            let mut state = ExecutionState::with_stack(get_init_tvm_stack());
            state.std_in = std_in;
            states.push(state);
            i = i + 1;
        }
        states
    }

    fn common_case_input_state(&self) -> (r: ExecutionState) {
        let mut state = ExecutionState::with_stack(get_init_tvm_stack());
        state.std_in = vec![0, 0, 0, 0, 0];
        state
    }

    fn worst_case_input_state(&self) -> (r: ExecutionState) {
        let mut state = ExecutionState::with_stack(get_init_tvm_stack());
        state.std_in = vec![0, 0, 0, 0, 0];
        state
    }

    fn rust_shadowing(
        &self,
        stack: &mut Vec<u64>,
        std_in: &Vec<u64>,
        secret_in: &Vec<u64>,
        memory: &mut HashMap<u64, u64>,
    ) -> (r: Result<(), ShadowError>) {
        proof {
            assert(seq![self.0].drop_last() =~= Seq::<DataType>::empty());
        }
        let size = self.0.get_size();
        if std_in.len() < size {
            return Err(ShadowError::InputTooShort);
        }
        let ghost old_stack = stack@;
        let mut i: usize = 0;
        while i < size
            invariant
                i <= size <= std_in@.len(),
                stack@ == old_stack + std_in@.take(i as int),
            decreases size - i,
        {
            stack.push(std_in[i]);
            proof {
                assert(std_in@.take(i as int + 1) =~= std_in@.take(i as int).push(std_in@[i as int]));
            }
            i = i + 1;
        }
        Ok(())
    }
}

} // verus!
