use vstd::prelude::*;

use std::collections::HashMap;

use crate::data_type::{total_width, DataType};
use crate::library::Library;
use crate::test_helpers::{seeded_memory_deprecated, ExecutionState};

verus! {

/// Why a reference implementation stopped: the machine would crash on the
/// same input.
#[derive(Debug, PartialEq, Eq)]
pub enum ShadowError {
    /// The stack holds fewer words than the snippet takes.
    StackUnderflow,
    /// A word that must be a `u32` (or another bounded value) is not.
    ValueOutOfRange,
    /// A memory word that the snippet reads was never written.
    UninitializedMemory,
    /// The public input holds fewer words than the snippet reads.
    InputTooShort,
    /// A list holds no element to take.
    EmptyList,
    /// The dynamic allocator cannot grant the requested words.
    AllocationFailed,
}

/// `code` starts with the definition of `label`.
pub open spec fn defines_label(code: Seq<char>, label: Seq<char>) -> bool {
    (label + ":"@).is_prefix_of(code)
}

/// A code fragment for the machine: its label, the types it takes and
/// leaves on the stack, the code it generates and a reference
/// implementation of the same effect.
pub trait Snippet {
    /// The label the snippet is called by; it identifies the snippet.
    spec fn spec_entrypoint(&self) -> Seq<char>;

    /// Types taken from the stack; the last is nearest the top.
    spec fn spec_input_types(&self) -> Seq<DataType>;

    /// Types left on the stack; the last is nearest the top.
    spec fn spec_output_types(&self) -> Seq<DataType>;

    /// The code the snippet generates when static memory is free from
    /// word `free_pointer` on.
    spec fn spec_code(&self, free_pointer: nat) -> Seq<char>;

    /// The conditions, in words, on which the snippet's code crashes the
    /// machine; `shadow_accepts` states them exactly.
    spec fn spec_crash_conditions(&self) -> Seq<Seq<char>>;

    /// The states on which the reference implementation runs to the end.
    spec fn shadow_accepts(
        &self,
        stack: Seq<u64>,
        std_in: Seq<u64>,
        secret_in: Seq<u64>,
        memory: Map<u64, u64>,
    ) -> bool;

    /// The stack that the reference implementation leaves.
    spec fn shadow_stack(
        &self,
        stack: Seq<u64>,
        std_in: Seq<u64>,
        secret_in: Seq<u64>,
        memory: Map<u64, u64>,
    ) -> Seq<u64>;

    /// The memory that the reference implementation leaves.
    spec fn shadow_memory(
        &self,
        stack: Seq<u64>,
        std_in: Seq<u64>,
        secret_in: Seq<u64>,
        memory: Map<u64, u64>,
    ) -> Map<u64, u64>;

    /// The reference implementation leaves the stack longer by the
    /// declared difference on every state it runs on.
    proof fn lemma_stack_diff(
        &self,
        stack: Seq<u64>,
        std_in: Seq<u64>,
        secret_in: Seq<u64>,
        memory: Map<u64, u64>,
    )
        requires
            self.shadow_accepts(stack, std_in, secret_in, memory),
        ensures
            self.shadow_stack(stack, std_in, secret_in, memory).len() == stack.len() + total_width(
                self.spec_output_types(),
            ) - total_width(self.spec_input_types()),
    ;

    fn entrypoint(&self) -> (r: String)
        ensures
            r@ == self.spec_entrypoint(),
    ;

    fn input_types(&self) -> (r: Vec<DataType>)
        ensures
            r@ == self.spec_input_types(),
    ;

    fn output_types(&self) -> (r: Vec<DataType>)
        ensures
            r@ == self.spec_output_types(),
    ;

    /// A name for each word the snippet takes, deepest first.
    fn input_field_names(&self) -> (r: Vec<String>)
        ensures
            r@.len() == total_width(self.spec_input_types()),
    ;

    /// A name for each word the snippet leaves, deepest first.
    fn output_field_names(&self) -> (r: Vec<String>)
        ensures
            r@.len() == total_width(self.spec_output_types()),
    ;

    fn crash_conditions(&self) -> (r: Vec<String>)
        ensures
            r@.len() == self.spec_crash_conditions().len(),
            forall|i: int| 0 <= i < r@.len() ==> #[trigger] r@[i]@ == self.spec_crash_conditions()[i],
    ;

    /// Net number of words that a call adds to the stack.
    fn stack_diff(&self) -> (r: i64)
        ensures
            r == total_width(self.spec_output_types()) - total_width(self.spec_input_types()),
    ;

    /// The snippet's code, labelled with its entrypoint; it may import
    /// other snippets and reserve static memory through `library`.
    fn function_code(&self, library: &mut Library) -> (r: String)
        requires
            old(library).wf(),
        ensures
            final(library).wf(),
            final(library).extends(*old(library)),
            defines_label(r@, self.spec_entrypoint()),
            r@ == self.spec_code(old(library).spec_free_pointer()),
    ;

    /// Representative initial states, boundary cases among them, built
    /// from the drawn words `random` (zero where too few are drawn); the
    /// reference implementation runs on each.
    fn gen_input_states(&self, random: &Vec<u64>) -> (r: Vec<ExecutionState>)
        ensures
            r@.len() >= 1,
            forall|i: int|
                0 <= i < r@.len() ==> self.shadow_accepts(
                    #[trigger] r@[i].stack@,
                    r@[i].std_in@,
                    r@[i].nondeterminism@,
                    seeded_memory_deprecated(r@[i].memory@, r@[i].words_allocated),
                ),
    ;

    /// A typical initial state, for measuring the snippet's cost; the
    /// reference implementation runs on it.
    fn common_case_input_state(&self) -> (r: ExecutionState)
        ensures
            self.shadow_accepts(
                r.stack@,
                r.std_in@,
                r.nondeterminism@,
                seeded_memory_deprecated(r.memory@, r.words_allocated),
            ),
    ;

    /// The costliest initial state, for measuring the snippet's cost; the
    /// reference implementation runs on it.
    fn worst_case_input_state(&self) -> (r: ExecutionState)
        ensures
            self.shadow_accepts(
                r.stack@,
                r.std_in@,
                r.nondeterminism@,
                seeded_memory_deprecated(r.memory@, r.words_allocated),
            ),
    ;

    /// The reference implementation: it runs on the stack and memory
    /// directly, and fails exactly where the machine would crash.
    fn rust_shadowing(
        &self,
        stack: &mut Vec<u64>,
        std_in: &Vec<u64>,
        secret_in: &Vec<u64>,
        memory: &mut HashMap<u64, u64>,
    ) -> (r: Result<(), ShadowError>)
        ensures
            r is Ok <==> self.shadow_accepts(old(stack)@, std_in@, secret_in@, old(memory)@),
            r is Ok ==> final(stack)@ == self.shadow_stack(
                old(stack)@,
                std_in@,
                secret_in@,
                old(memory)@,
            ),
            r is Ok ==> final(memory)@ == self.shadow_memory(
                old(stack)@,
                std_in@,
                secret_in@,
                old(memory)@,
            ),
            r is Ok ==> final(stack)@.len() == old(stack)@.len() + total_width(
                self.spec_output_types(),
            ) - total_width(self.spec_input_types()),
    ;
}

/// On every state that a snippet's reference implementation runs on,
/// the stack grows by exactly the snippet's declared stack difference.
pub proof fn lemma_stack_diff_law<T: Snippet>(
    snippet: &T,
    stack: Seq<u64>,
    std_in: Seq<u64>,
    secret_in: Seq<u64>,
    memory: Map<u64, u64>,
)
    requires
        snippet.shadow_accepts(stack, std_in, secret_in, memory),
    ensures
        snippet.shadow_stack(stack, std_in, secret_in, memory).len() - stack.len() == total_width(
            snippet.spec_output_types(),
        ) - total_width(snippet.spec_input_types()),
{
    snippet.lemma_stack_diff(stack, std_in, secret_in, memory);
}

/// Field names from a list of literals.
pub fn field_names(names: &[&str]) -> (r: Vec<String>)
    ensures
        r@.len() == names@.len(),
        forall|i: int| 0 <= i < names@.len() ==> #[trigger] r@[i]@ == names@[i]@,
{
    let mut r: Vec<String> = Vec::new();
    let mut i: usize = 0;
    while i < names.len()
        invariant
            i <= names@.len(),
            r@.len() == i,
            forall|j: int| 0 <= j < i ==> #[trigger] r@[j]@ == names@[j]@,
        decreases names.len() - i,
    {
        r.push(String::from_str(names[i]));
        i = i + 1;
    }
    r
}

/// The names `element_{size - 1}` down to `element_0`: the words of one
/// value, the last word deepest.
pub fn element_names(size: usize) -> (r: Vec<String>)
    ensures
        r@.len() == size,
        forall|i: int|
            0 <= i < size ==> #[trigger] r@[i]@ == "element_"@ + crate::text::decimal(
                (size - 1 - i) as nat,
            ),
{
    let mut r: Vec<String> = Vec::new();
    let mut i: usize = 0;
    while i < size
        invariant
            i <= size,
            r@.len() == i,
            forall|j: int|
                0 <= j < i ==> #[trigger] r@[j]@ == "element_"@ + crate::text::decimal(
                    (size - 1 - j) as nat,
                ),
        decreases size - i,
    {
        let mut name = String::from_str("element_");
        crate::text::push_decimal(&mut name, (size - 1 - i) as u64);
        r.push(name);
        i = i + 1;
    }
    r
}

} // verus!
