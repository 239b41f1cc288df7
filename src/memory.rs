use vstd::prelude::*;

use std::collections::HashMap;

use crate::snippet::ShadowError;
use crate::FIELD_MODULUS;

verus! {

broadcast use vstd::std_specs::hash::group_hash_axioms;

/// The address `offset` words after `base`, in the field's arithmetic.
pub open spec fn word_at(base: u64, offset: int) -> u64 {
    ((base as int + offset) % (FIELD_MODULUS as int)) as u64
}

/// Offset of word `j` of element `index` in a list with a header of
/// `header` words and elements of `width` words.
pub open spec fn element_offset(header: nat, width: nat, index: nat, j: int) -> int {
    header + index * width + j
}

/// Every word of element `index` of the list at `base` is in memory.
pub open spec fn element_present(
    memory: Map<u64, u64>,
    base: u64,
    header: nat,
    width: nat,
    index: nat,
) -> bool {
    forall|j: int|
        0 <= j < width ==> #[trigger] memory.contains_key(
            word_at(base, element_offset(header, width, index, j)),
        )
}

/// The words of element `index` of the list at `base`, first word first.
pub open spec fn element_of(
    memory: Map<u64, u64>,
    base: u64,
    header: nat,
    width: nat,
    index: nat,
) -> Seq<u64> {
    Seq::new(width, |j: int| memory[word_at(base, element_offset(header, width, index, j))])
}

/// Whether the list at `base` has a length word and a last element to take.
pub open spec fn can_pop(memory: Map<u64, u64>, base: u64, header: nat, width: nat) -> bool {
    &&& memory.contains_key(base)
    &&& 0 < memory[base] < FIELD_MODULUS
    &&& element_present(memory, base, header, width, (memory[base] - 1) as nat)
}

/// `memory` after the words of `element` are written, as element `index`
/// of the list at `base` whose elements have `width` words.
pub open spec fn write_element(
    memory: Map<u64, u64>,
    base: u64,
    header: nat,
    width: nat,
    index: nat,
    element: Seq<u64>,
) -> Map<u64, u64>
    decreases element.len(),
{
    if element.len() == 0 {
        memory
    } else {
        write_element(memory, base, header, width, index, element.drop_last()).insert(
            word_at(base, element_offset(header, width, index, element.len() - 1)),
            element.last(),
        )
    }
}

/// Whether an element can be appended to the list at `base`.
pub open spec fn can_push(memory: Map<u64, u64>, base: u64) -> bool {
    memory.contains_key(base) && memory[base] + 1 < FIELD_MODULUS
}

/// `memory` after `element` is appended to the list at `base`.
pub open spec fn pushed(memory: Map<u64, u64>, base: u64, header: nat, element: Seq<u64>) -> Map<
    u64,
    u64,
> {
    write_element(memory, base, header, element.len(), memory[base] as nat, element).insert(
        base,
        (memory[base] + 1) as u64,
    )
}

/// The address `offset` words after `base`, in the field's arithmetic.
pub fn word_address(base: u64, offset: u128) -> (r: u64)
    requires
        offset < 0x1_0000_0000_0000_0000_0000_0000,
    ensures
        r == word_at(base, offset as int),
{
    let sum: u128 = base as u128 + offset;
    (sum % (FIELD_MODULUS as u128)) as u64
}

/// Takes the last element of the list at `base`: its words, first word
/// first, and the length word lowered by one. The words stay in memory.
pub fn list_pop(memory: &mut HashMap<u64, u64>, base: u64, header: u64, width: u64) -> (r: Result<
    Vec<u64>,
    ShadowError,
>)
    requires
        header <= 2,
        width <= 5,
    ensures
        match r {
            Ok(element) => {
                &&& can_pop(old(memory)@, base, header as nat, width as nat)
                &&& element@ == element_of(
                    old(memory)@,
                    base,
                    header as nat,
                    width as nat,
                    (old(memory)@[base] - 1) as nat,
                )
                &&& final(memory)@ == old(memory)@.insert(base, (old(memory)@[base] - 1) as u64)
            },
            Err(e) => {
                &&& !can_pop(old(memory)@, base, header as nat, width as nat)
                &&& final(memory)@ == old(memory)@
                &&& e == (if old(memory)@.contains_key(base) && 0 < old(memory)@[base] < FIELD_MODULUS {
                    ShadowError::UninitializedMemory
                } else if old(memory)@.contains_key(base) && old(memory)@[base] == 0 {
                    ShadowError::EmptyList
                } else if old(memory)@.contains_key(base) {
                    ShadowError::ValueOutOfRange
                } else {
                    ShadowError::UninitializedMemory
                })
            },
        },
{
    let length: u64 = match memory.get(&base) {
        Some(v) => *v,
        None => return Err(ShadowError::UninitializedMemory),
    };
    if length == 0 {
        return Err(ShadowError::EmptyList);
    }
    if length >= FIELD_MODULUS {
        return Err(ShadowError::ValueOutOfRange);
    }
    let index: u64 = length - 1;
    let mut element: Vec<u64> = Vec::new();
    let mut j: u64 = 0;
    while j < width
        invariant
            j <= width <= 5,
            header <= 2,
            0 < length < FIELD_MODULUS,
            index < FIELD_MODULUS,
            element@.len() == j,
            memory@ == old(memory)@,
            memory@.contains_key(base),
            memory@[base] == length,
            index == length - 1,
            forall|i: int|
                0 <= i < j ==> #[trigger] memory@.contains_key(
                    word_at(base, element_offset(header as nat, width as nat, index as nat, i)),
                ) && element@[i] == memory@[word_at(
                    base,
                    element_offset(header as nat, width as nat, index as nat, i),
                )],
        decreases width - j,
    {
        proof {
            assert((index as int) * (width as int) <= (FIELD_MODULUS as int) * 5) by (nonlinear_arith)
                requires
                    index < FIELD_MODULUS,
                    width <= 5,
            ;
        }
        let offset: u128 = header as u128 + (index as u128) * (width as u128) + j as u128;
        let address = word_address(base, offset);
        assert(address == word_at(base, element_offset(header as nat, width as nat, index as nat, j as int)));
        match memory.get(&address) {
            Some(v) => element.push(*v),
            None => {
                proof {
                    assert(!memory@.contains_key(
                        word_at(base, element_offset(header as nat, width as nat, index as nat, j as int)),
                    ));
                    assert(!element_present(memory@, base, header as nat, width as nat, index as nat));
                }
                return Err(ShadowError::UninitializedMemory);
            },
        }
        j = j + 1;
    }
    proof {
        let expected = element_of(old(memory)@, base, header as nat, width as nat, index as nat);
        assert forall|i: int| 0 <= i < width implies element@[i] == expected[i] by {
            assert(memory@.contains_key(
                word_at(base, element_offset(header as nat, width as nat, index as nat, i)),
            ));
        }
        assert(element@ =~= expected);
    }
    memory.insert(base, index);
    Ok(element)
}

/// Appends `element` to the list at `base`: its words go after the last
/// element and the length word grows by one.
pub fn list_push(memory: &mut HashMap<u64, u64>, base: u64, header: u64, element: &Vec<u64>) -> (r:
    Result<(), ShadowError>)
    requires
        header <= 2,
        element@.len() <= 5,
    ensures
        r is Ok <==> can_push(old(memory)@, base),
        r is Ok ==> final(memory)@ == pushed(old(memory)@, base, header as nat, element@),
        r is Err ==> final(memory)@ == old(memory)@,
{
    let length: u64 = match memory.get(&base) {
        Some(v) => *v,
        None => return Err(ShadowError::UninitializedMemory),
    };
    if length >= FIELD_MODULUS - 1 {
        return Err(ShadowError::ValueOutOfRange);
    }
    let width: u64 = element.len() as u64;
    let mut j: usize = 0;
    while j < element.len()
        invariant
            j <= element@.len() <= 5,
            width == element@.len(),
            header <= 2,
            length < FIELD_MODULUS,
            old(memory)@[base] == length,
            memory@ == write_element(
                old(memory)@,
                base,
                header as nat,
                width as nat,
                length as nat,
                element@.take(j as int),
            ),
        decreases element@.len() - j,
    {
        proof {
            assert((length as int) * (width as int) <= (FIELD_MODULUS as int) * 5) by (nonlinear_arith)
                requires
                    length < FIELD_MODULUS,
                    width <= 5,
            ;
            assert(element@.take(j as int + 1).drop_last() =~= element@.take(j as int));
        }
        let offset: u128 = header as u128 + (length as u128) * (width as u128) + j as u128;
        let address = word_address(base, offset);
        memory.insert(address, element[j]);
        j = j + 1;
    }
    proof {
        assert(element@.take(element@.len() as int) =~= element@);
    }
    memory.insert(base, length + 1);
    Ok(())
}

} // verus!
