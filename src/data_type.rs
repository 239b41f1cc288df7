use vstd::prelude::*;

verus! {

/// The value types that snippets take from and leave on the stack.
#[derive(Debug)]
pub enum DataType {
    Bool,
    U32,
    U64,
    U128,
    BFE,
    XFE,
    Digest,
    /// A pointer to a list in memory whose elements have the inner type.
    List(Box<DataType>),
}

/// Number of words that a value of type `t` occupies.
pub open spec fn width(t: DataType) -> nat {
    match t {
        DataType::Bool => 1,
        DataType::U32 => 1,
        DataType::U64 => 2,
        DataType::U128 => 4,
        DataType::BFE => 1,
        DataType::XFE => 3,
        DataType::Digest => 5,
        DataType::List(_) => 1,
    }
}

/// Total number of words of a sequence of values of the given types.
pub open spec fn total_width(ts: Seq<DataType>) -> nat
    decreases ts.len(),
{
    if ts.len() == 0 {
        0
    } else {
        total_width(ts.drop_last()) + width(ts.last())
    }
}

/// Name of a type as it appears in a label.
pub open spec fn label_name(t: DataType) -> Seq<char>
    decreases t,
{
    match t {
        DataType::Bool => "bool"@,
        DataType::U32 => "u32"@,
        DataType::U64 => "u64"@,
        DataType::U128 => "u128"@,
        DataType::BFE => "bfe"@,
        DataType::XFE => "xfe"@,
        DataType::Digest => "digest"@,
        DataType::List(inner) => "list_L"@ + label_name(*inner) + "_R"@,
    }
}

impl DataType {
    /// Number of words that a value of this type occupies.
    pub fn get_size(&self) -> (r: usize)
        ensures
            r == width(*self),
            1 <= r <= 5,
    {
        match self {
            DataType::Bool => 1,
            DataType::U32 => 1,
            DataType::U64 => 2,
            DataType::U128 => 4,
            DataType::BFE => 1,
            DataType::XFE => 3,
            DataType::Digest => 5,
            DataType::List(_) => 1,
        }
    }

    /// A copy of this type, equal to it.
    pub fn duplicate(&self) -> (r: DataType)
        ensures
            r == *self,
        decreases *self,
    {
        match self {
            DataType::Bool => DataType::Bool,
            DataType::U32 => DataType::U32,
            DataType::U64 => DataType::U64,
            DataType::U128 => DataType::U128,
            DataType::BFE => DataType::BFE,
            DataType::XFE => DataType::XFE,
            DataType::Digest => DataType::Digest,
            DataType::List(inner) => DataType::List(Box::new(inner.duplicate())),
        }
    }

    /// Name of this type as it appears in a label.
    pub fn label_friendly_name(&self) -> (r: String)
        ensures
            r@ == label_name(*self),
        decreases *self,
    {
        match self {
            DataType::Bool => String::from_str("bool"),
            DataType::U32 => String::from_str("u32"),
            DataType::U64 => String::from_str("u64"),
            DataType::U128 => String::from_str("u128"),
            DataType::BFE => String::from_str("bfe"),
            DataType::XFE => String::from_str("xfe"),
            DataType::Digest => String::from_str("digest"),
            DataType::List(inner) => {
                let mut s = String::from_str("list_L");
                let name = inner.label_friendly_name();
                s.append(name.as_str());
                s.append("_R");
                s
            },
        }
    }
}

/// Total number of words of the given types.
pub fn types_width(ts: &Vec<DataType>) -> (r: u128)
    ensures
        r == total_width(ts@),
{
    let mut sum: u128 = 0;
    let mut i: usize = 0;
    while i < ts.len()
        invariant
            i <= ts.len(),
            sum == total_width(ts@.take(i as int)),
            sum <= 5 * i,
        decreases ts.len() - i,
    {
        proof {
            assert(ts@.take(i as int + 1).drop_last() == ts@.take(i as int));
        }
        sum = sum + ts[i].get_size() as u128;
        i = i + 1;
    }
    proof {
        assert(ts@.take(ts.len() as int) == ts@);
    }
    sum
}

} // verus!
