use vstd::prelude::*;

verus! {

/// Record type of a question or resource record: an open enumeration, so
/// that codes this decoder does not recognize still round-trip losslessly.
#[derive(PartialEq, Eq, Structural, Debug, Clone, Copy, Hash)]
pub enum QueryType {
    UNKNOWN(u16),
    A,
}

impl QueryType {
    /// The 16-bit wire code of this record type.
    pub open spec fn spec_to_num(self) -> u16 {
        match self {
            QueryType::UNKNOWN(x) => x,
            QueryType::A => 1,
        }
    }

    /// The record type a 16-bit wire code stands for: 1 is the IPv4
    /// address kind, every other code is kept as UNKNOWN.
    pub open spec fn spec_from_num(num: u16) -> QueryType {
        if num == 1 {
            QueryType::A
        } else {
            QueryType::UNKNOWN(num)
        }
    }

    /// Convert this record type to the number DNS expects.
    pub fn to_num(&self) -> (r: u16)
        ensures
            r == self.spec_to_num(),
    {
        match *self {
            QueryType::UNKNOWN(x) => x,
            QueryType::A => 1,
        }
    }

    /// Convert a number from a DNS packet to a record type.
    pub fn from_num(num: u16) -> (r: QueryType)
        ensures
            r == QueryType::spec_from_num(num),
    {
        match num {
            1 => QueryType::A,
            _ => QueryType::UNKNOWN(num),
        }
    }
}

/// Law: converting any 16-bit code to a record type and back returns the
/// original code.
pub proof fn lemma_to_num_from_num(n: u16)
    ensures
        QueryType::spec_from_num(n).spec_to_num() == n,
{
}

} // verus!
