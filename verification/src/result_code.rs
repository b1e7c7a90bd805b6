use vstd::prelude::*;

verus! {

/// Response code carried in the 4-bit RCODE field of the header flags.
#[derive(Clone, Copy, Debug, PartialEq, Eq, Structural)]
pub enum ResultCode {
    NOERROR,
    FORMERR,
    SERVFAIL,
    NXDOMAIN,
    NOTIMP,
    REFUSED,
}

impl ResultCode {
    /// Which code a wire value stands for: 1 through 5 name the five
    /// failure codes; every other value collapses to NOERROR.
    pub open spec fn spec_from_num(num: u8) -> ResultCode {
        if num == 1 {
            ResultCode::FORMERR
        } else if num == 2 {
            ResultCode::SERVFAIL
        } else if num == 3 {
            ResultCode::NXDOMAIN
        } else if num == 4 {
            ResultCode::NOTIMP
        } else if num == 5 {
            ResultCode::REFUSED
        } else {
            ResultCode::NOERROR
        }
    }

    /// Decode a response code from its wire value.
    pub fn from_num(num: u8) -> (r: ResultCode)
        ensures
            r == ResultCode::spec_from_num(num),
    {
        match num {
            1 => ResultCode::FORMERR,
            2 => ResultCode::SERVFAIL,
            3 => ResultCode::NXDOMAIN,
            4 => ResultCode::NOTIMP,
            5 => ResultCode::REFUSED,
            _ => ResultCode::NOERROR,
        }
    }
}

/// Law: decoding a response code yields NOERROR for 0 and for every value
/// of 6 or above, and the matching named failure code for 1 through 5.
pub proof fn lemma_from_num_classification(num: u8)
    ensures
        (num == 0 || num >= 6) ==> ResultCode::spec_from_num(num) == ResultCode::NOERROR,
        num == 1 ==> ResultCode::spec_from_num(num) == ResultCode::FORMERR,
        num == 2 ==> ResultCode::spec_from_num(num) == ResultCode::SERVFAIL,
        num == 3 ==> ResultCode::spec_from_num(num) == ResultCode::NXDOMAIN,
        num == 4 ==> ResultCode::spec_from_num(num) == ResultCode::NOTIMP,
        num == 5 ==> ResultCode::spec_from_num(num) == ResultCode::REFUSED,
{
}

} // verus!
