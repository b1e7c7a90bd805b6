use vstd::prelude::*;

use crate::buffer::{u16_be, BytePacketParser, DnsError};
use crate::result_code::ResultCode;

verus! {

/// The fixed 12-byte message header: transaction id, the flag bits of the
/// third and fourth byte, and the four section counts.
#[derive(Clone, Debug, PartialEq, Eq, Structural)]
pub struct DnsHeader {
    pub id: u16,
    pub recursion_desired: bool,
    pub truncated_message: bool,
    pub authoritative_answer: bool,
    pub opcode: u8,
    pub response: bool,
    pub rescode: ResultCode,
    pub checking_disabled: bool,
    pub authed_data: bool,
    pub z: bool,
    pub recursion_available: bool,
    pub questions: u16,
    pub answers: u16,
    pub authoritative_entries: u16,
    pub resource_entries: u16,
}

/// The header encoded in the 12 bytes starting at `p`: bytes 0-1 the id,
/// byte 2 the flags RD, TC, AA, opcode and QR (bits 0 up), byte 3 the
/// flags rescode, CD, AD, Z and RA, bytes 4-11 the four big-endian section
/// counts.
pub open spec fn spec_header_fields(buf: Seq<u8>, p: int) -> DnsHeader {
    let a = buf[p + 2];
    let b = buf[p + 3];
    DnsHeader {
        id: u16_be(buf, p),
        recursion_desired: (a & 1) > 0,
        truncated_message: (a & 2) > 0,
        authoritative_answer: (a & 4) > 0,
        opcode: (a >> 3) & 0x0F,
        response: (a & 0x80) > 0,
        rescode: ResultCode::spec_from_num(b & 0x0F),
        checking_disabled: (b & 0x10) > 0,
        authed_data: (b & 0x20) > 0,
        z: (b & 0x40) > 0,
        recursion_available: (b & 0x80) > 0,
        questions: u16_be(buf, p + 4),
        answers: u16_be(buf, p + 6),
        authoritative_entries: u16_be(buf, p + 8),
        resource_entries: u16_be(buf, p + 10),
    }
}

/// Splitting a big-endian 16-bit value back into its two bytes.
proof fn lemma_u16_be_split(hi: u8, lo: u8)
    by (bit_vector)
    ensures
        (((((hi as u16) << 8) | (lo as u16)) >> 8) as u8) == hi,
        ((((hi as u16) << 8) | (lo as u16)) & 0xFF) as u8 == lo,
{
}

impl DnsHeader {
    /// A fresh, empty header: zero id and counts, all flags clear,
    /// NOERROR response code.
    pub fn new() -> (r: DnsHeader)
        ensures
            r == (DnsHeader {
                id: 0,
                recursion_desired: false,
                truncated_message: false,
                authoritative_answer: false,
                opcode: 0,
                response: false,
                rescode: ResultCode::NOERROR,
                checking_disabled: false,
                authed_data: false,
                z: false,
                recursion_available: false,
                questions: 0,
                answers: 0,
                authoritative_entries: 0,
                resource_entries: 0,
            }),
    {
        DnsHeader {
            id: 0,
            recursion_desired: false,
            truncated_message: false,
            authoritative_answer: false,
            opcode: 0,
            response: false,
            rescode: ResultCode::NOERROR,
            checking_disabled: false,
            authed_data: false,
            z: false,
            recursion_available: false,
            questions: 0,
            answers: 0,
            authoritative_entries: 0,
            resource_entries: 0,
        }
    }

    /// Fill this header from the 12 bytes at the cursor. On success the
    /// cursor stands 12 bytes further; when the header runs past the end
    /// of the packet, EndOfBuffer is returned and the header is left
    /// unchanged.
    pub fn read(&mut self, buffer: &mut BytePacketParser) -> (r: Result<(), DnsError>)
        ensures
            final(buffer).buf@ == old(buffer).buf@,
            ({
                let p = old(buffer).pos as int;
                if p + 11 < 512 {
                    r == Ok::<(), DnsError>(()) && *final(self) == spec_header_fields(
                        old(buffer).buf@,
                        p,
                    ) && final(buffer).pos == p + 12
                } else {
                    r == Err::<(), DnsError>(DnsError::EndOfBuffer) && *final(self) == *old(self)
                        && final(buffer).pos as int == (if p < 512 {
                        512int
                    } else {
                        p
                    })
                }
            }),
    {
        let id = buffer.read_u16()?;
        let flags = buffer.read_u16()?;
        let a = (flags >> 8) as u8;
        let b = (flags & 0xFF) as u8;
        let questions = buffer.read_u16()?;
        let answers = buffer.read_u16()?;
        let authoritative_entries = buffer.read_u16()?;
        let resource_entries = buffer.read_u16()?;

        proof {
            let bytes = old(buffer).buf@;
            let p = old(buffer).pos as int;
            lemma_u16_be_split(bytes[p + 2], bytes[p + 3]);
        }

        self.id = id;
        self.recursion_desired = (a & 1) > 0;
        self.truncated_message = (a & 2) > 0;
        self.authoritative_answer = (a & 4) > 0;
        self.opcode = (a >> 3) & 0x0F;
        self.response = (a & 0x80) > 0;
        self.rescode = ResultCode::from_num(b & 0x0F);
        self.checking_disabled = (b & 0x10) > 0;
        self.authed_data = (b & 0x20) > 0;
        self.z = (b & 0x40) > 0;
        self.recursion_available = (b & 0x80) > 0;
        self.questions = questions;
        self.answers = answers;
        self.authoritative_entries = authoritative_entries;
        self.resource_entries = resource_entries;

        Ok(())
    }
}

} // verus!
