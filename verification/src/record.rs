use vstd::prelude::*;

use crate::buffer::{spec_qname, spec_read_u16, spec_read_u32, BytePacketParser, DnsError};
use crate::query_type::QueryType;

verus! {

/// An IPv4 address as its four dotted-quad octets, most significant
/// first.
#[derive(Clone, Copy, Debug, PartialEq, Eq, Structural, Hash, PartialOrd, Ord)]
pub struct Ipv4Address {
    pub o1: u8,
    pub o2: u8,
    pub o3: u8,
    pub o4: u8,
}

impl Ipv4Address {
    /// The address whose four octets are the big-endian bytes of `raw`.
    pub open spec fn spec_from_u32(raw: u32) -> Ipv4Address {
        Ipv4Address {
            o1: ((raw >> 24) & 0xFF) as u8,
            o2: ((raw >> 16) & 0xFF) as u8,
            o3: ((raw >> 8) & 0xFF) as u8,
            o4: (raw & 0xFF) as u8,
        }
    }

    /// Split a raw 32-bit value into the four octets of an address, most
    /// significant byte first.
    pub fn from_u32(raw: u32) -> (r: Ipv4Address)
        ensures
            r == Ipv4Address::spec_from_u32(raw),
    {
        Ipv4Address {
            o1: ((raw >> 24) & 0xFF) as u8,
            o2: ((raw >> 16) & 0xFF) as u8,
            o3: ((raw >> 8) & 0xFF) as u8,
            o4: (raw & 0xFF) as u8,
        }
    }
}

/// One resource record. Every variant carries the domain and the
/// time-to-live; the address variant carries the decoded IPv4 address,
/// the unrecognized variant keeps the raw type code and declared data
/// length (its payload bytes are consumed but not retained).
#[derive(Debug, Clone, PartialEq, Eq, Hash, PartialOrd, Ord)]
pub enum DnsRecord {
    UNKNOWN { domain: String, qtype: u16, data_len: u16, ttl: u32 },
    A { domain: String, addr: Ipv4Address, ttl: u32 },
}

/// The mathematical image of a resource record: the same shape as
/// DnsRecord with the domain as a character sequence.
pub enum RecordView {
    UNKNOWN { domain: Seq<char>, qtype: u16, data_len: u16, ttl: u32 },
    A { domain: Seq<char>, addr: Ipv4Address, ttl: u32 },
}

impl View for DnsRecord {
    type V = RecordView;

    open spec fn view(&self) -> RecordView {
        match self {
            DnsRecord::UNKNOWN { domain, qtype, data_len, ttl } => RecordView::UNKNOWN {
                domain: domain@,
                qtype: *qtype,
                data_len: *data_len,
                ttl: *ttl,
            },
            DnsRecord::A { domain, addr, ttl } => RecordView::A {
                domain: domain@,
                addr: *addr,
                ttl: *ttl,
            },
        }
    }
}

/// What decoding one resource record at position `p` yields, and the
/// position after it: name, type, discarded class, time-to-live and data
/// length, then the 4-byte address for the address kind, or a skip of
/// exactly `data_len` bytes for every other kind.
pub open spec fn spec_record_read(buf: Seq<u8>, p: int) -> (Result<RecordView, DnsError>, int) {
    let q = spec_qname(buf, p);
    match q.err {
        Some(e) => (Err(e), q.end_pos),
        None => {
            let (rt, p1) = spec_read_u16(buf, q.end_pos);
            match rt {
                Err(e) => (Err(e), p1),
                Ok(qtype_num) => {
                    let (rc, p2) = spec_read_u16(buf, p1);
                    match rc {
                        Err(e) => (Err(e), p2),
                        Ok(_) => {
                            let (rttl, p3) = spec_read_u32(buf, p2);
                            match rttl {
                                Err(e) => (Err(e), p3),
                                Ok(ttl) => {
                                    let (rdl, p4) = spec_read_u16(buf, p3);
                                    match rdl {
                                        Err(e) => (Err(e), p4),
                                        Ok(data_len) => {
                                            if QueryType::spec_from_num(qtype_num) is A {
                                                let (ra, p5) = spec_read_u32(buf, p4);
                                                match ra {
                                                    Err(e) => (Err(e), p5),
                                                    Ok(raw) => (
                                                        Ok(
                                                            RecordView::A {
                                                                domain: q.name,
                                                                addr: Ipv4Address::spec_from_u32(
                                                                    raw,
                                                                ),
                                                                ttl,
                                                            },
                                                        ),
                                                        p5,
                                                    ),
                                                }
                                            } else {
                                                (
                                                    Ok(
                                                        RecordView::UNKNOWN {
                                                            domain: q.name,
                                                            qtype: qtype_num,
                                                            data_len,
                                                            ttl,
                                                        },
                                                    ),
                                                    p4 + data_len,
                                                )
                                            }
                                        },
                                    }
                                },
                            }
                        },
                    }
                },
            }
        },
    }
}

/// Where the type-specific data section of the record at `p` begins: just
/// past the name, the 2-byte type, the 2-byte class, the 4-byte
/// time-to-live and the 2-byte data length.
pub open spec fn spec_record_data_start(buf: Seq<u8>, p: int) -> int {
    spec_qname(buf, p).end_pos + 10
}

impl DnsRecord {
    /// Decode one resource record at the cursor. The address kind decodes
    /// its 4-byte payload; every unrecognized kind skips exactly its
    /// declared data length, so decoding can continue behind record types
    /// this decoder does not understand.
    pub fn read(buffer: &mut BytePacketParser) -> (r: Result<DnsRecord, DnsError>)
        ensures
            final(buffer).buf@ == old(buffer).buf@,
            ({
                let (res, endp) = spec_record_read(old(buffer).buf@, old(buffer).pos as int);
                final(buffer).pos as int == endp && (match (r, res) {
                    (Ok(rec), Ok(m)) => rec@ == m,
                    (Err(e1), Err(e2)) => e1 == e2,
                    _ => false,
                })
            }),
    {
        let mut domain = String::new();
        buffer.read_qname(&mut domain)?;

        proof {
            assert(Seq::<char>::empty() + spec_qname(old(buffer).buf@, old(buffer).pos as int).name
                =~= spec_qname(old(buffer).buf@, old(buffer).pos as int).name);
        }

        let qtype_num = buffer.read_u16()?;
        let qtype = QueryType::from_num(qtype_num);
        let _class = buffer.read_u16()?;
        let ttl = buffer.read_u32()?;
        let data_len = buffer.read_u16()?;

        match qtype {
            QueryType::A => {
                let raw_addr = buffer.read_u32()?;
                let addr = Ipv4Address::from_u32(raw_addr);
                Ok(DnsRecord::A { domain, addr, ttl })
            },
            QueryType::UNKNOWN(_) => {
                buffer.step(data_len as usize)?;
                Ok(DnsRecord::UNKNOWN { domain, qtype: qtype_num, data_len, ttl })
            },
        }
    }
}

/// Law: when decoding yields an unrecognized-type record, the cursor ends
/// exactly `data_len` bytes past the start of the record's data section,
/// whatever those bytes hold.
pub proof fn lemma_unknown_record_skips_data(buf: Seq<u8>, p: int)
    ensures
        ({
            let (res, endp) = spec_record_read(buf, p);
            match res {
                Ok(m) => match m {
                    RecordView::UNKNOWN { domain, qtype, data_len, ttl } => endp
                        == spec_record_data_start(buf, p) + data_len,
                    RecordView::A { .. } => true,
                },
                Err(_) => true,
            }
        }),
{
}

} // verus!
