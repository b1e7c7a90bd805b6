use vstd::prelude::*;

use crate::buffer::{spec_qname, spec_read_u16, BytePacketParser, DnsError};
use crate::query_type::QueryType;

verus! {

/// One question entry: the queried domain name and the record type asked
/// for. The class field of the wire format is read and discarded.
#[derive(Debug, Clone, PartialEq, Eq)]
pub struct DnsQuestion {
    pub name: String,
    pub qtype: QueryType,
}

/// What decoding one question at position `p` yields: the record type on
/// success or the error, the characters the name decoder appends, and the
/// position after the entry.
pub open spec fn spec_question_read(buf: Seq<u8>, p: int) -> (
    Result<QueryType, DnsError>,
    Seq<char>,
    int,
) {
    let q = spec_qname(buf, p);
    match q.err {
        Some(e) => (Err(e), q.name, q.end_pos),
        None => {
            let (rt, p1) = spec_read_u16(buf, q.end_pos);
            match rt {
                Err(e) => (Err(e), q.name, p1),
                Ok(t) => {
                    let (rc, p2) = spec_read_u16(buf, p1);
                    match rc {
                        Err(e) => (Err(e), q.name, p2),
                        Ok(_) => (Ok(QueryType::spec_from_num(t)), q.name, p2),
                    }
                },
            }
        },
    }
}

impl DnsQuestion {
    /// A question built from its parts.
    pub fn new(name: String, qtype: QueryType) -> (r: DnsQuestion)
        ensures
            r.name == name,
            r.qtype == qtype,
    {
        DnsQuestion { name, qtype }
    }

    /// Decode one question at the cursor: the domain name (appended to
    /// `self.name`), the record type, and the discarded class. On an
    /// error the type field is left unchanged and the name holds whatever
    /// the name decoder appended before failing.
    pub fn read(&mut self, buffer: &mut BytePacketParser) -> (r: Result<(), DnsError>)
        ensures
            final(buffer).buf@ == old(buffer).buf@,
            ({
                let (res, appended, endp) = spec_question_read(
                    old(buffer).buf@,
                    old(buffer).pos as int,
                );
                final(self).name@ == old(self).name@ + appended && final(buffer).pos as int == endp
                    && (match res {
                    Ok(qt) => r == Ok::<(), DnsError>(()) && final(self).qtype == qt,
                    Err(e) => r == Err::<(), DnsError>(e) && final(self).qtype == old(self).qtype,
                })
            }),
    {
        buffer.read_qname(&mut self.name)?;
        let t = buffer.read_u16()?;
        let _class = buffer.read_u16()?;
        self.qtype = QueryType::from_num(t);
        Ok(())
    }
}

} // verus!
