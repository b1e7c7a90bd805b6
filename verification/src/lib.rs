//! Decoder for DNS messages as they arrive on the wire: a bounds-checked
//! cursor over one 512-byte packet, domain-name decompression that follows
//! intra-packet pointers safely, and structured decoding of the header,
//! question and resource-record sections on top of it.

pub mod buffer;
pub mod header;
pub mod query_type;
pub mod question;
pub mod record;
pub mod result_code;
