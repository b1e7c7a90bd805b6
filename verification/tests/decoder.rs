use dns_decoder::buffer::{BytePacketParser, DnsError};
use dns_decoder::header::DnsHeader;
use dns_decoder::query_type::QueryType;
use dns_decoder::question::DnsQuestion;
use dns_decoder::record::{DnsRecord, Ipv4Address};
use dns_decoder::result_code::ResultCode;

fn parser_with(bytes: &[(usize, u8)]) -> BytePacketParser {
    let mut p = BytePacketParser::new();
    for &(i, b) in bytes {
        p.buf[i] = b;
    }
    p
}

fn write_at(p: &mut BytePacketParser, start: usize, bytes: &[u8]) {
    for (i, &b) in bytes.iter().enumerate() {
        p.buf[start + i] = b;
    }
}

#[test]
fn new_parser_is_zeroed_at_start() {
    let mut p = BytePacketParser::new();
    assert_eq!(p.pos(), 0);
    for i in 0..512 {
        assert_eq!(p.get(i).unwrap(), 0);
    }
}

#[test]
fn step_and_seek_move_the_position() {
    let mut p = BytePacketParser::new();
    p.step(3).unwrap();
    assert_eq!(p.pos(), 3);
    p.step(2).unwrap();
    assert_eq!(p.pos(), 5);
    p.seek(100).unwrap();
    assert_eq!(p.pos(), 100);
    // no bounds check on seek or step; only the reads enforce bounds
    p.seek(5000).unwrap();
    assert_eq!(p.pos(), 5000);
}

#[test]
fn read_advances_and_stops_at_the_end() {
    let mut p = parser_with(&[(0, 0xAB), (1, 0xCD), (511, 0x77)]);
    assert_eq!(p.read().unwrap(), 0xAB);
    assert_eq!(p.read().unwrap(), 0xCD);
    assert_eq!(p.pos(), 2);
    p.seek(511).unwrap();
    assert_eq!(p.read().unwrap(), 0x77);
    assert_eq!(p.pos(), 512);
    assert_eq!(p.read().unwrap_err(), DnsError::EndOfBuffer);
    assert_eq!(p.pos(), 512);
}

#[test]
fn get_rejects_positions_past_the_end() {
    let mut p = parser_with(&[(511, 9)]);
    assert_eq!(p.get(511).unwrap(), 9);
    assert_eq!(p.get(512).unwrap_err(), DnsError::OutOfBounds);
    assert_eq!(p.get(600).unwrap_err(), DnsError::OutOfBounds);
    assert_eq!(p.pos(), 0);
}

#[test]
fn get_range_rejects_any_range_reaching_the_last_byte() {
    let mut p = BytePacketParser::new();
    write_at(&mut p, 500, &[1, 2, 3, 4, 5, 6, 7, 8, 9, 10, 11]);
    let r = p.get_range(500, 11).unwrap();
    assert_eq!(r, &[1, 2, 3, 4, 5, 6, 7, 8, 9, 10, 11]);
    // start + len == 512 is already rejected: byte 511 is never in a range
    assert_eq!(p.get_range(500, 12).unwrap_err(), DnsError::OutOfBounds);
    assert_eq!(p.get_range(511, 1).unwrap_err(), DnsError::OutOfBounds);
    assert_eq!(p.get_range(0, 512).unwrap_err(), DnsError::OutOfBounds);
    assert_eq!(p.get_range(600, 1).unwrap_err(), DnsError::OutOfBounds);
    assert_eq!(p.pos(), 0);
}

#[test]
fn read_u16_is_big_endian() {
    let mut p = parser_with(&[(0, 0x12), (1, 0x34)]);
    assert_eq!(p.read_u16().unwrap(), 0x1234);
    assert_eq!(p.pos(), 2);
    p.seek(511).unwrap();
    assert_eq!(p.read_u16().unwrap_err(), DnsError::EndOfBuffer);
}

#[test]
fn read_u32_is_big_endian() {
    let mut p = parser_with(&[(4, 0xDE), (5, 0xAD), (6, 0xBE), (7, 0xEF)]);
    p.seek(4).unwrap();
    assert_eq!(p.read_u32().unwrap(), 0xDEADBEEF);
    assert_eq!(p.pos(), 8);
    p.seek(510).unwrap();
    assert_eq!(p.read_u32().unwrap_err(), DnsError::EndOfBuffer);
    assert_eq!(p.pos(), 512);
}

#[test]
fn qname_reads_plain_labels() {
    let mut p = BytePacketParser::new();
    write_at(&mut p, 12, b"\x03www\x06google\x03com\x00");
    p.seek(12).unwrap();
    let mut name = String::new();
    p.read_qname(&mut name).unwrap();
    assert_eq!(name, "www.google.com");
    assert_eq!(p.pos(), 28);
}

#[test]
fn qname_empty_name_is_a_single_zero_byte() {
    let mut p = BytePacketParser::new();
    p.seek(12).unwrap();
    let mut name = String::new();
    p.read_qname(&mut name).unwrap();
    assert_eq!(name, "");
    assert_eq!(p.pos(), 13);
}

#[test]
fn qname_lowercases_and_replaces_non_ascii() {
    let mut p = BytePacketParser::new();
    write_at(&mut p, 0, &[3, b'W', b'w', b'W', 2, 0xC3, 0xA9, 0]);
    let mut name = String::new();
    p.read_qname(&mut name).unwrap();
    assert_eq!(name, "www.\u{FFFD}\u{FFFD}");
    assert_eq!(p.pos(), 8);
}

#[test]
fn qname_appends_to_existing_output() {
    let mut p = BytePacketParser::new();
    write_at(&mut p, 0, b"\x02ab\x00");
    let mut name = String::from("x.");
    p.read_qname(&mut name).unwrap();
    assert_eq!(name, "x.ab");
}

#[test]
fn qname_pointer_reads_the_target_and_resumes_after_the_pointer() {
    let mut p = BytePacketParser::new();
    write_at(&mut p, 12, b"\x06google\x03com\x00");
    write_at(&mut p, 40, &[0xC0, 12]);

    p.seek(12).unwrap();
    let mut direct = String::new();
    p.read_qname(&mut direct).unwrap();
    assert_eq!(direct, "google.com");
    assert_eq!(p.pos(), 24);

    p.seek(40).unwrap();
    let mut via_pointer = String::new();
    p.read_qname(&mut via_pointer).unwrap();
    assert_eq!(via_pointer, direct);
    assert_eq!(p.pos(), 42);
}

#[test]
fn qname_pointer_then_labels_continue_at_the_target() {
    let mut p = BytePacketParser::new();
    write_at(&mut p, 20, b"\x03com\x00");
    // "mail" then a pointer to the "com" suffix
    write_at(&mut p, 40, &[4, b'm', b'a', b'i', b'l', 0xC0, 20]);
    p.seek(40).unwrap();
    let mut name = String::new();
    p.read_qname(&mut name).unwrap();
    assert_eq!(name, "mail.com");
    assert_eq!(p.pos(), 47);
}

#[test]
fn qname_five_jumps_are_allowed_six_are_not() {
    let mut p = BytePacketParser::new();
    write_at(&mut p, 12, b"\x02ok\x00");
    // a chain of six pointers, each to the next, the last to the labels
    write_at(&mut p, 90, &[0xC0, 100]);
    write_at(&mut p, 100, &[0xC0, 110]);
    write_at(&mut p, 110, &[0xC0, 120]);
    write_at(&mut p, 120, &[0xC0, 130]);
    write_at(&mut p, 130, &[0xC0, 140]);
    write_at(&mut p, 140, &[0xC0, 12]);

    // starting at 100 follows five pointers and succeeds; the stream
    // resumes after the first pointer even though five jumps followed
    p.seek(100).unwrap();
    let mut name = String::new();
    p.read_qname(&mut name).unwrap();
    assert_eq!(name, "ok");
    assert_eq!(p.pos(), 102);

    // starting at 90 needs a sixth jump and is rejected
    p.seek(90).unwrap();
    let mut name = String::new();
    assert_eq!(p.read_qname(&mut name).unwrap_err(), DnsError::TooManyJumps);
    assert_eq!(p.pos(), 92);
}

#[test]
fn qname_direct_cycle_fails_with_too_many_jumps() {
    let mut p = BytePacketParser::new();
    write_at(&mut p, 30, &[0xC0, 30]);
    p.seek(30).unwrap();
    let mut name = String::new();
    assert_eq!(p.read_qname(&mut name).unwrap_err(), DnsError::TooManyJumps);
    // the stream was fixed just past the first pointer
    assert_eq!(p.pos(), 32);
}

#[test]
fn qname_indirect_cycle_fails_with_too_many_jumps() {
    let mut p = BytePacketParser::new();
    write_at(&mut p, 30, &[0xC0, 34]);
    write_at(&mut p, 34, &[0xC0, 30]);
    p.seek(30).unwrap();
    let mut name = String::new();
    assert_eq!(p.read_qname(&mut name).unwrap_err(), DnsError::TooManyJumps);
}

#[test]
fn qname_label_running_past_the_end_is_out_of_bounds() {
    let mut p = BytePacketParser::new();
    write_at(&mut p, 508, &[5, b'a', b'b', b'c']);
    p.seek(508).unwrap();
    let mut name = String::new();
    assert_eq!(p.read_qname(&mut name).unwrap_err(), DnsError::OutOfBounds);
}

#[test]
fn qname_starting_past_the_end_is_out_of_bounds() {
    let mut p = BytePacketParser::new();
    p.seek(512).unwrap();
    let mut name = String::new();
    assert_eq!(p.read_qname(&mut name).unwrap_err(), DnsError::OutOfBounds);
    assert_eq!(p.pos(), 512);
}

#[test]
fn query_type_round_trips_every_code() {
    for n in 0..=u16::MAX {
        assert_eq!(QueryType::from_num(n).to_num(), n);
    }
    assert_eq!(QueryType::from_num(1), QueryType::A);
    assert_eq!(QueryType::from_num(0), QueryType::UNKNOWN(0));
    assert_eq!(QueryType::from_num(28), QueryType::UNKNOWN(28));
    assert_eq!(QueryType::A.to_num(), 1);
    assert_eq!(QueryType::UNKNOWN(5).to_num(), 5);
}

#[test]
fn result_code_names_one_to_five_and_folds_the_rest() {
    assert_eq!(ResultCode::from_num(0), ResultCode::NOERROR);
    assert_eq!(ResultCode::from_num(1), ResultCode::FORMERR);
    assert_eq!(ResultCode::from_num(2), ResultCode::SERVFAIL);
    assert_eq!(ResultCode::from_num(3), ResultCode::NXDOMAIN);
    assert_eq!(ResultCode::from_num(4), ResultCode::NOTIMP);
    assert_eq!(ResultCode::from_num(5), ResultCode::REFUSED);
    for n in 6..=u8::MAX {
        assert_eq!(ResultCode::from_num(n), ResultCode::NOERROR);
    }
}

#[test]
fn header_new_is_empty() {
    let h = DnsHeader::new();
    assert_eq!(h.id, 0);
    assert!(!h.response);
    assert_eq!(h.opcode, 0);
    assert_eq!(h.rescode, ResultCode::NOERROR);
    assert_eq!(h.questions, 0);
    assert_eq!(h.answers, 0);
    assert_eq!(h.authoritative_entries, 0);
    assert_eq!(h.resource_entries, 0);
}

#[test]
fn header_decodes_flags_0x8180() {
    let mut p = BytePacketParser::new();
    write_at(
        &mut p,
        0,
        &[0x86, 0x2A, 0x81, 0x80, 0x00, 0x01, 0x00, 0x02, 0x00, 0x03, 0x00, 0x04],
    );
    let mut h = DnsHeader::new();
    h.read(&mut p).unwrap();
    assert_eq!(p.pos(), 12);
    assert_eq!(h.id, 0x862A);
    assert!(h.response);
    assert_eq!(h.opcode, 0);
    assert!(!h.authoritative_answer);
    assert!(!h.truncated_message);
    assert!(h.recursion_desired);
    assert_eq!(h.rescode, ResultCode::NOERROR);
    assert!(h.recursion_available);
    assert!(!h.authed_data);
    assert!(!h.checking_disabled);
    assert!(!h.z);
}

#[test]
fn header_decodes_every_flag_bit() {
    let mut p = BytePacketParser::new();
    // opcode 2, AA, TC set; rescode 3, CD, AD, Z set
    write_at(&mut p, 0, &[0, 7, 0x16, 0x73, 0, 0, 0, 0, 0, 0, 0, 0]);
    let mut h = DnsHeader::new();
    h.read(&mut p).unwrap();
    assert_eq!(h.id, 7);
    assert!(!h.recursion_desired);
    assert!(h.truncated_message);
    assert!(h.authoritative_answer);
    assert_eq!(h.opcode, 2);
    assert!(!h.response);
    assert_eq!(h.rescode, ResultCode::NXDOMAIN);
    assert!(h.checking_disabled);
    assert!(h.authed_data);
    assert!(h.z);
    assert!(!h.recursion_available);
}

#[test]
fn header_past_the_end_fails_and_leaves_the_header_alone() {
    let mut p = BytePacketParser::new();
    p.seek(505).unwrap();
    let mut h = DnsHeader::new();
    assert_eq!(h.read(&mut p).unwrap_err(), DnsError::EndOfBuffer);
    assert_eq!(h.id, 0);
    assert_eq!(h.questions, 0);
}

#[test]
fn question_reads_name_type_and_discards_class() {
    let mut p = BytePacketParser::new();
    write_at(&mut p, 12, b"\x06google\x03com\x00");
    write_at(&mut p, 24, &[0x00, 0x01, 0x00, 0x01]);
    p.seek(12).unwrap();
    let mut q = DnsQuestion::new(String::new(), QueryType::UNKNOWN(0));
    q.read(&mut p).unwrap();
    assert_eq!(q.name, "google.com");
    assert_eq!(q.qtype, QueryType::A);
    assert_eq!(p.pos(), 28);
}

#[test]
fn question_with_unknown_type_keeps_the_code() {
    let mut p = BytePacketParser::new();
    write_at(&mut p, 0, b"\x02ab\x00");
    write_at(&mut p, 4, &[0x00, 0x1C, 0x00, 0x01]);
    let mut q = DnsQuestion::new(String::new(), QueryType::A);
    q.read(&mut p).unwrap();
    assert_eq!(q.name, "ab");
    assert_eq!(q.qtype, QueryType::UNKNOWN(28));
}

#[test]
fn address_record_decodes_the_raw_value_to_octets() {
    let mut p = BytePacketParser::new();
    write_at(&mut p, 12, b"\x01a\x00");
    // type A, class 1, ttl 300, length 4, address 0xD83AD38E
    write_at(
        &mut p,
        15,
        &[0x00, 0x01, 0x00, 0x01, 0x00, 0x00, 0x01, 0x2C, 0x00, 0x04, 0xD8, 0x3A, 0xD3, 0x8E],
    );
    p.seek(12).unwrap();
    let rec = DnsRecord::read(&mut p).unwrap();
    match rec {
        DnsRecord::A { domain, addr, ttl } => {
            assert_eq!(domain, "a");
            assert_eq!(addr, Ipv4Address { o1: 216, o2: 58, o3: 211, o4: 142 });
            assert_eq!(ttl, 300);
        }
        _ => panic!("expected an address record"),
    }
    assert_eq!(p.pos(), 29);
}

#[test]
fn ipv4_from_u32_takes_the_big_endian_bytes() {
    assert_eq!(
        Ipv4Address::from_u32(0xD83AD38E),
        Ipv4Address { o1: 216, o2: 58, o3: 211, o4: 142 }
    );
    assert_eq!(Ipv4Address::from_u32(0), Ipv4Address { o1: 0, o2: 0, o3: 0, o4: 0 });
}

#[test]
fn unknown_record_skips_exactly_its_declared_length() {
    let mut p = BytePacketParser::new();
    write_at(&mut p, 12, b"\x01a\x00");
    // type 16, class 1, ttl 60, length 7, then 7 bytes of payload
    write_at(&mut p, 15, &[0x00, 0x10, 0x00, 0x01, 0x00, 0x00, 0x00, 0x3C, 0x00, 0x07]);
    write_at(&mut p, 25, &[9, 9, 9, 9, 9, 9, 9]);
    p.seek(12).unwrap();
    let rec = DnsRecord::read(&mut p).unwrap();
    match rec {
        DnsRecord::UNKNOWN { domain, qtype, data_len, ttl } => {
            assert_eq!(domain, "a");
            assert_eq!(qtype, 16);
            assert_eq!(data_len, 7);
            assert_eq!(ttl, 60);
        }
        _ => panic!("expected an unrecognized record"),
    }
    // data started at 25; the cursor stands exactly 7 bytes past it
    assert_eq!(p.pos(), 32);
}

#[test]
fn unknown_record_skip_is_not_bounds_checked() {
    let mut p = BytePacketParser::new();
    write_at(&mut p, 0, b"\x01a\x00");
    write_at(&mut p, 3, &[0x00, 0x10, 0x00, 0x01, 0x00, 0x00, 0x00, 0x3C, 0xFF, 0xFF]);
    let rec = DnsRecord::read(&mut p).unwrap();
    match rec {
        DnsRecord::UNKNOWN { data_len, .. } => assert_eq!(data_len, 0xFFFF),
        _ => panic!("expected an unrecognized record"),
    }
    // the skip only moves the position; the next read fails
    assert_eq!(p.pos(), 13 + 0xFFFF);
    assert_eq!(p.read().unwrap_err(), DnsError::EndOfBuffer);
}

#[test]
fn address_record_truncated_payload_fails() {
    let mut p = BytePacketParser::new();
    write_at(&mut p, 504, b"\x01a\x00");
    write_at(&mut p, 507, &[0x00, 0x01, 0x00, 0x01]);
    p.seek(504).unwrap();
    assert_eq!(DnsRecord::read(&mut p).unwrap_err(), DnsError::EndOfBuffer);
}

#[test]
fn full_packet_decodes_in_section_order() {
    let mut p = BytePacketParser::new();
    // header: one question, one answer
    write_at(
        &mut p,
        0,
        &[0x13, 0x37, 0x01, 0x00, 0x00, 0x01, 0x00, 0x01, 0x00, 0x00, 0x00, 0x00],
    );
    // question: google.com, type A, class 1
    write_at(&mut p, 12, b"\x06google\x03com\x00");
    write_at(&mut p, 24, &[0x00, 0x01, 0x00, 0x01]);
    // answer: pointer to the question's name, type A, class 1, ttl 293, 4-byte address
    write_at(&mut p, 28, &[0xC0, 0x0C, 0x00, 0x01, 0x00, 0x01, 0x00, 0x00, 0x01, 0x25]);
    write_at(&mut p, 38, &[0x00, 0x04, 0xD8, 0x3A, 0xD3, 0x8E]);

    let mut header = DnsHeader::new();
    header.read(&mut p).unwrap();
    assert_eq!(header.id, 0x1337);
    assert_eq!(header.questions, 1);
    assert_eq!(header.answers, 1);

    let mut question = DnsQuestion::new(String::new(), QueryType::UNKNOWN(0));
    question.read(&mut p).unwrap();
    assert_eq!(question.name, "google.com");
    assert_eq!(question.qtype, QueryType::A);

    let answer = DnsRecord::read(&mut p).unwrap();
    match answer {
        DnsRecord::A { domain, addr, ttl } => {
            assert_eq!(domain, "google.com");
            assert_eq!(addr, Ipv4Address { o1: 216, o2: 58, o3: 211, o4: 142 });
            assert_eq!(ttl, 293);
        }
        _ => panic!("expected an address record"),
    }
    assert_eq!(p.pos(), 44);
}
