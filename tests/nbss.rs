use netbios_parser::{
    parse_nbss_header, parse_nbss_packet, parse_question_body, parse_rdata, parse_resource_body,
    NMFlags, NbssHeader, NetbiosError, NetbiosName, NodeStatistics, RCode, RData, RType,
};

fn hex(s: &str) -> Vec<u8> {
    let digits: Vec<u8> = s
        .bytes()
        .filter(|c| c.is_ascii_hexdigit())
        .map(|c| (c as char).to_digit(16).unwrap() as u8)
        .collect();
    digits.chunks(2).map(|p| p[0] * 16 + p[1]).collect()
}

#[test]
fn header_fields() {
    let h = NbssHeader {
        name_trn_id: 0xde2b,
        fields_16_32: 0x0110,
        qdcount: 0,
        ancount: 0,
        nscount: 0,
        arcount: 0,
    };
    assert_eq!(h.opcode_r(), false);
    assert!(h.request());
    assert_eq!(h.opcode(), 0);
    assert_eq!(h.nm_flags(), NMFlags(0x11));
    assert!(h.nm_flags().0 & NMFlags::Broadcast != 0);
    assert!(h.nm_flags().0 & NMFlags::RecursionDesired != 0);
    assert_eq!(h.rcode(), RCode(RCode::NoErr));
}

#[test]
fn nbns_request() {
    let data = &hex(
        "
        2f 53 01 10 00 01 00 00 00 00 00 00 20 46 41 45
        50 46 45 45 42 46 45 45 50 43 41 43 41 43 41 43
        41 43 41 43 41 43 41 43 41 43 41 41 41 00 00 20
        00 01
",
    );
    let (rem, packet) = parse_nbss_packet(data).expect("parse packet");
    assert!(rem.is_empty());
    assert_eq!(packet.questions.len(), 1);
    let name = packet.questions[0].qname.decode().expect("decode name");
    assert_eq!(name.to_string(), "POTATO<0>");
}

#[test]
fn nbns_response() {
    let data = &hex(
        "
        2f 53 85 80 00 00 00 01 00 00 00 00 20 46 41 45
        50 46 45 45 42 46 45 45 50 43 41 43 41 43 41 43
        41 43 41 43 41 43 41 43 41 43 41 41 41 00 00 20
        00 01 00 03 f4 80 00 06 00 00 c0 a8 01 41
",
    );
    let (rem, packet) = parse_nbss_packet(data).expect("parse packet");
    assert!(rem.is_empty());
    assert_eq!(packet.rr_answer.len(), 1);
    let answer0 = &packet.rr_answer[0];
    let name = answer0.rr_name.decode().expect("decode name");
    assert_eq!(name.to_string(), "POTATO<0>");
    assert_eq!(
        answer0.rdata,
        RData::NB {
            nb_flags: 0,
            nb_address: [192, 168, 1, 65]
        }
    );
}

#[test]
fn nbns_request_nbstat() {
    let data = &hex(
        "
        7c 26 00 00 00 01 00 00 00 00 00 00 20 45 4e 46
        44 45 49 45 50 45 4e 45 46 43 41 43 41 43 41 43
        41 43 41 43 41 43 41 43 41 43 41 41 41 00 00 21
        00 01
",
    );
    let (rem, packet) = parse_nbss_packet(data).expect("parse packet");
    assert!(rem.is_empty());
    assert_eq!(packet.questions.len(), 1);
    let a0 = &packet.questions[0];
    let name = a0.qname.decode().expect("decode name");
    assert_eq!(name.to_string(), "MSHOME<0>");
}

const NBSTAT_RESPONSE: &str = "
        7c 26 84 00 00 00 00 01 00 00 00 00 20 45 4e 46
        44 45 49 45 50 45 4e 45 46 43 41 43 41 43 41 43
        41 43 41 43 41 43 41 43 41 43 41 41 41 00 00 21
        00 01 00 00 00 00 00 ad 07 48 4d 4e 48 44 2d 54
        49 31 4b 4c 53 20 20 20 00 04 00 48 4d 4e 48 44
        2d 54 49 31 4b 4c 53 20 20 20 03 04 00 48 4d 4e
        48 44 2d 54 49 31 4b 4c 53 20 20 20 20 04 00 01
        02 5f 5f 4d 53 42 52 4f 57 53 45 5f 5f 02 01 84
        00 4d 53 48 4f 4d 45 20 20 20 20 20 20 20 20 20
        1d 04 00 4d 53 48 4f 4d 45 20 20 20 20 20 20 20
        20 20 1e 84 00 4d 53 48 4f 4d 45 20 20 20 20 20
        20 20 20 20 00 84 00 00 00 00 00 00 00 00 00 00
        00 00 00 00 00 00 00 00 00 00 00 00 00 00 00 00
        00 00 00 00 00 00 00 00 00 00 00 00 00 00 00 00
        00 00 00 00 00
";

#[test]
fn nbns_response_nbstat() {
    let data = &hex(NBSTAT_RESPONSE);
    let (rem, packet) = parse_nbss_packet(data).expect("parse packet");
    assert!(rem.is_empty());
    assert_eq!(packet.rr_answer.len(), 1);
    let answer0 = &packet.rr_answer[0];
    let name = answer0.rr_name.decode().expect("decode name");
    assert_eq!(name.to_string(), "MSHOME<0>");
    if let RData::NBStat { names, stats } = &answer0.rdata {
        assert_eq!(names.len(), 7);
        assert_eq!(*stats, NodeStatistics::default());
    } else {
        panic!("unexpected type");
    }
}

#[test]
fn nbstat_entries_are_first_level_names() {
    let data = &hex(NBSTAT_RESPONSE);
    let (_, packet) = parse_nbss_packet(data).expect("parse packet");
    if let RData::NBStat { names, .. } = &packet.rr_answer[0].rdata {
        assert_eq!(names[0].name.to_string(), "HMNHD-TI1KLS<0>");
        assert_eq!(names[0].name_flags, 0x0400);
        assert_eq!(names[1].name.to_string(), "HMNHD-TI1KLS<3>");
        assert_eq!(names[3].name.nb_name, "\u{1}\u{2}__MSBROWSE__\u{2}");
        assert_eq!(names[3].name.to_string(), "\u{1}\u{2}__MSBROWSE__\u{2}<1>");
        assert_eq!(names[3].name_flags, 0x8400);
        assert_eq!(names[4].name.to_string(), "MSHOME<1d>");
        assert_eq!(names[5].name.to_string(), "MSHOME<1e>");
    } else {
        panic!("unexpected type");
    }
}

#[test]
fn first_level_stops_at_first_space() {
    let mut b = b"AB CD          ".to_vec();
    b.push(0x20);
    let n = NetbiosName::from_bytes(&b).unwrap();
    assert_eq!(n.nb_name, "AB");
    assert_eq!(n.nb_type.0, 0x20);
    assert_eq!(n.to_string(), "AB<20>");
}

#[test]
fn first_level_full_label_without_space() {
    let b = b"ABCDEFGHIJKLMNO\x1b";
    let n = NetbiosName::from_bytes(b).unwrap();
    assert_eq!(n.nb_name, "ABCDEFGHIJKLMNO");
    assert_eq!(n.to_string(), "ABCDEFGHIJKLMNO<1b>");
}

#[test]
fn first_level_round_trip_on_padded_name() {
    let b = b"POTATO         \x00";
    let n = NetbiosName::from_bytes(b).unwrap();
    let mut again: Vec<u8> = n.nb_name.chars().map(|c| c as u8).collect();
    while again.len() < 15 {
        again.push(b' ');
    }
    again.push(n.nb_type.0);
    assert_eq!(&again[..], &b[..]);
}

#[test]
fn first_level_keeps_high_bytes_as_characters() {
    let b = b"\xe9t\xe9            \x00";
    let n = NetbiosName::from_bytes(b).unwrap();
    assert_eq!(n.nb_name, "\u{e9}t\u{e9}");
}

#[test]
fn first_level_wrong_length() {
    assert_eq!(
        NetbiosName::from_bytes(b"SHORT").unwrap_err(),
        NetbiosError::InvalidNameLength
    );
    assert_eq!(
        NetbiosName::from_bytes(&[0x41u8; 17]).unwrap_err(),
        NetbiosError::InvalidNameLength
    );
}

fn half_ascii(b: &[u8]) -> String {
    let mut s = String::new();
    for x in b {
        s.push((0x41 + (x >> 4)) as char);
        s.push((0x41 + (x & 0xf)) as char);
    }
    s
}

#[test]
fn second_level_decodes_potato() {
    let n = NetbiosName::decode("FAEPFEEBFEEPCACACACACACACACACAAA").unwrap();
    assert_eq!(n.nb_name, "POTATO");
    assert_eq!(n.nb_type.0, 0);
}

#[test]
fn second_level_round_trip() {
    let b = b"FILESRV\xe9       \x20";
    let s = half_ascii(b);
    assert_eq!(s.len(), 32);
    let n = NetbiosName::decode(&s).unwrap();
    assert_eq!(n.nb_name, "FILESRV\u{e9}");
    assert_eq!(n.nb_type.0, 0x20);
}

#[test]
fn second_level_wrong_length() {
    assert_eq!(
        NetbiosName::decode("FAEPFEEB").unwrap_err(),
        NetbiosError::InvalidNameLength
    );
}

#[test]
fn header_bits_of_a_response() {
    let data = hex("2f 53 85 87 00 00 00 01 00 02 00 03 ff");
    let (rem, h) = parse_nbss_header(&data).unwrap();
    assert_eq!(rem, &[0xffu8][..]);
    assert_eq!(h.name_trn_id, 0x2f53);
    assert!(h.response());
    assert!(!h.request());
    assert!(h.opcode_r());
    assert_eq!(h.opcode(), 1);
    assert_eq!(h.nm_flags(), NMFlags(0x58));
    assert!(h.nm_flags().0 & NMFlags::RecursionAvailable != 0);
    assert_eq!(h.rcode(), RCode(RCode::CftErr));
    assert_eq!((h.qdcount, h.ancount, h.nscount, h.arcount), (0, 1, 2, 3));
    assert_eq!(NbssHeader::size(), 12);
}

#[test]
fn short_header_is_incomplete() {
    let data = hex("2f 53 85 80 00 00 00 01 00 00 00");
    assert_eq!(parse_nbss_header(&data).unwrap_err(), NetbiosError::Incomplete);
    assert_eq!(parse_nbss_packet(&data).unwrap_err(), NetbiosError::Incomplete);
}

#[test]
fn declared_length_past_the_end_is_incomplete() {
    let data = hex(
        "2f 53 85 80 00 00 00 01 00 00 00 00 20 46 41 45
        50 46 45 45 42 46 45 45 50 43 41 43 41 43 41 43
        41 43 41 43 41 43 41 43 41 43 41 41 41 00 00 20
        00 01 00 03 f4 80 00 07 00 00 c0 a8 01 41",
    );
    assert_eq!(parse_nbss_packet(&data).unwrap_err(), NetbiosError::Incomplete);
}

#[test]
fn missing_question_is_invalid_question() {
    let data = hex("2f 53 01 10 00 01 00 00 00 00 00 00");
    assert_eq!(parse_nbss_packet(&data).unwrap_err(), NetbiosError::InvalidQuestion);
}

#[test]
fn question_without_type_is_incomplete() {
    let data = hex("2f 53 01 10 00 01 00 00 00 00 00 00 01 41 00 00");
    assert_eq!(parse_nbss_packet(&data).unwrap_err(), NetbiosError::Incomplete);
}

#[test]
fn bad_answer_pointer_is_invalid_answer() {
    let data = hex("2f 53 85 80 00 00 00 01 00 00 00 00 c0 40");
    assert_eq!(parse_nbss_packet(&data).unwrap_err(), NetbiosError::InvalidAnswer);
}

#[test]
fn compressed_answer_name_and_trailing_bytes() {
    let data = hex(
        "2f 53 85 80 00 01 00 01 00 00 00 01 20 46 41 45
        50 46 45 45 42 46 45 45 50 43 41 43 41 43 41 43
        41 43 41 43 41 43 41 43 41 43 41 41 41 00 00 20
        00 01 c0 0c 00 20 00 01 00 00 00 10 00 06 60 00
        0a 00 00 01 c0 0c 00 0a 00 01 00 00 00 00 00 02
        ab cd ee ff",
    );
    let (rem, packet) = parse_nbss_packet(&data).expect("parse packet");
    assert_eq!(rem, &[0xeeu8, 0xff][..]);
    assert_eq!(packet.questions.len(), 1);
    assert_eq!(packet.rr_answer.len(), 1);
    assert_eq!(packet.rr_authority.len(), 0);
    assert_eq!(packet.rr_additional.len(), 1);
    let a = &packet.rr_answer[0];
    assert_eq!(a.rr_name.decode().unwrap().to_string(), "POTATO<0>");
    assert_eq!(a.ttl, 16);
    assert_eq!(
        a.rdata,
        RData::NB {
            nb_flags: 0x6000,
            nb_address: [10, 0, 0, 1]
        }
    );
    let x = &packet.rr_additional[0];
    assert_eq!(x.rr_type, RType(RType::NULL));
    assert_eq!(x.rdata, RData::Unknown(&[0xab, 0xcd]));
}

#[test]
fn address_payload_too_short_is_incomplete() {
    assert_eq!(
        parse_rdata(&[0, 0, 1, 2, 3], RType(RType::NB)).unwrap_err(),
        NetbiosError::Incomplete
    );
}

#[test]
fn unknown_type_keeps_payload() {
    let p = [1u8, 2, 3];
    assert_eq!(parse_rdata(&p, RType(0x1234)).unwrap(), RData::Unknown(&p));
    assert_eq!(parse_rdata(&[], RType(RType::A)).unwrap(), RData::Unknown(&[]));
}

#[test]
fn node_status_with_short_statistics_defaults_to_zero() {
    let mut p = vec![1u8];
    p.extend_from_slice(b"HOST           \x20");
    p.extend_from_slice(&[0x04, 0x00]);
    p.extend_from_slice(&[0, 0, 0, 0, 0, 7, 3, 9, 0x01]);
    let r = parse_rdata(&p, RType(RType::NBSTAT)).unwrap();
    if let RData::NBStat { names, stats } = r {
        assert_eq!(names.len(), 1);
        assert_eq!(names[0].name.to_string(), "HOST<20>");
        assert_eq!(names[0].name_flags, 0x0400);
        let mut expected = NodeStatistics::default();
        expected.unit_id = 7;
        expected.jumpers = 3;
        expected.test_result = 9;
        assert_eq!(stats, expected);
    } else {
        panic!("unexpected type");
    }
}

#[test]
fn node_status_full_statistics() {
    let mut p = vec![0u8];
    let block: Vec<u8> = (1..=46).collect();
    p.extend_from_slice(&block);
    let r = parse_rdata(&p, RType(RType::NBSTAT)).unwrap();
    if let RData::NBStat { names, stats } = r {
        assert!(names.is_empty());
        assert_eq!(stats.unit_id, 0x0102_0304_0506);
        assert_eq!(stats.jumpers, 7);
        assert_eq!(stats.test_result, 8);
        assert_eq!(stats.version_number, 0x090a);
        assert_eq!(stats.num_good_sends, 0x1516_1718);
        assert_eq!(stats.num_good_recvs, 0x191a_1b1c);
        assert_eq!(stats.session_data_packet_size, 0x2d2e);
    } else {
        panic!("unexpected type");
    }
}

#[test]
fn node_status_missing_entries_is_incomplete() {
    let p = [2u8, 0x41, 0x41];
    assert_eq!(
        parse_rdata(&p, RType(RType::NBSTAT)).unwrap_err(),
        NetbiosError::Incomplete
    );
    assert_eq!(parse_rdata(&[], RType(RType::NBSTAT)).unwrap_err(), NetbiosError::Incomplete);
}

#[test]
fn question_body_reads_type_and_class() {
    let data = [9u8, 0x00, 0x21, 0x00, 0x01, 0x77];
    let (q, next) = parse_question_body(&data, 1, b"ABC".to_vec()).unwrap();
    assert_eq!(next, 5);
    assert_eq!(q.qtype.0, 0x21);
    assert_eq!(q.qclass.0, 1);
    assert_eq!(q.qname.0, b"ABC".to_vec());
    assert_eq!(
        parse_question_body(&data, 3, Vec::new()).unwrap_err(),
        NetbiosError::Incomplete
    );
}

#[test]
fn resource_body_reads_fields_and_payload() {
    let data = hex("00 20 00 01 00 00 01 00 00 06 00 00 c0 a8 01 41 55");
    let (r, next) = parse_resource_body(&data, 0, b"N".to_vec()).unwrap();
    assert_eq!(next, 16);
    assert_eq!(r.ttl, 256);
    assert_eq!(r.rr_class.0, 1);
    assert_eq!(
        r.rdata,
        RData::NB {
            nb_flags: 0,
            nb_address: [192, 168, 1, 65]
        }
    );
    assert_eq!(
        parse_resource_body(&data, 8, Vec::new()).unwrap_err(),
        NetbiosError::Incomplete
    );
}
