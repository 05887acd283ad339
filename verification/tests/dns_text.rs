use ddns_server::settings::{dns_bind_address, http_bind_address, needs_schema_migration, session_secret_is_valid};
use ddns_server::dns::{DdnsAuthority, DnsQuery, DnsStep, HostAddress, RecordData, ResponseCode};
use ddns_server::text::{find_byte, is_header_text, join3, starts_with, strip_trailing_char, take_before, trim_whitespace};

fn authority() -> DdnsAuthority {
    DdnsAuthority::new("ash-api.online").unwrap()
}

#[test]
fn zone_names_and_validation() {
    let (origin, ns, admin) = DdnsAuthority::zone_names("example.com");
    assert_eq!(origin, "example.com.");
    assert_eq!(ns, "ns.example.com.");
    assert_eq!(admin, "admin.example.com.");
    assert!(DdnsAuthority::new("example.com").is_some());
    let long_label = "a".repeat(64);
    assert!(DdnsAuthority::new(&long_label).is_none());
    assert!(DdnsAuthority::new(&format!("{}.com", "b".repeat(70))).is_none());
}

fn q(op: u8, name: &str, qtype: u16) -> DnsQuery {
    DnsQuery { op_code: op, name: name.to_string(), query_type: qtype }
}

#[test]
fn soa_record_contents() {
    let r = authority().create_soa_record();
    assert_eq!(r.name, "ash-api.online.");
    assert_eq!(r.ttl, 3600);
    match r.data {
        RecordData::Soa(s) => {
            assert_eq!(s.mname, "ns.ash-api.online.");
            assert_eq!(s.rname, "admin.ash-api.online.");
            assert_eq!((s.serial, s.refresh, s.retry, s.expire, s.minimum), (1, 3600, 600, 86400, 60));
        }
        other => panic!("{:?}", other),
    }
}

#[test]
fn ns_record_contents() {
    let r = authority().create_ns_record();
    assert_eq!(r.name, "ash-api.online.");
    assert_eq!(r.ttl, 3600);
    match r.data {
        RecordData::Ns(n) => assert_eq!(n, "ns.ash-api.online."),
        other => panic!("{:?}", other),
    }
}

#[test]
fn non_query_is_not_implemented() {
    match authority().handle_request(&q(5, "home.ash-api.online.", 1)) {
        DnsStep::Reply(r) => {
            assert_eq!(r.response_code, ResponseCode::NotImp);
            assert!(r.answers.is_empty() && r.additionals.is_empty());
        }
        other => panic!("{:?}", other),
    }
}

#[test]
fn soa_and_ns_questions() {
    match authority().handle_request(&q(0, "ash-api.online.", 6)) {
        DnsStep::Reply(r) => {
            assert_eq!(r.response_code, ResponseCode::NoError);
            assert_eq!(r.answers.len(), 1);
            assert!(matches!(r.answers[0].data, RecordData::Soa(_)));
            assert!(r.additionals.is_empty());
        }
        other => panic!("{:?}", other),
    }
    match authority().handle_request(&q(0, "ash-api.online.", 2)) {
        DnsStep::Reply(r) => {
            assert_eq!(r.response_code, ResponseCode::NoError);
            assert_eq!(r.answers.len(), 1);
            assert!(matches!(r.answers[0].data, RecordData::Ns(_)));
        }
        other => panic!("{:?}", other),
    }
}

#[test]
fn address_questions_look_up_the_host() {
    for t in [1u16, 28, 255] {
        match authority().handle_request(&q(0, "home.ash-api.online.", t)) {
            DnsStep::LookUp { hostname } => assert_eq!(hostname, "home.ash-api.online"),
            other => panic!("{:?}", other),
        }
    }
    match authority().handle_request(&q(0, "home.ash-api.online..", 1)) {
        DnsStep::LookUp { hostname } => assert_eq!(hostname, "home.ash-api.online"),
        other => panic!("{:?}", other),
    }
}

#[test]
fn other_questions_get_nxdomain() {
    match authority().handle_request(&q(0, "home.ash-api.online.", 15)) {
        DnsStep::Reply(r) => {
            assert_eq!(r.response_code, ResponseCode::NXDomain);
            assert!(r.answers.is_empty());
            assert_eq!(r.additionals.len(), 1);
            assert!(matches!(r.additionals[0].data, RecordData::Soa(_)));
        }
        other => panic!("{:?}", other),
    }
}

#[test]
fn ipv6_address_answers_aaaa() {
    let a = authority();
    let r = a.answer_lookup(&q(0, "home.ash-api.online.", 28), Some("2401:4900:1c1a:8fff::36d:8b2"));
    assert_eq!(r.response_code, ResponseCode::NoError);
    assert_eq!(r.answers.len(), 1);
    assert_eq!(r.answers[0].name, "home.ash-api.online.");
    assert_eq!(r.answers[0].ttl, 60);
    match &r.answers[0].data {
        RecordData::Aaaa(o) => assert_eq!(
            o.as_slice(),
            &[0x24, 0x01, 0x49, 0x00, 0x1c, 0x1a, 0x8f, 0xff, 0, 0, 0, 0, 0x03, 0x6d, 0x08, 0xb2]
        ),
        other => panic!("{:?}", other),
    }
    let r = a.answer_lookup(&q(0, "home.ash-api.online.", 255), Some("::1"));
    assert!(matches!(r.answers[0].data, RecordData::Aaaa(_)));
    let r = a.answer_lookup(&q(0, "home.ash-api.online.", 1), Some("::1"));
    assert_eq!(r.response_code, ResponseCode::NXDomain);
    assert!(r.answers.is_empty());
}

#[test]
fn ipv4_address_answers_a() {
    let a = authority();
    let r = a.answer_lookup(&q(0, "home.ash-api.online.", 1), Some("100.135.120.102"));
    assert_eq!(r.response_code, ResponseCode::NoError);
    match &r.answers[0].data {
        RecordData::A(o) => assert_eq!(o.as_slice(), &[100, 135, 120, 102]),
        other => panic!("{:?}", other),
    }
    assert_eq!(r.answers[0].ttl, 60);
    let r = a.answer_lookup(&q(0, "home.ash-api.online.", 255), Some("1.2.3.4"));
    assert!(matches!(r.answers[0].data, RecordData::A(_)));
    let r = a.answer_lookup(&q(0, "home.ash-api.online.", 28), Some("1.2.3.4"));
    assert_eq!(r.response_code, ResponseCode::NXDomain);
    assert_eq!(r.additionals.len(), 1);
}

#[test]
fn unknown_or_unreadable_address_is_nxdomain() {
    let a = authority();
    let r = a.answer_lookup(&q(0, "x.ash-api.online.", 1), None);
    assert_eq!(r.response_code, ResponseCode::NXDomain);
    let r = a.answer_lookup(&q(0, "x.ash-api.online.", 1), Some("not-an-ip"));
    assert_eq!(r.response_code, ResponseCode::NXDomain);
    let r = a.answer_lookup(&q(0, "x.ash-api.online.", 1), Some("01.2.3.4"));
    assert_eq!(r.response_code, ResponseCode::NXDomain);
}

#[test]
fn names_of_one_config_resolve_alike() {
    let a = authority();
    let r1 = a.answer_lookup(&q(0, "home.ash-api.online.", 1), Some("5.6.7.8"));
    let r2 = a.answer_lookup(&q(0, "nas.ash-api.online.", 1), Some("5.6.7.8"));
    match (&r1.answers[0].data, &r2.answers[0].data) {
        (RecordData::A(x), RecordData::A(y)) => assert_eq!(x, y),
        other => panic!("{:?}", other),
    }
    assert_eq!(r2.answers[0].name, "nas.ash-api.online.");
}

#[test]
fn answer_for_parsed_address() {
    let a = authority();
    let r = a.answer_for_address(&q(0, "h.ash-api.online.", 1), Some(HostAddress::V4(vec![1, 2, 3, 4])));
    assert_eq!(r.response_code, ResponseCode::NoError);
    let r = a.answer_for_address(&q(0, "h.ash-api.online.", 28), Some(HostAddress::V4(vec![1, 2, 3, 4])));
    assert_eq!(r.response_code, ResponseCode::NXDomain);
    let r = a.answer_for_address(&q(0, "h.ash-api.online.", 255), Some(HostAddress::V6(vec![0; 16])));
    assert_eq!(r.response_code, ResponseCode::NoError);
    let r = a.answer_for_address(&q(0, "h.ash-api.online.", 1), None);
    assert_eq!(r.response_code, ResponseCode::NXDomain);
}

#[test]
fn text_helpers() {
    assert!(is_header_text(b"Basic abc\t"));
    assert!(!is_header_text(&[b'a', 0x7f]));
    assert!(!is_header_text(&[b'a', b'\r']));
    assert!(starts_with(b"Basic xyz", b"Basic "));
    assert!(!starts_with(b"Basi", b"Basic "));
    assert_eq!(find_byte(b"a:b:c", b':'), Some(1));
    assert_eq!(find_byte(b"abc", b':'), None);
    assert_eq!(take_before(b"a,b", b','), b"a".to_vec());
    assert_eq!(take_before(b"ab", b','), b"ab".to_vec());
    assert_eq!(trim_whitespace(b" \t a b \n"), b"a b".to_vec());
    assert_eq!(trim_whitespace(b"   "), Vec::<u8>::new());
    assert_eq!(strip_trailing_char("a.b..", '.'), "a.b");
    assert_eq!(strip_trailing_char("...", '.'), "");
    assert_eq!(strip_trailing_char("é.", '.'), "é");
    assert_eq!(join3("ns.", "x", "."), "ns.x.");
}

#[test]
fn settings_rules() {
    assert!(!session_secret_is_valid(&"x".repeat(63)));
    assert!(session_secret_is_valid(&"x".repeat(64)));
    assert!(!session_secret_is_valid(""));
    assert_eq!(http_bind_address(None, None), "0.0.0.0:8080");
    assert_eq!(http_bind_address(Some("127.0.0.1"), Some("8181")), "127.0.0.1:8181");
    assert_eq!(dns_bind_address(None), "0.0.0.0:5353");
    assert_eq!(dns_bind_address(Some("53")), "0.0.0.0:53");
}

#[test]
fn schema_migration_rule() {
    assert!(needs_schema_migration(true, Some(1)));
    assert!(!needs_schema_migration(true, Some(0)));
    assert!(!needs_schema_migration(true, None));
    assert!(!needs_schema_migration(false, Some(1)));
}

#[test]
fn ipv4_dotted_decimal_rules() {
    let a = authority();
    let read = |t: &str| {
        let r = a.answer_lookup(&q(0, "h.ash-api.online.", 1), Some(t));
        match r.answers.first().map(|rec| &rec.data) {
            Some(RecordData::A(o)) => Some(o.clone()),
            _ => None,
        }
    };
    assert_eq!(read("0.0.0.0"), Some(vec![0, 0, 0, 0]));
    assert_eq!(read("10.2.3.255"), Some(vec![10, 2, 3, 255]));
    assert_eq!(read("256.1.1.1"), None);
    assert_eq!(read("1.2.3"), None);
    assert_eq!(read("1.2.3.4.5"), None);
    assert_eq!(read("1.2.3.04"), None);
    assert_eq!(read("1.2.3.0004"), None);
    assert_eq!(read(" 1.2.3.4"), None);
    assert_eq!(read("1..3.4"), None);
    assert_eq!(read("+1.2.3.4"), None);
}
