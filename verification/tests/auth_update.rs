use base64::Engine as _;
use ddns_server::auth::{credentials_from_decoded, parse_basic_auth, AuthFailure};
use ddns_server::models::{Config, UpdateIpRequest};
use ddns_server::update::{select_client_ip, update_ip_checked, update_ip_request, update_ip_stored, UpdateDecision, UpdateStart};
use ddns_server::web::Reply;

fn basic(user_pass: &str) -> Vec<u8> {
    let token = base64::engine::general_purpose::STANDARD.encode(user_pass.as_bytes());
    format!("Basic {}", token).into_bytes()
}

fn text_of(r: &Reply) -> (u16, String) {
    match r {
        Reply::Text { status, body } => (*status, body.clone()),
        other => panic!("not a text reply: {:?}", other),
    }
}

fn config(password: &str) -> Config {
    Config {
        id: 1,
        username: "abc123xyz456".to_string(),
        password: password.to_string(),
        current_ip: None,
        last_update: None,
        created_at: "2024-01-01 00:00:00".to_string(),
    }
}

fn query(myip: Option<&str>) -> UpdateIpRequest {
    UpdateIpRequest { hostname: Some("home.example.com".to_string()), myip: myip.map(|s| s.to_string()) }
}

#[test]
fn basic_auth_reads_username_and_password() {
    let h = basic("abc123xyz456:SecretPass1234");
    let r = parse_basic_auth(Some(h.as_slice()));
    assert_eq!(r, Ok(("abc123xyz456".to_string(), "SecretPass1234".to_string())));
}

#[test]
fn basic_auth_splits_at_first_colon() {
    let h = basic("user:pa:ss");
    assert_eq!(parse_basic_auth(Some(h.as_slice())), Ok(("user".to_string(), "pa:ss".to_string())));
    let h = basic(":pw");
    assert_eq!(parse_basic_auth(Some(h.as_slice())), Ok((String::new(), "pw".to_string())));
    let h = basic("u:");
    assert_eq!(parse_basic_auth(Some(h.as_slice())), Ok(("u".to_string(), String::new())));
}

#[test]
fn basic_auth_keeps_non_ascii_text() {
    let h = basic("jörg:päss");
    assert_eq!(parse_basic_auth(Some(h.as_slice())), Ok(("jörg".to_string(), "päss".to_string())));
}

#[test]
fn basic_auth_missing_header() {
    assert_eq!(parse_basic_auth(None), Err(AuthFailure::Missing));
}

#[test]
fn basic_auth_other_scheme_is_missing() {
    assert_eq!(parse_basic_auth(Some(b"Bearer abc".as_slice())), Err(AuthFailure::Missing));
    assert_eq!(parse_basic_auth(Some(b"basic dTpw".as_slice())), Err(AuthFailure::Missing));
    assert_eq!(parse_basic_auth(Some(b"Basic".as_slice())), Err(AuthFailure::Missing));
    assert_eq!(parse_basic_auth(Some(b"".as_slice())), Err(AuthFailure::Missing));
}

#[test]
fn basic_auth_header_not_text_is_missing() {
    let mut h = basic("u:p");
    h.push(0x80);
    assert_eq!(parse_basic_auth(Some(h.as_slice())), Err(AuthFailure::Missing));
    let mut h = basic("u:p");
    h.insert(2, b'\n');
    assert_eq!(parse_basic_auth(Some(h.as_slice())), Err(AuthFailure::Missing));
}

#[test]
fn basic_auth_bad_base64_is_invalid() {
    assert_eq!(parse_basic_auth(Some(b"Basic !!!!".as_slice())), Err(AuthFailure::Invalid));
    assert_eq!(parse_basic_auth(Some(b"Basic dTpw=".as_slice())), Err(AuthFailure::Invalid));
}

#[test]
fn basic_auth_without_colon_is_invalid() {
    let h = basic("nocolon");
    assert_eq!(parse_basic_auth(Some(h.as_slice())), Err(AuthFailure::Invalid));
    let h = basic("");
    assert_eq!(parse_basic_auth(Some(h.as_slice())), Err(AuthFailure::Invalid));
}

#[test]
fn basic_auth_not_utf8_is_invalid() {
    let token = base64::engine::general_purpose::STANDARD.encode([0xffu8, b':', b'p']);
    let h = format!("Basic {}", token).into_bytes();
    assert_eq!(parse_basic_auth(Some(h.as_slice())), Err(AuthFailure::Invalid));
    let token = base64::engine::general_purpose::STANDARD.encode([b'u', b':', 0xc3u8]);
    let h = format!("Basic {}", token).into_bytes();
    assert_eq!(parse_basic_auth(Some(h.as_slice())), Err(AuthFailure::Invalid));
}

#[test]
fn decoded_credentials_cases() {
    assert_eq!(credentials_from_decoded(None), Err(AuthFailure::Invalid));
    assert_eq!(credentials_from_decoded(Some(b"a:b".to_vec())), Ok(("a".to_string(), "b".to_string())));
    assert_eq!(credentials_from_decoded(Some(b"ab".to_vec())), Err(AuthFailure::Invalid));
}

#[test]
fn update_request_without_auth_is_noauth() {
    match update_ip_request(None) {
        UpdateStart::Respond(r) => assert_eq!(text_of(&r), (401, "noauth".to_string())),
        other => panic!("{:?}", other),
    }
    match update_ip_request(Some(b"Digest x".as_slice())) {
        UpdateStart::Respond(r) => assert_eq!(text_of(&r), (401, "noauth".to_string())),
        other => panic!("{:?}", other),
    }
}

#[test]
fn update_request_with_bad_auth_is_badauth() {
    let h = basic("nocolon");
    match update_ip_request(Some(h.as_slice())) {
        UpdateStart::Respond(r) => assert_eq!(text_of(&r), (401, "badauth".to_string())),
        other => panic!("{:?}", other),
    }
}

#[test]
fn update_request_looks_up_the_username() {
    let h = basic("abc123xyz456:SecretPass1234");
    match update_ip_request(Some(h.as_slice())) {
        UpdateStart::LookUpConfig { username, password } => {
            assert_eq!(username, "abc123xyz456");
            assert_eq!(password, "SecretPass1234");
        }
        other => panic!("{:?}", other),
    }
}

#[test]
fn update_with_unknown_user_or_wrong_password_is_badauth() {
    let q = query(Some("1.2.3.4"));
    let step = update_ip_checked("u".to_string(), &"pw".to_string(), None, &q, None, None, Some("9.9.9.9"));
    match step {
        UpdateDecision::Respond(r) => assert_eq!(text_of(&r), (401, "badauth".to_string())),
        other => panic!("{:?}", other),
    }
    let c = config("right");
    let step = update_ip_checked("u".to_string(), &"wrong".to_string(), Some(&c), &q, None, None, None);
    match step {
        UpdateDecision::Respond(r) => assert_eq!(text_of(&r), (401, "badauth".to_string())),
        other => panic!("{:?}", other),
    }
}

#[test]
fn update_records_myip_first() {
    let c = config("pw");
    let q = query(Some("1.2.3.4"));
    let step = update_ip_checked(
        "abc".to_string(),
        &"pw".to_string(),
        Some(&c),
        &q,
        Some(b"5.6.7.8".as_slice()),
        Some(b"7.7.7.7".as_slice()),
        Some("9.9.9.9"),
    );
    match step {
        UpdateDecision::StoreIp { username, ip } => {
            assert_eq!(username, "abc");
            assert_eq!(ip, "1.2.3.4");
        }
        other => panic!("{:?}", other),
    }
}

#[test]
fn update_without_any_address_is_noip() {
    let c = config("pw");
    let q = query(None);
    let step = update_ip_checked("abc".to_string(), &"pw".to_string(), Some(&c), &q, None, None, None);
    match step {
        UpdateDecision::Respond(r) => assert_eq!(text_of(&r), (400, "noip".to_string())),
        other => panic!("{:?}", other),
    }
}

#[test]
fn client_ip_from_forwarded_for_first_entry() {
    let q = query(None);
    let ip = select_client_ip(&q, Some(b"  100.135.120.102 , 10.0.0.1, 10.0.0.2".as_slice()), None, Some("9.9.9.9"));
    assert_eq!(ip, Some("100.135.120.102".to_string()));
    let ip = select_client_ip(&q, Some(b"\t2401:4900::1\t".as_slice()), Some(b"7.7.7.7".as_slice()), None);
    assert_eq!(ip, Some("2401:4900::1".to_string()));
    let ip = select_client_ip(&q, Some(b", 1.1.1.1".as_slice()), None, Some("9.9.9.9"));
    assert_eq!(ip, Some(String::new()));
}

#[test]
fn client_ip_from_real_ip_then_peer() {
    let q = query(None);
    assert_eq!(select_client_ip(&q, None, Some(b"7.7.7.7".as_slice()), Some("9.9.9.9")), Some("7.7.7.7".to_string()));
    assert_eq!(select_client_ip(&q, None, None, Some("9.9.9.9")), Some("9.9.9.9".to_string()));
    assert_eq!(select_client_ip(&q, None, None, None), None);
}

#[test]
fn client_ip_header_not_text_falls_back_to_peer() {
    let q = query(None);
    assert_eq!(
        select_client_ip(&q, Some([0xffu8, b'1'].as_slice()), Some(b"7.7.7.7".as_slice()), Some("9.9.9.9")),
        Some("9.9.9.9".to_string())
    );
    assert_eq!(select_client_ip(&q, None, Some([0x01u8].as_slice()), None), None);
}

#[test]
fn update_store_outcome_replies() {
    assert_eq!(text_of(&update_ip_stored(true, "100.135.120.102")), (200, "good 100.135.120.102".to_string()));
    assert_eq!(text_of(&update_ip_stored(false, "100.135.120.102")), (500, "dnserr".to_string()));
}
