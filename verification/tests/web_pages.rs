use ddns_server::credentials::{password_symbol_byte, username_symbol_byte};
use ddns_server::models::{
    AddHostnameRequest, AdminPassword, BaseDomain, CreateHostRequest, ErrorQuery, HostWithConfig, LoginRequest,
};
use ddns_server::web::{
    add_hostname_to_config, config_created, create_host, dashboard, delete_host_handler, full_hostname,
    host_deleted, host_inserted, index, is_logged_in, login, logout, redirect_reply, redirect_to_host,
    DeleteStep, HostStep, PageOutcome, RedirectStep, Reply,
};

fn location(r: &Reply) -> String {
    match r {
        Reply::Found { location } => location.clone(),
        other => panic!("not a redirect: {:?}", other),
    }
}

fn base() -> BaseDomain {
    BaseDomain("example.com".to_string())
}

#[test]
fn session_flag_reading() {
    assert!(is_logged_in(Some(Some(true))));
    assert!(!is_logged_in(Some(Some(false))));
    assert!(!is_logged_in(Some(None)));
    assert!(!is_logged_in(None));
}

#[test]
fn index_redirects_admin_and_shows_login_otherwise() {
    let q = ErrorQuery { error: None };
    match index(true, &q) {
        PageOutcome::Respond(r) => assert_eq!(location(&r), "/dashboard"),
        other => panic!("{:?}", other),
    }
    match index(false, &q) {
        PageOutcome::LoginPage { show_error } => assert!(!show_error),
        other => panic!("{:?}", other),
    }
    let q = ErrorQuery { error: Some("invalid".to_string()) };
    match index(false, &q) {
        PageOutcome::LoginPage { show_error } => assert!(show_error),
        other => panic!("{:?}", other),
    }
}

#[test]
fn dashboard_needs_session() {
    assert!(matches!(dashboard(true), PageOutcome::DashboardPage));
    match dashboard(false) {
        PageOutcome::Respond(r) => assert_eq!(location(&r), "/"),
        other => panic!("{:?}", other),
    }
}

#[test]
fn login_checks_admin_password() {
    let admin = AdminPassword("s3cret".to_string());
    let ok = login(&LoginRequest { password: "s3cret".to_string() }, &admin);
    assert!(ok.start_session);
    assert_eq!(location(&ok.reply), "/dashboard");
    let bad = login(&LoginRequest { password: "S3cret".to_string() }, &admin);
    assert!(!bad.start_session);
    assert_eq!(location(&bad.reply), "/?error=invalid");
}

#[test]
fn logout_goes_home() {
    assert_eq!(location(&logout()), "/");
}

#[test]
fn hostname_is_subdomain_dot_base() {
    assert_eq!(full_hostname("home", &base()), "home.example.com");
    assert_eq!(full_hostname("", &base()), ".example.com");
}

#[test]
fn create_host_under_existing_config() {
    let form = CreateHostRequest { subdomain: "nas".to_string(), config_id: Some(7) };
    match create_host(true, &form, &base()) {
        HostStep::InsertHost { hostname, config_id } => {
            assert_eq!(hostname, "nas.example.com");
            assert_eq!(config_id, 7);
        }
        other => panic!("{:?}", other),
    }
}

#[test]
fn create_host_with_new_credentials() {
    let form = CreateHostRequest { subdomain: "home".to_string(), config_id: None };
    match create_host(true, &form, &base()) {
        HostStep::CreateConfig { hostname, username, password } => {
            assert_eq!(hostname, "home.example.com");
            assert_eq!(username.len(), 12);
            assert_eq!(password.len(), 16);
            assert!(username.bytes().all(|b| b.is_ascii_lowercase() || b.is_ascii_digit()));
            assert!(password.bytes().all(|b| b.is_ascii_alphanumeric()));
        }
        other => panic!("{:?}", other),
    }
}

#[test]
fn create_host_needs_session() {
    let form = CreateHostRequest { subdomain: "home".to_string(), config_id: None };
    match create_host(false, &form, &base()) {
        HostStep::Respond(Reply::Empty { status }) => assert_eq!(status, 401),
        other => panic!("{:?}", other),
    }
}

#[test]
fn config_creation_outcomes() {
    match config_created("a.example.com".to_string(), Some(3)) {
        HostStep::InsertHost { hostname, config_id } => {
            assert_eq!(hostname, "a.example.com");
            assert_eq!(config_id, 3);
        }
        other => panic!("{:?}", other),
    }
    match config_created("a.example.com".to_string(), None) {
        HostStep::Respond(r) => assert_eq!(location(&r), "/dashboard?error=config_create_failed"),
        other => panic!("{:?}", other),
    }
}

#[test]
fn host_insert_outcomes() {
    assert_eq!(location(&host_inserted(true)), "/dashboard");
    assert_eq!(location(&host_inserted(false)), "/dashboard?error=exists");
}

#[test]
fn add_hostname_to_existing_config() {
    let form = AddHostnameRequest { subdomain: "media".to_string() };
    match add_hostname_to_config(true, 4, &form, &base()) {
        HostStep::InsertHost { hostname, config_id } => {
            assert_eq!(hostname, "media.example.com");
            assert_eq!(config_id, 4);
        }
        other => panic!("{:?}", other),
    }
    match add_hostname_to_config(false, 4, &form, &base()) {
        HostStep::Respond(Reply::Empty { status }) => assert_eq!(status, 401),
        other => panic!("{:?}", other),
    }
}

#[test]
fn delete_host_steps() {
    assert!(matches!(delete_host_handler(true, 9), DeleteStep::DeleteHost { id: 9 }));
    assert!(matches!(delete_host_handler(false, 9), DeleteStep::Respond(Reply::Empty { status: 401 })));
    let f = host_deleted(Some(0));
    assert!(f.delete_config);
    assert_eq!(location(&f.reply), "/dashboard");
    assert!(!host_deleted(Some(2)).delete_config);
    assert!(!host_deleted(None).delete_config);
}

#[test]
fn redirect_reads_host_header() {
    match redirect_to_host(None) {
        RedirectStep::Respond(Reply::Text { status, body }) => {
            assert_eq!(status, 400);
            assert_eq!(body, "No host header");
        }
        other => panic!("{:?}", other),
    }
    match redirect_to_host(Some(b"home.example.com:8080".as_slice())) {
        RedirectStep::LookUp { hostname } => assert_eq!(hostname, "home.example.com"),
        other => panic!("{:?}", other),
    }
    match redirect_to_host(Some(b"home.example.com".as_slice())) {
        RedirectStep::LookUp { hostname } => assert_eq!(hostname, "home.example.com"),
        other => panic!("{:?}", other),
    }
    match redirect_to_host(Some([0xc3u8, 0xa9].as_slice())) {
        RedirectStep::LookUp { hostname } => assert_eq!(hostname, ""),
        other => panic!("{:?}", other),
    }
}

fn host(ip: Option<&str>) -> HostWithConfig {
    HostWithConfig {
        id: 1,
        hostname: "home.example.com".to_string(),
        config_id: 1,
        username: "u".to_string(),
        password: "p".to_string(),
        current_ip: ip.map(|s| s.to_string()),
        last_update: None,
        created_at: "2024-01-01 00:00:00".to_string(),
    }
}

#[test]
fn redirect_replies() {
    assert_eq!(location(&redirect_reply(Some(&host(Some("100.135.120.102"))))), "http://100.135.120.102");
    match redirect_reply(Some(&host(None))) {
        Reply::Text { status, body } => {
            assert_eq!(status, 404);
            assert_eq!(body, "Host has no IP address registered");
        }
        other => panic!("{:?}", other),
    }
    match redirect_reply(None) {
        Reply::Text { status, body } => {
            assert_eq!(status, 404);
            assert_eq!(body, "Host not found");
        }
        other => panic!("{:?}", other),
    }
}

#[test]
fn credential_symbol_alphabets() {
    assert_eq!(username_symbol_byte(0), b'a');
    assert_eq!(username_symbol_byte(25), b'z');
    assert_eq!(username_symbol_byte(26), b'0');
    assert_eq!(username_symbol_byte(35), b'9');
    assert_eq!(password_symbol_byte(0), b'a');
    assert_eq!(password_symbol_byte(26), b'A');
    assert_eq!(password_symbol_byte(51), b'Z');
    assert_eq!(password_symbol_byte(52), b'0');
    assert_eq!(password_symbol_byte(61), b'9');
}

#[test]
fn credentials_follow_the_draws() {
    let user_draws: Vec<u8> = [25u8, 26, 35].iter().copied().chain(std::iter::repeat(0).take(9)).collect();
    let pass_draws: Vec<u8> = [0u8, 25, 26, 51, 52, 61].iter().copied().chain(std::iter::repeat(0).take(10)).collect();
    let (u, p) = ddns_server::credentials::credentials_from_indices(&user_draws, &pass_draws);
    assert_eq!(u, "z09aaaaaaaaa");
    assert_eq!(p, "azAZ09aaaaaaaaaa");
}

#[test]
fn generated_credentials_shape() {
    for _ in 0..50 {
        let (u, p) = ddns_server::credentials::generate_credentials();
        assert_eq!(u.chars().count(), 12);
        assert_eq!(p.chars().count(), 16);
        assert!(u.chars().all(|c| c.is_ascii_lowercase() || c.is_ascii_digit()));
        assert!(p.chars().all(|c| c.is_ascii_alphanumeric()));
    }
}
