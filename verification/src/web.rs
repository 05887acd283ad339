//! The decisions of the web endpoints: who is let in, which page is shown,
//! which store operation comes next and which reply is sent.
use vstd::prelude::*;

use crate::credentials::{
    generate_credentials, is_password_byte, is_username_byte, password_text, username_text,
    text_bytes, PASSWORD_LEN, USERNAME_LEN,
};
use crate::models::{AddHostnameRequest, AdminPassword, BaseDomain, CreateHostRequest, ErrorQuery, HostWithConfig, LoginRequest};
use crate::text::{
    lemma_printable_header_text, lemma_text_before_first,
    all_visible, ascii_chars, ascii_string, header_text, is_header_text, lemma_visible_is_ascii,
    take_before, text_before,
};

verus! {

/// 200 OK.
pub const STATUS_OK: u16 = 200;

/// 302 Found.
pub const STATUS_FOUND: u16 = 302;

/// 400 Bad Request.
pub const STATUS_BAD_REQUEST: u16 = 400;

/// 401 Unauthorized.
pub const STATUS_UNAUTHORIZED: u16 = 401;

/// 404 Not Found.
pub const STATUS_NOT_FOUND: u16 = 404;

/// 500 Internal Server Error.
pub const STATUS_SERVER_ERROR: u16 = 500;

/// An HTTP reply that carries no page.
#[derive(Debug)]
pub enum Reply {
    /// `302 Found` to `location`, with an empty body.
    Found { location: String },
    /// A status with a plain-text body.
    Text { status: u16, body: String },
    /// A status with an empty body.
    Empty { status: u16 },
}

pub open spec fn is_found(r: Reply, location: Seq<char>) -> bool {
    r matches Reply::Found { location: l } && l@ == location
}

pub open spec fn is_text(r: Reply, status: u16, body: Seq<char>) -> bool {
    r matches Reply::Text { status: s, body: b } && s == status && b@ == body
}

pub open spec fn is_empty(r: Reply, status: u16) -> bool {
    r matches Reply::Empty { status: s } && s == status
}

/// `302 Found` to the given location.
pub fn found(location: &str) -> (r: Reply)
    ensures
        is_found(r, location@),
{
    Reply::Found { location: location.to_owned() }
}

/// A plain-text reply.
pub fn text(status: u16, body: &str) -> (r: Reply)
    ensures
        is_text(r, status, body@),
{
    Reply::Text { status, body: body.to_owned() }
}

/// Whether the session is an admin session: the stored `logged_in` flag,
/// read as `false` when it is absent or cannot be read (`None`).
pub fn is_logged_in(stored: Option<Option<bool>>) -> (b: bool)
    ensures
        b == (stored == Some(Some(true))),
{
    match stored {
        Some(Some(flag)) => flag,
        _ => false,
    }
}

/// What a page request leads to.
#[derive(Debug)]
pub enum PageOutcome {
    /// Send this reply instead of a page.
    Respond(Reply),
    /// Render the login page, with the error notice when `show_error`.
    LoginPage { show_error: bool },
    /// Render the dashboard.
    DashboardPage,
}

/// The front page: an admin session goes on to the dashboard; anyone else
/// gets the login form, with the error notice when the query names an error.
pub fn index(logged_in: bool, query: &ErrorQuery) -> (o: PageOutcome)
    ensures
        logged_in ==> (o matches PageOutcome::Respond(r) && is_found(r, "/dashboard"@)),
        !logged_in ==> o == (PageOutcome::LoginPage { show_error: query.error is Some }),
{
    if logged_in {
        PageOutcome::Respond(found("/dashboard"))
    } else {
        PageOutcome::LoginPage { show_error: query.error.is_some() }
    }
}

/// The dashboard: shown to an admin session only; anyone else is sent to
/// the front page.
pub fn dashboard(logged_in: bool) -> (o: PageOutcome)
    ensures
        logged_in ==> o == PageOutcome::DashboardPage,
        !logged_in ==> (o matches PageOutcome::Respond(r) && is_found(r, "/"@)),
{
    if logged_in {
        PageOutcome::DashboardPage
    } else {
        PageOutcome::Respond(found("/"))
    }
}

/// The outcome of a login attempt.
#[derive(Debug)]
pub struct LoginOutcome {
    /// Whether the session is marked as an admin session.
    pub start_session: bool,
    pub reply: Reply,
}

/// A login succeeds exactly when the form's password equals the admin
/// password; it then starts the admin session and goes to the dashboard,
/// and otherwise goes back to the front page with an error.
pub fn login(form: &LoginRequest, admin_password: &AdminPassword) -> (o: LoginOutcome)
    ensures
        o.start_session == (form.password@ == admin_password.0@),
        o.start_session ==> is_found(o.reply, "/dashboard"@),
        !o.start_session ==> is_found(o.reply, "/?error=invalid"@),
{
    if form.password == admin_password.0 {
        LoginOutcome { start_session: true, reply: found("/dashboard") }
    } else {
        LoginOutcome { start_session: false, reply: found("/?error=invalid") }
    }
}

/// Logging out ends the session and goes to the front page.
pub fn logout() -> (r: Reply)
    ensures
        is_found(r, "/"@),
{
    found("/")
}

/// The full host name of a subdomain: `subdomain.base`.
pub fn full_hostname(subdomain: &str, base: &BaseDomain) -> (s: String)
    ensures
        s@ == subdomain@ + seq!['.'] + base.0@,
{
    let s = crate::text::join3(subdomain, ".", base.0.as_str());
    proof {
        reveal_strlit(".");
    }
    s
}

/// The next step of creating a host name.
#[derive(Debug)]
pub enum HostStep {
    /// Send this reply; nothing is stored.
    Respond(Reply),
    /// Store a new configuration with these credentials, then the host name.
    CreateConfig { hostname: String, username: String, password: String },
    /// Store the host name under this configuration.
    InsertHost { hostname: String, config_id: i64 },
}

/// Creating a host from the dashboard: refused without an admin session;
/// under the configuration the form names, if any; otherwise under a new
/// configuration with freshly generated credentials.
pub fn create_host(logged_in: bool, form: &CreateHostRequest, base: &BaseDomain) -> (step: HostStep)
    ensures
        !logged_in ==> (step matches HostStep::Respond(r) && is_empty(r, STATUS_UNAUTHORIZED)),
        logged_in && form.config_id is Some ==> (step matches HostStep::InsertHost {
            hostname,
            config_id,
        } && hostname@ == form.subdomain@ + seq!['.'] + base.0@ && Some(config_id)
            == form.config_id),
        logged_in && form.config_id is None ==> (step matches HostStep::CreateConfig {
            hostname,
            username,
            password,
        } && hostname@ == form.subdomain@ + seq!['.'] + base.0@ && username@.len()
            == USERNAME_LEN && password@.len() == PASSWORD_LEN && (forall|i: int|
            0 <= i < USERNAME_LEN ==> is_username_byte(#[trigger] text_bytes(username@)[i])) && (
        forall|i: int| 0 <= i < PASSWORD_LEN ==> is_password_byte(#[trigger] text_bytes(password@)[i]))
            && username@ == ascii_chars(text_bytes(username@)) && password@ == ascii_chars(
            text_bytes(password@),
        ) && (exists|user_draws: Seq<u8>, pass_draws: Seq<u8>|
            {
                &&& user_draws.len() == USERNAME_LEN
                &&& pass_draws.len() == PASSWORD_LEN
                &&& (forall|i: int| 0 <= i < USERNAME_LEN ==> #[trigger] user_draws[i] < 36)
                &&& (forall|i: int| 0 <= i < PASSWORD_LEN ==> #[trigger] pass_draws[i] < 62)
                &&& username@ == username_text(user_draws)
                &&& password@ == password_text(pass_draws)
            })),
{
    if !logged_in {
        return HostStep::Respond(Reply::Empty { status: STATUS_UNAUTHORIZED });
    }
    let hostname = full_hostname(form.subdomain.as_str(), base);
    match form.config_id {
        Some(cid) => HostStep::InsertHost { hostname, config_id: cid },
        None => {
            let (username, password) = generate_credentials();
            HostStep::CreateConfig { hostname, username, password }
        },
    }
}

/// After storing a new configuration: on failure the dashboard reports it
/// and nothing more is stored; on success the host name follows under the
/// new configuration's id.
pub fn config_created(hostname: String, created: Option<i64>) -> (step: HostStep)
    ensures
        created is None ==> (step matches HostStep::Respond(r) && is_found(
            r,
            "/dashboard?error=config_create_failed"@,
        )),
        created matches Some(id) ==> (step matches HostStep::InsertHost { hostname: h, config_id }
            && h@ == hostname@ && config_id == id),
{
    match created {
        Some(id) => HostStep::InsertHost { hostname, config_id: id },
        None => HostStep::Respond(found("/dashboard?error=config_create_failed")),
    }
}

/// After storing a host name: back to the dashboard, with the notice that
/// the name exists when the store refused it.
pub fn host_inserted(inserted: bool) -> (r: Reply)
    ensures
        inserted ==> is_found(r, "/dashboard"@),
        !inserted ==> is_found(r, "/dashboard?error=exists"@),
{
    if inserted {
        found("/dashboard")
    } else {
        found("/dashboard?error=exists")
    }
}

/// Adding a host name to an existing configuration: refused without an
/// admin session; otherwise the name `subdomain.base` is stored under it.
pub fn add_hostname_to_config(
    logged_in: bool,
    config_id: i64,
    form: &AddHostnameRequest,
    base: &BaseDomain,
) -> (step: HostStep)
    ensures
        !logged_in ==> (step matches HostStep::Respond(r) && is_empty(r, STATUS_UNAUTHORIZED)),
        logged_in ==> (step matches HostStep::InsertHost { hostname, config_id: c } && hostname@
            == form.subdomain@ + seq!['.'] + base.0@ && c == config_id),
{
    if !logged_in {
        return HostStep::Respond(Reply::Empty { status: STATUS_UNAUTHORIZED });
    }
    let hostname = full_hostname(form.subdomain.as_str(), base);
    HostStep::InsertHost { hostname, config_id }
}

/// The next step of deleting a host name.
#[derive(Debug)]
pub enum DeleteStep {
    /// Send this reply; nothing is deleted.
    Respond(Reply),
    /// Delete the host name with this id.
    DeleteHost { id: i64 },
}

/// Deleting a host name: refused without an admin session.
pub fn delete_host_handler(logged_in: bool, id: i64) -> (step: DeleteStep)
    ensures
        !logged_in ==> (step matches DeleteStep::Respond(r) && is_empty(r, STATUS_UNAUTHORIZED)),
        logged_in ==> step == (DeleteStep::DeleteHost { id }),
{
    if logged_in {
        DeleteStep::DeleteHost { id }
    } else {
        DeleteStep::Respond(Reply::Empty { status: STATUS_UNAUTHORIZED })
    }
}

/// What follows the deletion of a host name.
#[derive(Debug)]
pub struct DeleteFollowUp {
    /// Whether the host's configuration is deleted too.
    pub delete_config: bool,
    pub reply: Reply,
}

/// After deleting a host name whose configuration then has `remaining` host
/// names (`None` when the host or its configuration was not found): the
/// configuration goes when its last host name went, and the dashboard is
/// shown again whatever happened.
pub fn host_deleted(remaining: Option<u64>) -> (o: DeleteFollowUp)
    ensures
        o.delete_config == (remaining == Some(0u64)),
        is_found(o.reply, "/dashboard"@),
{
    DeleteFollowUp { delete_config: remaining == Some(0u64), reply: found("/dashboard") }
}

/// The next step of redirecting to a host's address.
#[derive(Debug)]
pub enum RedirectStep {
    /// Send this reply.
    Respond(Reply),
    /// Look up this host name.
    LookUp { hostname: String },
}

/// The host name a `Host` header names: its text before any `:port`.
pub open spec fn host_header_name(raw: Seq<u8>) -> Seq<char> {
    ascii_chars(text_before(header_text(raw), 58u8))
}

/// Redirecting by the `Host` header: without the header the request is bad;
/// otherwise the name before any port is looked up.
pub fn redirect_to_host(host_header: Option<&[u8]>) -> (step: RedirectStep)
    ensures
        host_header is None ==> (step matches RedirectStep::Respond(r) && is_text(
            r,
            STATUS_BAD_REQUEST,
            "No host header"@,
        )),
        host_header matches Some(raw) ==> (step matches RedirectStep::LookUp { hostname }
            && hostname@ == host_header_name(raw@)),
{
    let raw = match host_header {
        Some(raw) => raw,
        None => return RedirectStep::Respond(text(STATUS_BAD_REQUEST, "No host header")),
    };
    let name = if is_header_text(raw) {
        take_before(raw, 58u8)
    } else {
        Vec::new()
    };
    proof {
        assert(all_visible(name@));
        lemma_visible_is_ascii(name@);
    }
    let ghost nb = name@;
    let hostname = ascii_string(name);
    proof {
        if !all_visible(raw@) {
            assert(nb =~= text_before(header_text(raw@), 58u8));
        }
    }
    RedirectStep::LookUp { hostname }
}

/// The reply to a redirect lookup: to `http://<address>` when the host is
/// known and has an address, and `404` otherwise.
pub fn redirect_reply(host: Option<&HostWithConfig>) -> (r: Reply)
    ensures
        host is None ==> is_text(r, STATUS_NOT_FOUND, "Host not found"@),
        host matches Some(h) ==> ((match h.current_ip {
            Some(ip) => is_found(r, seq!['h', 't', 't', 'p', ':', '/', '/'] + ip@),
            None => is_text(r, STATUS_NOT_FOUND, "Host has no IP address registered"@),
        })),
{
    match host {
        None => text(STATUS_NOT_FOUND, "Host not found"),
        Some(h) => match &h.current_ip {
            Some(ip) => {
                let location = crate::text::join3("http://", ip.as_str(), "");
                proof {
                    reveal_strlit("http://");
                    reveal_strlit("");
                    assert(location@ =~= seq!['h', 't', 't', 'p', ':', '/', '/'] + ip@);
                }
                Reply::Found { location }
            },
            None => text(STATUS_NOT_FOUND, "Host has no IP address registered"),
        },
    }
}

/// A `Host` header of printable ASCII (32..126) names exactly its bytes
/// before the first ':' (all of them when there is none), as characters.
pub proof fn lemma_host_header_name(raw: Seq<u8>, k: int)
    requires
        forall|i: int| 0 <= i < raw.len() ==> (32u8 <= #[trigger] raw[i] && raw[i] <= 126u8),
        0 <= k <= raw.len(),
        forall|j: int| 0 <= j < k ==> #[trigger] raw[j] != 58u8,
        k == raw.len() || raw[k] == 58u8,
    ensures
        host_header_name(raw) == Seq::new(k as nat, |i: int| raw[i] as char),
{
    lemma_printable_header_text(raw);
    lemma_text_before_first(raw, 58u8, k);
    assert(ascii_chars(raw.subrange(0, k)) =~= Seq::new(k as nat, |i: int| raw[i] as char));
}

} // verus!
