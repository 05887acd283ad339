//! The DynDNS-style update endpoint (`/nic/update`, `/update`): Basic
//! credentials, the address to record, and the protocol's one-word replies.
use vstd::prelude::*;

use crate::auth::{basic_auth_outcome, opt_bytes, parse_basic_auth, AuthFailure};
use crate::models::{Config, UpdateIpRequest};
use crate::text::{
    lemma_printable_header_text, lemma_text_before_first, lemma_trim_removes_only_whitespace,
    all_visible, ascii_chars, ascii_string, is_header_text, lemma_visible_is_ascii, take_before,
    opt_str, text_before, trim, trim_whitespace,
};
use crate::web::{is_text, text, Reply, STATUS_BAD_REQUEST, STATUS_OK, STATUS_SERVER_ERROR, STATUS_UNAUTHORIZED};

verus! {

/// What reading an update request's credentials leads to.
#[derive(Debug)]
pub enum UpdateStart {
    /// Send this reply; nothing is stored.
    Respond(Reply),
    /// Look up the configuration with this username, then check the password.
    LookUpConfig { username: String, password: String },
}

/// What checking the credentials against the configuration leads to.
#[derive(Debug)]
pub enum UpdateDecision {
    /// Send this reply; nothing is stored.
    Respond(Reply),
    /// Record `ip` as the address of the configuration with this username.
    StoreIp { username: String, ip: String },
}

/// The reply for a refused authorization.
pub open spec fn auth_failure_reply(e: AuthFailure, r: Reply) -> bool {
    match e {
        AuthFailure::Missing => is_text(r, STATUS_UNAUTHORIZED, "noauth"@),
        AuthFailure::Invalid => is_text(r, STATUS_UNAUTHORIZED, "badauth"@),
    }
}

/// The first step of an update: read the credentials of the
/// `Authorization` header. Without usable Basic credentials the reply is
/// `401 noauth`; with a Basic header that does not carry `username:password`
/// it is `401 badauth`; otherwise the username's configuration is looked up.
pub fn update_ip_request(authorization: Option<&[u8]>) -> (step: UpdateStart)
    ensures
        step matches UpdateStart::Respond(r) ==> exists|e: AuthFailure|
            basic_auth_outcome(opt_bytes(authorization), Err(e)) && #[trigger] auth_failure_reply(e, r),
        step matches UpdateStart::LookUpConfig { username, password } ==> basic_auth_outcome(
            opt_bytes(authorization),
            Ok((username@, password@)),
        ),
{
    let res = parse_basic_auth(authorization);
    match res {
        Ok((username, password)) => UpdateStart::LookUpConfig { username, password },
        Err(AuthFailure::Missing) => {
            let r = text(STATUS_UNAUTHORIZED, "noauth");
            assert(auth_failure_reply(AuthFailure::Missing, r));
            UpdateStart::Respond(r)
        },
        Err(AuthFailure::Invalid) => {
            let r = text(STATUS_UNAUTHORIZED, "badauth");
            assert(auth_failure_reply(AuthFailure::Invalid, r));
            UpdateStart::Respond(r)
        },
    }
}

/// The optional text of an optional string.
pub open spec fn opt_text(o: Option<String>) -> Option<Seq<char>> {
    match o {
        Some(s) => Some(s@),
        None => None,
    }
}

/// The address an update records: the `myip` parameter when given; else
/// the first entry of `X-Forwarded-For`, trimmed; else `X-Real-IP`; else the
/// peer's address. A proxy header that is not text is passed over for the
/// peer's address.
pub open spec fn client_ip(
    myip: Option<Seq<char>>,
    forwarded_for: Option<Seq<u8>>,
    real_ip: Option<Seq<u8>>,
    peer: Option<Seq<char>>,
) -> Option<Seq<char>> {
    match myip {
        Some(ip) => Some(ip),
        None => match forwarded_for {
            Some(ff) => if all_visible(ff) {
                Some(ascii_chars(trim(text_before(ff, 44u8))))
            } else {
                peer
            },
            None => match real_ip {
                Some(ri) => if all_visible(ri) {
                    Some(ascii_chars(ri))
                } else {
                    peer
                },
                None => peer,
            },
        },
    }
}

/// Chooses the address an update records; see [`client_ip`].
pub fn select_client_ip(
    query: &UpdateIpRequest,
    forwarded_for: Option<&[u8]>,
    real_ip: Option<&[u8]>,
    peer: Option<&str>,
) -> (ip: Option<String>)
    ensures
        opt_text(ip) == client_ip(
            opt_text(query.myip),
            opt_bytes(forwarded_for),
            opt_bytes(real_ip),
            opt_str(peer),
        ),
{
    if let Some(ip) = &query.myip {
        return Some(ip.clone());
    }
    let peer_ip = match peer {
        Some(p) => Some(p.to_owned()),
        None => None,
    };
    if let Some(ff) = forwarded_for {
        if is_header_text(ff) {
            let first = take_before(ff, 44u8);
            let trimmed = trim_whitespace(first.as_slice());
            proof {
                lemma_visible_is_ascii(trimmed@);
            }
            return Some(ascii_string(trimmed));
        }
        return peer_ip;
    }
    if let Some(ri) = real_ip {
        if is_header_text(ri) {
            let owned = vstd::slice::slice_to_vec(ri);
            proof {
                lemma_visible_is_ascii(owned@);
            }
            return Some(ascii_string(owned));
        }
        return peer_ip;
    }
    peer_ip
}

/// The second step of an update, once the username's configuration has been
/// looked up (`None` when there is none or it could not be read): a missing
/// configuration or a wrong password gives `401 badauth`; with no address
/// to record the reply is `400 noip`; otherwise the address is recorded for
/// the configuration.
pub fn update_ip_checked(
    username: String,
    password: &String,
    config: Option<&Config>,
    query: &UpdateIpRequest,
    forwarded_for: Option<&[u8]>,
    real_ip: Option<&[u8]>,
    peer: Option<&str>,
) -> (step: UpdateDecision)
    ensures
        (match config {
            None => true,
            Some(c) => c.password@ != password@,
        }) ==> (step matches UpdateDecision::Respond(r) && is_text(r, STATUS_UNAUTHORIZED, "badauth"@)),
        (config matches Some(c) && c.password@ == password@) ==> (match client_ip(
            opt_text(query.myip),
            opt_bytes(forwarded_for),
            opt_bytes(real_ip),
            opt_str(peer),
        ) {
            None => step matches UpdateDecision::Respond(r) && is_text(r, STATUS_BAD_REQUEST, "noip"@),
            Some(ip) => step matches UpdateDecision::StoreIp { username: u, ip: i } && u@ == username@
                && i@ == ip,
        }),
{
    let accepted = match config {
        Some(c) => c.password.eq(password),
        None => false,
    };
    if !accepted {
        return UpdateDecision::Respond(text(STATUS_UNAUTHORIZED, "badauth"));
    }
    match select_client_ip(query, forwarded_for, real_ip, peer) {
        Some(ip) => UpdateDecision::StoreIp { username, ip },
        None => UpdateDecision::Respond(text(STATUS_BAD_REQUEST, "noip")),
    }
}

/// The last step of an update: `200 good <address>` once `ip` is recorded,
/// `500 dnserr` when recording it failed.
pub fn update_ip_stored(stored: bool, ip: &str) -> (r: Reply)
    ensures
        stored ==> is_text(r, STATUS_OK, seq!['g', 'o', 'o', 'd', ' '] + ip@),
        !stored ==> is_text(r, STATUS_SERVER_ERROR, "dnserr"@),
{
    if stored {
        let body = crate::text::join3("good ", ip, "");
        proof {
            reveal_strlit("good ");
            reveal_strlit("");
            assert(body@ =~= seq!['g', 'o', 'o', 'd', ' '] + ip@);
        }
        Reply::Text { status: STATUS_OK, body }
    } else {
        text(STATUS_SERVER_ERROR, "dnserr")
    }
}

// ---------------------------------------------------------------------------
// Laws
// ---------------------------------------------------------------------------
/// A `myip` parameter is recorded as given, whatever the headers say.
pub proof fn lemma_myip_recorded(
    myip: Seq<char>,
    forwarded_for: Option<Seq<u8>>,
    real_ip: Option<Seq<u8>>,
    peer: Option<Seq<char>>,
)
    ensures
        client_ip(Some(myip), forwarded_for, real_ip, peer) == Some(myip),
{
}

/// Without `myip`, an `X-Forwarded-For` header of printable ASCII (32..126)
/// or tabs gives its first comma-separated entry with the whitespace bytes
/// (9..13, 32) at its ends removed and nothing else: when `ff[0..k]` is the
/// entry before the first ',' (all of `ff` when there is none) and
/// `ff[k1..k2]` is that entry without such bytes at its ends, the recorded
/// address is the characters of `ff[k1..k2]`, byte for byte.
pub proof fn lemma_forwarded_for_first_entry(
    ff: Seq<u8>,
    k: int,
    k1: int,
    k2: int,
    real_ip: Option<Seq<u8>>,
    peer: Option<Seq<char>>,
)
    requires
        forall|i: int| 0 <= i < ff.len() ==> ((32u8 <= #[trigger] ff[i] && ff[i] <= 126u8) || ff[i] == 9u8),
        0 <= k <= ff.len(),
        forall|j: int| 0 <= j < k ==> #[trigger] ff[j] != 44u8,
        k == ff.len() || ff[k] == 44u8,
        0 <= k1 <= k2 <= k,
        forall|j: int| 0 <= j < k1 ==> (#[trigger] ff[j] == 32u8 || (9u8 <= ff[j] && ff[j] <= 13u8)),
        forall|j: int| k2 <= j < k ==> (#[trigger] ff[j] == 32u8 || (9u8 <= ff[j] && ff[j] <= 13u8)),
        k1 < k2 ==> !(ff[k1] == 32u8 || (9u8 <= ff[k1] && ff[k1] <= 13u8)),
        k1 < k2 ==> !(ff[k2 - 1] == 32u8 || (9u8 <= ff[k2 - 1] && ff[k2 - 1] <= 13u8)),
    ensures
        client_ip(None, Some(ff), real_ip, peer) == Some(
            Seq::new((k2 - k1) as nat, |i: int| ff[k1 + i] as char),
        ),
{
    lemma_printable_header_text(ff);
    lemma_text_before_first(ff, 44u8, k);
    let e = ff.subrange(0, k);
    assert forall|j: int| 0 <= j < k1 implies (#[trigger] e[j] == 32u8 || (9u8 <= e[j] && e[j] <= 13u8)) by {
        assert(e[j] == ff[j]);
    }
    assert forall|j: int| k2 <= j < e.len() implies (#[trigger] e[j] == 32u8 || (9u8 <= e[j] && e[j] <= 13u8)) by {
        assert(e[j] == ff[j]);
    }
    if k1 < k2 {
        assert(e[k1] == ff[k1]);
        assert(e[k2 - 1] == ff[k2 - 1]);
    }
    lemma_trim_removes_only_whitespace(e, k1, k2);
    assert(ascii_chars(e.subrange(k1, k2)) =~= Seq::new((k2 - k1) as nat, |i: int| ff[k1 + i] as char));
}

/// Without `myip` and `X-Forwarded-For`, an `X-Real-IP` header of printable
/// ASCII (32..126) or tabs is recorded as sent.
pub proof fn lemma_real_ip_recorded(ri: Seq<u8>, peer: Option<Seq<char>>)
    requires
        forall|i: int| 0 <= i < ri.len() ==> ((32u8 <= #[trigger] ri[i] && ri[i] <= 126u8) || ri[i] == 9u8),
    ensures
        client_ip(None, None, Some(ri), peer) == Some(Seq::new(ri.len(), |i: int| ri[i] as char)),
{
    lemma_printable_header_text(ri);
    assert(ascii_chars(ri) =~= Seq::new(ri.len(), |i: int| ri[i] as char));
}

/// With no `myip` and no proxy header, the peer's address is recorded, and
/// with no peer address either there is none to record.
pub proof fn lemma_peer_recorded(peer: Option<Seq<char>>)
    ensures
        client_ip(None, None, None, peer) == peer,
{
}

} // verus!
