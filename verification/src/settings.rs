//! Start-up settings: the listening addresses, the session secret rule and
//! whether a store still has the schema with credentials per host.
use vstd::prelude::*;

use crate::text::{join3, opt_str};

verus! {

/// The shortest session secret the service accepts, in bytes.
pub const MIN_SESSION_SECRET_LEN: usize = 64;

/// A session secret is accepted when it is at least
/// [`MIN_SESSION_SECRET_LEN`] bytes long.
pub fn session_secret_is_valid(secret: &str) -> (ok: bool)
    ensures
        ok == (secret.len() >= MIN_SESSION_SECRET_LEN),
{
    secret.len() >= MIN_SESSION_SECRET_LEN
}

/// The value given, or the default when none is.
pub open spec fn or_default(value: Option<Seq<char>>, default: Seq<char>) -> Seq<char> {
    match value {
        Some(v) => v,
        None => default,
    }
}


/// The address the web server listens on: `HOST:PORT`, with `0.0.0.0` and
/// `8080` when they are not set.
pub fn http_bind_address(host: Option<&str>, port: Option<&str>) -> (addr: String)
    ensures
        addr@ == or_default(opt_str(host), "0.0.0.0"@) + seq![':'] + or_default(
            opt_str(port),
            "8080"@,
        ),
{
    let h = match host {
        Some(h) => h,
        None => "0.0.0.0",
    };
    let p = match port {
        Some(p) => p,
        None => "8080",
    };
    let addr = join3(h, ":", p);
    proof {
        reveal_strlit(":");
    }
    addr
}

/// The address the DNS server listens on: `0.0.0.0:DNS_PORT`, with port
/// `5353` when it is not set.
pub fn dns_bind_address(port: Option<&str>) -> (addr: String)
    ensures
        addr@ == "0.0.0.0"@ + seq![':'] + or_default(opt_str(port), "5353"@),
{
    let p = match port {
        Some(p) => p,
        None => "5353",
    };
    let addr = join3("0.0.0.0", ":", p);
    proof {
        reveal_strlit(":");
    }
    addr
}

/// The store needs migrating when its `hosts` table exists and still has
/// a `username` column (`username_columns` is the number of such columns,
/// `None` when it could not be read, which counts as none).
pub fn needs_schema_migration(hosts_table_exists: bool, username_columns: Option<i64>) -> (b: bool)
    ensures
        b == (hosts_table_exists && (username_columns matches Some(n) && n > 0)),
{
    if !hosts_table_exists {
        return false;
    }
    match username_columns {
        Some(n) => n > 0,
        None => false,
    }
}

} // verus!
