//! The records and request forms of the service, as plain values.
use vstd::prelude::*;

verus! {

/// A host name row read together with the credentials and address of its
/// configuration.
#[derive(Debug, Clone)]
pub struct Host {
    pub id: i64,
    pub hostname: String,
    pub username: String,
    pub password: String,
    pub current_ip: Option<String>,
    pub last_update: Option<String>,
    pub created_at: String,
}

/// A configuration: one set of update credentials and the address that all
/// of its host names resolve to.
#[derive(Debug, Clone)]
pub struct Config {
    pub id: i64,
    pub username: String,
    pub password: String,
    pub current_ip: Option<String>,
    pub last_update: Option<String>,
    pub created_at: String,
}

/// A host name together with its configuration.
#[derive(Debug, Clone)]
pub struct HostWithConfig {
    pub id: i64,
    pub hostname: String,
    pub config_id: i64,
    pub username: String,
    pub password: String,
    pub current_ip: Option<String>,
    pub last_update: Option<String>,
    pub created_at: String,
}

/// The dashboard form that creates a host name, under an existing
/// configuration when `config_id` is given and under a new one otherwise.
#[derive(Debug, Clone)]
pub struct CreateHostRequest {
    pub subdomain: String,
    pub config_id: Option<i64>,
}

/// The dashboard form that adds a host name to an existing configuration.
#[derive(Debug, Clone)]
pub struct AddHostnameRequest {
    pub subdomain: String,
}

/// The admin login form.
#[derive(Debug, Clone)]
pub struct LoginRequest {
    pub password: String,
}

/// The query of an update request.
#[derive(Debug, Clone)]
pub struct UpdateIpRequest {
    pub hostname: Option<String>,
    pub myip: Option<String>,
}

/// The admin password the service was started with.
#[derive(Debug, Clone)]
pub struct AdminPassword(pub String);

/// The zone under which host names are created.
#[derive(Debug, Clone)]
pub struct BaseDomain(pub String);

/// The query of the login page.
#[derive(Debug, Clone)]
pub struct ErrorQuery {
    pub error: Option<String>,
}

} // verus!
