//! Process configuration, assembled once at startup from the environment's
//! raw values and passed by reference into the codec and the middleware.
//! Reading the environment is I/O and stays outside; this module owns the
//! checks, the numeric parsing, the cookie-name default and the exact error
//! for each missing or unparsable value.

use vstd::prelude::*;

use vstd::string::StrSliceExecFns;
use vstd::utf8::encode_utf8;

use crate::textform::{dec_val_u64, spec_all_digits, spec_dec_val};

verus! {

/// Everything the process is configured with, immutable after startup.
#[derive(Debug, Clone, PartialEq)]
pub struct Config {
    pub host_name: String,
    pub host_port: Option<u16>,
    pub db_host: String,
    pub db_namespace: String,
    pub db_database: String,
    pub db_user: String,
    pub db_pswd: String,
    pub db_version: Option<u64>,
    pub jwt_secret: Vec<u8>,
    pub jwt_cookie_name: String,
}

/// A configuration value was missing or could not be parsed.
#[derive(Debug, Clone, PartialEq)]
pub enum ConfigError {
    Parse(String),
    Missing(String),
}

/// The number a string of decimal digits denotes, when it fits the range:
/// nonempty, digits only, value at most `max`.
pub open spec fn spec_parse_ranged(s: Seq<char>, max: int) -> Option<u64> {
    let b = encode_utf8(s);
    if b.len() == 0 || !spec_all_digits(b) || spec_dec_val(b) > max {
        None
    } else {
        Some(spec_dec_val(b) as u64)
    }
}

/// Parses a decimal numeral no greater than `max`.
pub fn parse_ranged(s: &String, max: u64) -> (r: Option<u64>)
    ensures
        r == spec_parse_ranged(s@, max as int),
        r matches Some(v) ==> v <= max,
{
    let b = s.as_str().as_bytes_vec();
    assert(b@ == encode_utf8(s@));
    if b.len() == 0 {
        return None;
    }
    let mut i: usize = 0;
    while i < b.len()
        invariant
            i <= b@.len(),
            b@ == encode_utf8(s@),
            forall|k: int| 0 <= k < i ==> 48 <= #[trigger] b@[k] <= 57,
        decreases b@.len() - i,
    {
        if b[i] < 48 || b[i] > 57 {
            assert(!crate::textform::spec_is_digit(b@[i as int]));
            assert(!spec_all_digits(b@));
            return None;
        }
        i += 1;
    }
    assert(spec_all_digits(b@));
    assert(b@.subrange(0, b@.len() as int) =~= b@);
    match dec_val_u64(&b, 0, b.len()) {
        None => {
            proof {
                crate::textform::lemma_dec_val_nonneg(b@);
            }
            None
        },
        Some(v) => {
            if v > max {
                None
            } else {
                Some(v)
            }
        },
    }
}

/// Assembles the configuration from the environment's raw values, in the
/// order the environment is read: each required value that is absent, and
/// each optional numeral that does not parse, yields its fixed error; the
/// cookie name defaults to `session`.
pub fn build_config(
    host_name: Option<String>,
    host_port: Option<String>,
    db_host: Option<String>,
    db_namespace: Option<String>,
    db_database: Option<String>,
    db_user: Option<String>,
    db_pswd: Option<String>,
    db_version: Option<String>,
    jwt_secret: Option<String>,
    jwt_cookie_name: Option<String>,
) -> (r: Result<Config, ConfigError>)
    ensures
        host_name is None ==> (r is Err && r->Err_0 is Missing && r->Err_0->Missing_0@
            == "Missing Env: `DB_PSWD`"@),
        (host_name is Some && host_port is Some && spec_parse_ranged(host_port->Some_0@, 0xffff)
            is None) ==> (r is Err && r->Err_0 is Parse && r->Err_0->Parse_0@
            == "Parse Failed: `DB_VERSION`"@),
        spec_ports_ok(host_name, host_port) ==> (db_host is None ==> (r is Err && r->Err_0
            is Missing && r->Err_0->Missing_0@ == "Missing Env: `DB_HOST`"@)),
        (spec_ports_ok(host_name, host_port) && db_host is Some) ==> (db_namespace is None ==> (
        r is Err && r->Err_0 is Missing && r->Err_0->Missing_0@ == "Missing Env: `DB_NAMESPACE`"@)),
        (spec_ports_ok(host_name, host_port) && db_host is Some && db_namespace is Some) ==> (
        db_database is None ==> (r is Err && r->Err_0 is Missing && r->Err_0->Missing_0@
            == "Missing Env: `DB_DATABASE`"@)),
        (spec_ports_ok(host_name, host_port) && db_host is Some && db_namespace is Some
            && db_database is Some) ==> (db_user is None ==> (r is Err && r->Err_0 is Missing
            && r->Err_0->Missing_0@ == "Missing Env: `DB_USER`"@)),
        (spec_ports_ok(host_name, host_port) && db_host is Some && db_namespace is Some
            && db_database is Some && db_user is Some) ==> (db_pswd is None ==> (r is Err
            && r->Err_0 is Missing && r->Err_0->Missing_0@ == "Missing Env: `DB_PSWD`"@)),
        (spec_ports_ok(host_name, host_port) && db_host is Some && db_namespace is Some
            && db_database is Some && db_user is Some && db_pswd is Some) ==> ((db_version is Some
            && spec_parse_ranged(db_version->Some_0@, u64::MAX as int) is None) ==> (r is Err
            && r->Err_0 is Parse && r->Err_0->Parse_0@ == "Failed to parse `DB_VERSION`"@)),
        (spec_ports_ok(host_name, host_port) && db_host is Some && db_namespace is Some
            && db_database is Some && db_user is Some && db_pswd is Some && spec_version_ok(
            db_version,
        )) ==> (jwt_secret is None ==> (r is Err && r->Err_0 is Missing && r->Err_0->Missing_0@
            == "Missing: `JWT_SECRET`"@)),
        (spec_ports_ok(host_name, host_port) && db_host is Some && db_namespace is Some
            && db_database is Some && db_user is Some && db_pswd is Some && spec_version_ok(
            db_version,
        ) && jwt_secret is Some) ==> (r is Ok && {
            let c = r->Ok_0;
            &&& c.host_name@ == host_name->Some_0@
            &&& host_port is None ==> c.host_port is None
            &&& host_port is Some ==> (c.host_port is Some && c.host_port->Some_0 as int
                == spec_parse_ranged(host_port->Some_0@, 0xffff)->Some_0 as int)
            &&& c.db_host@ == db_host->Some_0@
            &&& c.db_namespace@ == db_namespace->Some_0@
            &&& c.db_database@ == db_database->Some_0@
            &&& c.db_user@ == db_user->Some_0@
            &&& c.db_pswd@ == db_pswd->Some_0@
            &&& db_version is None ==> c.db_version is None
            &&& db_version is Some ==> c.db_version == spec_parse_ranged(
                db_version->Some_0@,
                u64::MAX as int,
            )
            &&& c.jwt_secret@ == encode_utf8(jwt_secret->Some_0@)
            &&& jwt_cookie_name is Some ==> c.jwt_cookie_name@ == jwt_cookie_name->Some_0@
            &&& jwt_cookie_name is None ==> c.jwt_cookie_name@ == "session"@
        }),
{
    let host_name = match host_name {
        None => {
            return Err(ConfigError::Missing("Missing Env: `DB_PSWD`".to_owned()));
        },
        Some(v) => v,
    };
    let host_port: Option<u16> = match host_port {
        None => None,
        Some(s) => match parse_ranged(&s, 0xffff) {
            None => {
                return Err(ConfigError::Parse("Parse Failed: `DB_VERSION`".to_owned()));
            },
            Some(v) => {
                assert(v <= 0xffff);
                Some(v as u16)
            },
        },
    };
    let db_host = match db_host {
        None => {
            return Err(ConfigError::Missing("Missing Env: `DB_HOST`".to_owned()));
        },
        Some(v) => v,
    };
    let db_namespace = match db_namespace {
        None => {
            return Err(ConfigError::Missing("Missing Env: `DB_NAMESPACE`".to_owned()));
        },
        Some(v) => v,
    };
    let db_database = match db_database {
        None => {
            return Err(ConfigError::Missing("Missing Env: `DB_DATABASE`".to_owned()));
        },
        Some(v) => v,
    };
    let db_user = match db_user {
        None => {
            return Err(ConfigError::Missing("Missing Env: `DB_USER`".to_owned()));
        },
        Some(v) => v,
    };
    let db_pswd = match db_pswd {
        None => {
            return Err(ConfigError::Missing("Missing Env: `DB_PSWD`".to_owned()));
        },
        Some(v) => v,
    };
    let db_version: Option<u64> = match db_version {
        None => None,
        Some(s) => match parse_ranged(&s, u64::MAX) {
            None => {
                return Err(ConfigError::Parse("Failed to parse `DB_VERSION`".to_owned()));
            },
            Some(v) => Some(v),
        },
    };
    let jwt_secret = match jwt_secret {
        None => {
            return Err(ConfigError::Missing("Missing: `JWT_SECRET`".to_owned()));
        },
        Some(v) => v,
    };
    let jwt_cookie_name = match jwt_cookie_name {
        None => "session".to_owned(),
        Some(v) => v,
    };
    Ok(
        Config {
            host_name,
            host_port,
            db_host,
            db_namespace,
            db_database,
            db_user,
            db_pswd,
            db_version,
            jwt_secret: jwt_secret.as_str().as_bytes_vec(),
            jwt_cookie_name,
        },
    )
}

/// The host name is present and the port, when present, parses.
pub open spec fn spec_ports_ok(host_name: Option<String>, host_port: Option<String>) -> bool {
    host_name is Some && (host_port is Some ==> spec_parse_ranged(host_port->Some_0@, 0xffff)
        is Some)
}

/// The database version, when present, parses.
pub open spec fn spec_version_ok(db_version: Option<String>) -> bool {
    db_version is Some ==> spec_parse_ranged(db_version->Some_0@, u64::MAX as int) is Some
}

} // verus!
