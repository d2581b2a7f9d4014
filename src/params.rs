//! Validation of the raw deployment parameters into one canonical
//! configuration.
use vstd::prelude::*;
use crate::address::{SocketAddress, DEFAULT_HTTP_PORT, loopback_spec};
use crate::keys::{KeyId, key_ids_read, key_ids_valid, parse_key_ids};
use crate::settings::NodeSettings;
use crate::text::str_eq;

verus! {

/// Why the parameters of a deployment were refused.
#[derive(Clone, Copy, Debug, PartialEq, Eq, Structural)]
pub enum ConfigError {
    /// Two parameters that exclude each other were both given.
    ConflictingInput,
    /// A name, level, subnet type or key identifier could not be read.
    InvalidInput,
    /// The directory meant to hold the port file does not exist.
    NotFound,
    /// The state directory exists but cannot be written.
    PermissionDenied,
}

/// Whether the HTTP port parameters exclude each other: an explicit port
/// together with a listen address or a port file.
pub open spec fn listen_conflict(port: Option<u16>, addr: Option<SocketAddress>, file_given: bool) -> bool {
    port is Some && (addr is Some || file_given)
}

/// The HTTP listen address chosen by the port parameters.
pub open spec fn listen_addr_spec(port: Option<u16>, addr: Option<SocketAddress>, file_given: bool) -> Result<SocketAddress, ConfigError> {
    match (port, addr, file_given) {
        (None, None, false) => Ok(loopback_spec(DEFAULT_HTTP_PORT)),
        (None, None, true) => Ok(loopback_spec(0)),
        (None, Some(a), _) => Ok(a),
        (Some(p), None, false) => Ok(loopback_spec(p)),
        _ => Err(ConfigError::ConflictingInput),
    }
}

/// Resolves the HTTP listen address from an optional port, an optional
/// address and an optional file to which the bound port is written.
pub fn resolve_listen_addr(port: Option<u16>, addr: Option<SocketAddress>, port_file: &Option<String>) -> (r: Result<SocketAddress, ConfigError>)
    ensures
        r == listen_addr_spec(port, addr, port_file is Some),
{
    match (port, addr) {
        (None, None) => {
            if port_file.is_none() {
                Ok(SocketAddress::loopback(DEFAULT_HTTP_PORT))
            } else {
                Ok(SocketAddress::loopback(0))
            }
        },
        (None, Some(a)) => Ok(a),
        (Some(p), None) => {
            if port_file.is_none() {
                Ok(SocketAddress::loopback(p))
            } else {
                Err(ConfigError::ConflictingInput)
            }
        },
        (Some(_), Some(_)) => Err(ConfigError::ConflictingInput),
    }
}

/// The resolution of the HTTP port parameters is total: the input either
/// falls in exactly one row of the table and yields its address, or it
/// combines an explicit port with an address or a port file and fails with
/// `ConflictingInput`.
pub proof fn lemma_listen_resolution_total(port: Option<u16>, addr: Option<SocketAddress>, file_given: bool)
    ensures
        listen_conflict(port, addr, file_given) <==> listen_addr_spec(port, addr, file_given) == Err::<SocketAddress, ConfigError>(ConfigError::ConflictingInput),
        !listen_conflict(port, addr, file_given) ==> listen_addr_spec(port, addr, file_given) is Ok,
        port is None && addr is None && !file_given ==> listen_addr_spec(port, addr, file_given) == Ok::<SocketAddress, ConfigError>(loopback_spec(DEFAULT_HTTP_PORT)),
        port is None && addr is None && file_given ==> listen_addr_spec(port, addr, file_given) == Ok::<SocketAddress, ConfigError>(loopback_spec(0)),
        port is None && addr is Some ==> listen_addr_spec(port, addr, file_given) == Ok::<SocketAddress, ConfigError>(addr->Some_0),
        port is Some && addr is None && !file_given ==> listen_addr_spec(port, addr, file_given) == Ok::<SocketAddress, ConfigError>(loopback_spec(port->Some_0)),
{
}

/// The three kinds of subnet.
#[derive(Clone, Copy, Debug, PartialEq, Eq, Structural)]
pub enum SubnetKind {
    Application,
    VerifiedApplication,
    System,
}

/// The subnet kind that a name denotes.
pub open spec fn subnet_kind_of(t: Seq<char>) -> Option<SubnetKind> {
    if t == "application"@ {
        Some(SubnetKind::Application)
    } else if t == "verified_application"@ {
        Some(SubnetKind::VerifiedApplication)
    } else if t == "system"@ {
        Some(SubnetKind::System)
    } else {
        None
    }
}

/// Reads a subnet kind; no name means a system subnet.
pub fn parse_subnet_kind(t: Option<&str>) -> (r: Result<SubnetKind, ConfigError>)
    ensures
        r == match t {
            None => Ok(SubnetKind::System),
            Some(s) => match subnet_kind_of(s@) {
                Some(k) => Ok(k),
                None => Err(ConfigError::InvalidInput),
            },
        },
{
    match t {
        None => Ok(SubnetKind::System),
        Some(s) => {
            if str_eq(s, "application") {
                Ok(SubnetKind::Application)
            } else if str_eq(s, "verified_application") {
                Ok(SubnetKind::VerifiedApplication)
            } else if str_eq(s, "system") {
                Ok(SubnetKind::System)
            } else {
                Err(ConfigError::InvalidInput)
            }
        },
    }
}

/// Verbosity of a node's log.
#[derive(Clone, Copy, Debug, PartialEq, Eq, Structural)]
pub enum LogLevel {
    Critical,
    Error,
    Warning,
    Info,
    Debug,
    Trace,
}

/// The log level that a name denotes.
pub open spec fn log_level_of(t: Seq<char>) -> Option<LogLevel> {
    if t == "critical"@ {
        Some(LogLevel::Critical)
    } else if t == "error"@ {
        Some(LogLevel::Error)
    } else if t == "warning"@ {
        Some(LogLevel::Warning)
    } else if t == "info"@ {
        Some(LogLevel::Info)
    } else if t == "debug"@ {
        Some(LogLevel::Debug)
    } else if t == "trace"@ {
        Some(LogLevel::Trace)
    } else {
        None
    }
}

/// Reads a log level; no name means `Info`.
pub fn parse_log_level(t: Option<&str>) -> (r: Result<LogLevel, ConfigError>)
    ensures
        r == match t {
            None => Ok(LogLevel::Info),
            Some(s) => match log_level_of(s@) {
                Some(l) => Ok(l),
                None => Err(ConfigError::InvalidInput),
            },
        },
{
    match t {
        None => Ok(LogLevel::Info),
        Some(s) => {
            if str_eq(s, "critical") {
                Ok(LogLevel::Critical)
            } else if str_eq(s, "error") {
                Ok(LogLevel::Error)
            } else if str_eq(s, "warning") {
                Ok(LogLevel::Warning)
            } else if str_eq(s, "info") {
                Ok(LogLevel::Info)
            } else if str_eq(s, "debug") {
                Ok(LogLevel::Debug)
            } else if str_eq(s, "trace") {
                Ok(LogLevel::Trace)
            } else {
                Err(ConfigError::InvalidInput)
            }
        },
    }
}

/// The deployment parameters as the operator gave them.
#[derive(Clone, Debug, PartialEq, Eq)]
pub struct RawParams {
    pub http_port: Option<u16>,
    pub http_listen_addr: Option<SocketAddress>,
    /// A file to which the node writes the port it bound.
    pub http_port_file: Option<String>,
    pub log_level: Option<String>,
    pub subnet_type: Option<String>,
    pub key_ids: Vec<String>,
    pub legacy_key_id: Option<String>,
    pub settings: NodeSettings,
}

/// What the caller found on disk before validation.
#[derive(Clone, Copy, Debug, PartialEq, Eq, Structural)]
pub struct DirFacts {
    /// The directory meant to hold the port file exists.
    pub port_file_parent_exists: bool,
    /// The state directory exists and cannot be written.
    pub state_dir_read_only: bool,
}

/// The canonical configuration of a deployment.
#[derive(Clone, Debug, PartialEq, Eq)]
pub struct ValidatedConfig {
    pub http_listen_addr: SocketAddress,
    pub http_port_file: Option<String>,
    pub log_level: LogLevel,
    pub subnet_kind: SubnetKind,
    /// The threshold keys, the legacy key of the first node last.
    pub key_ids: Vec<KeyId>,
    pub settings: NodeSettings,
}

pub open spec fn log_level_bad(raw: RawParams) -> bool {
    raw.log_level matches Some(l) && log_level_of(l@) is None
}

pub open spec fn subnet_type_bad(raw: RawParams) -> bool {
    raw.subnet_type matches Some(t) && subnet_kind_of(t@) is None
}

/// The first check that the parameters fail, in the order in which they are
/// checked: the HTTP port parameters, the port file's directory, the state
/// directory, then the names and key identifiers.
pub open spec fn validation_error(raw: RawParams, dirs: DirFacts) -> Option<ConfigError> {
    if listen_conflict(raw.http_port, raw.http_listen_addr, raw.http_port_file is Some) {
        Some(ConfigError::ConflictingInput)
    } else if raw.http_port_file is Some && !dirs.port_file_parent_exists {
        Some(ConfigError::NotFound)
    } else if dirs.state_dir_read_only {
        Some(ConfigError::PermissionDenied)
    } else if log_level_bad(raw) || subnet_type_bad(raw) || !key_ids_valid(raw.key_ids@, raw.legacy_key_id) {
        Some(ConfigError::InvalidInput)
    } else {
        None
    }
}

pub open spec fn level_or_default(l: Option<String>) -> LogLevel {
    match l {
        None => LogLevel::Info,
        Some(s) => log_level_of(s@).unwrap(),
    }
}

pub open spec fn kind_or_default(t: Option<String>) -> SubnetKind {
    match t {
        None => SubnetKind::System,
        Some(s) => subnet_kind_of(s@).unwrap(),
    }
}

/// `c` is the canonical form of `raw`.
pub open spec fn validated_from(c: ValidatedConfig, raw: RawParams) -> bool {
    &&& Ok::<SocketAddress, ConfigError>(c.http_listen_addr) == listen_addr_spec(raw.http_port, raw.http_listen_addr, raw.http_port_file is Some)
    &&& c.http_port_file == raw.http_port_file
    &&& c.log_level == level_or_default(raw.log_level)
    &&& c.subnet_kind == kind_or_default(raw.subnet_type)
    &&& key_ids_read(raw.key_ids@, raw.legacy_key_id, raw.settings.base_node_index as nat, c.key_ids@)
    &&& c.settings == raw.settings
}

/// Turns the raw parameters into the canonical configuration, or fails with
/// the first error found.
pub fn validate(raw: RawParams, dirs: DirFacts) -> (r: Result<ValidatedConfig, ConfigError>)
    ensures
        validation_error(raw, dirs) matches Some(e) ==> r == Err::<ValidatedConfig, ConfigError>(e),
        validation_error(raw, dirs) is None ==> r is Ok,
        r matches Ok(c) ==> validated_from(c, raw),
{
    let addr = match resolve_listen_addr(raw.http_port, raw.http_listen_addr, &raw.http_port_file) {
        Ok(a) => a,
        Err(e) => {
            return Err(e);
        },
    };
    if raw.http_port_file.is_some() && !dirs.port_file_parent_exists {
        return Err(ConfigError::NotFound);
    }
    if dirs.state_dir_read_only {
        return Err(ConfigError::PermissionDenied);
    }
    let level = match &raw.log_level {
        None => parse_log_level(None),
        Some(l) => parse_log_level(Some(l.as_str())),
    };
    let kind = match &raw.subnet_type {
        None => parse_subnet_kind(None),
        Some(t) => parse_subnet_kind(Some(t.as_str())),
    };
    let keys = parse_key_ids(&raw.key_ids, &raw.legacy_key_id, raw.settings.base_node_index);
    match (level, kind, keys) {
        (Ok(log_level), Ok(subnet_kind), Ok(key_ids)) => Ok(ValidatedConfig {
            http_listen_addr: addr,
            http_port_file: raw.http_port_file,
            log_level,
            subnet_kind,
            key_ids,
            settings: raw.settings,
        }),
        _ => Err(ConfigError::InvalidInput),
    }
}

} // verus!
