//! The configuration document of one node: assembled from the validated
//! configuration, the node's paths and its address, and written as JSON.
use vstd::prelude::*;
use crate::address::{SocketAddress, addr_text};
use crate::params::{LogLevel, ValidatedConfig};
use crate::paths::{
    artifact_pool_spec, crypto_root_spec, derive_paths, https_outcalls_socket_spec,
    registry_store_spec, state_manager_spec,
};
use crate::settings::{AdapterSocket, FlagStatus, HttpLimits, PoolBackend, RuntimeFlags};
use crate::text::{dec, decimal, json_quoted, json_string};

verus! {

/// Capacity of the outbound queue of the inter-node transport.
pub const SEND_QUEUE_SIZE: u64 = 1024;

/// The settings of a node's HTTP endpoint.
#[derive(Clone, Debug, PartialEq, Eq)]
pub struct HttpConfig {
    pub listen_addr: SocketAddress,
    pub port_file: Option<String>,
    pub limits: HttpLimits,
}

/// The runtime configuration of one node.
#[derive(Clone, Debug, PartialEq, Eq)]
pub struct NodeConfig {
    pub registry_local_store: String,
    /// The transport listens on all interfaces, on this port.
    pub transport_port: u16,
    pub send_queue_size: u64,
    pub crypto_root: String,
    pub artifact_pool_root: String,
    pub pool_backend: PoolBackend,
    pub state_manager_root: String,
    pub http: HttpConfig,
    pub runtime: RuntimeFlags,
    pub log_level: LogLevel,
    pub https_outcalls_uds_path: Option<String>,
    pub bitcoin_testnet_uds_path: Option<String>,
    pub bitcoin_mainnet_uds_path: Option<String>,
}

pub open spec fn opt_view(o: Option<String>) -> Option<Seq<char>> {
    match o {
        None => None,
        Some(s) => Some(s@),
    }
}

/// Copies an optional string.
fn copy_opt(o: &Option<String>) -> (r: Option<String>)
    ensures
        opt_view(r) == opt_view(*o),
{
    match o {
        None => None,
        Some(s) => Some(s.clone()),
    }
}

pub open spec fn runtime_agree(a: RuntimeFlags, b: RuntimeFlags) -> bool {
    &&& a.canister_sandboxing == b.canister_sandboxing
    &&& a.canister_snapshots == b.canister_snapshots
    &&& a.rate_limiting_of_heap_delta == b.rate_limiting_of_heap_delta
    &&& a.rate_limiting_of_instructions == b.rate_limiting_of_instructions
    &&& a.rate_limiting_of_debug_prints == b.rate_limiting_of_debug_prints
    &&& a.best_effort_responses == b.best_effort_responses
    &&& a.wasm64 == b.wasm64
    &&& a.query_stats_epoch_length == b.query_stats_epoch_length
    &&& a.default_provisional_cycles_balance == b.default_provisional_cycles_balance
    &&& a.create_funds_whitelist@ == b.create_funds_whitelist@
}

/// Where the HTTPS-outcalls socket of node `i` is.
pub open spec fn https_outcalls_path_spec(s: AdapterSocket, base: Seq<char>, i: nat) -> Option<Seq<char>> {
    match s {
        AdapterSocket::Absent => None,
        AdapterSocket::InNodeDir => Some(https_outcalls_socket_spec(base, i)),
        AdapterSocket::At(p) => Some(p@),
    }
}

/// The configuration of node `i`, under the base directory `base`, whose
/// HTTP endpoint listens on `addr`.
pub open spec fn assembled(c: NodeConfig, cfg: ValidatedConfig, base: Seq<char>, i: nat, addr: SocketAddress) -> bool {
    &&& c.registry_local_store@ == registry_store_spec(base, i)
    &&& c.transport_port == cfg.settings.transport_port
    &&& c.send_queue_size == SEND_QUEUE_SIZE
    &&& c.crypto_root@ == crypto_root_spec(base, i)
    &&& c.artifact_pool_root@ == artifact_pool_spec(base, i)
    &&& c.pool_backend == match cfg.settings.pool_backend {
        None => PoolBackend::Lmdb,
        Some(b) => b,
    }
    &&& c.state_manager_root@ == state_manager_spec(base, i)
    &&& c.http.listen_addr == addr
    &&& opt_view(c.http.port_file) == opt_view(cfg.http_port_file)
    &&& c.http.limits == cfg.settings.http_limits
    &&& runtime_agree(c.runtime, cfg.settings.runtime)
    &&& c.runtime.deterministic_time_slicing == FlagStatus::Disabled
    &&& c.log_level == cfg.log_level
    &&& opt_view(c.https_outcalls_uds_path) == https_outcalls_path_spec(cfg.settings.https_outcalls, base, i)
    &&& opt_view(c.bitcoin_testnet_uds_path) == opt_view(cfg.settings.bitcoin_testnet_uds_path)
    &&& opt_view(c.bitcoin_mainnet_uds_path) == opt_view(cfg.settings.bitcoin_mainnet_uds_path)
}

/// Assembles the configuration of node `node_index`, whose state lives under
/// `base` and whose HTTP endpoint listens on `addr`. Deterministic time
/// slicing is off whatever the parameters ask.
pub fn assemble_node_config(cfg: &ValidatedConfig, base: &str, node_index: u64, addr: SocketAddress) -> (r: NodeConfig)
    ensures
        assembled(r, *cfg, base@, node_index as nat, addr),
{
    let paths = derive_paths(base, node_index);
    let rt = &cfg.settings.runtime;
    let runtime = RuntimeFlags {
        canister_sandboxing: rt.canister_sandboxing,
        deterministic_time_slicing: FlagStatus::Disabled,
        canister_snapshots: rt.canister_snapshots,
        rate_limiting_of_heap_delta: rt.rate_limiting_of_heap_delta,
        rate_limiting_of_instructions: rt.rate_limiting_of_instructions,
        rate_limiting_of_debug_prints: rt.rate_limiting_of_debug_prints,
        best_effort_responses: rt.best_effort_responses,
        wasm64: rt.wasm64,
        query_stats_epoch_length: rt.query_stats_epoch_length,
        default_provisional_cycles_balance: rt.default_provisional_cycles_balance,
        create_funds_whitelist: rt.create_funds_whitelist.clone(),
    };
    let https_outcalls_uds_path = match &cfg.settings.https_outcalls {
        AdapterSocket::Absent => None,
        AdapterSocket::InNodeDir => {
            let mut p = paths.node_root.clone();
            p.append("/https_outcalls");
            Some(p)
        },
        AdapterSocket::At(p) => Some(p.clone()),
    };
    let pool_backend = match cfg.settings.pool_backend {
        None => PoolBackend::Lmdb,
        Some(b) => b,
    };
    NodeConfig {
        registry_local_store: paths.registry_local_store,
        transport_port: cfg.settings.transport_port,
        send_queue_size: SEND_QUEUE_SIZE,
        crypto_root: paths.crypto_root,
        artifact_pool_root: paths.artifact_pool_root,
        pool_backend,
        state_manager_root: paths.state_manager_root,
        http: HttpConfig {
            listen_addr: addr,
            port_file: copy_opt(&cfg.http_port_file),
            limits: cfg.settings.http_limits,
        },
        runtime,
        log_level: cfg.log_level,
        https_outcalls_uds_path,
        bitcoin_testnet_uds_path: copy_opt(&cfg.settings.bitcoin_testnet_uds_path),
        bitcoin_mainnet_uds_path: copy_opt(&cfg.settings.bitcoin_mainnet_uds_path),
    }
}

pub open spec fn flag_json(f: FlagStatus) -> Seq<char> {
    match f {
        FlagStatus::Enabled => "\"enabled\""@,
        FlagStatus::Disabled => "\"disabled\""@,
    }
}

pub open spec fn backend_json(b: PoolBackend) -> Seq<char> {
    match b {
        PoolBackend::Lmdb => "\"lmdb\""@,
        PoolBackend::RocksDb => "\"rocksdb\""@,
    }
}

pub open spec fn level_json(l: LogLevel) -> Seq<char> {
    match l {
        LogLevel::Critical => "\"critical\""@,
        LogLevel::Error => "\"error\""@,
        LogLevel::Warning => "\"warning\""@,
        LogLevel::Info => "\"info\""@,
        LogLevel::Debug => "\"debug\""@,
        LogLevel::Trace => "\"trace\""@,
    }
}

/// A JSON string, or `null`.
pub open spec fn opt_json(o: Option<Seq<char>>) -> Seq<char> {
    match o {
        None => "null"@,
        Some(t) => json_quoted(t),
    }
}

/// An address as a JSON string; its text needs no escaping.
pub open spec fn addr_json(a: SocketAddress) -> Seq<char> {
    "\""@ + addr_text(a) + "\""@
}

/// The registry, transport and state-manager sections.
pub open spec fn storage_json(c: NodeConfig) -> Seq<char> {
    "{\"registry_client\":{\"local_store\":"@ + json_quoted(c.registry_local_store@)
        + "},\"transport\":{\"node_ip\":\"0.0.0.0\",\"listening_port\":"@ + dec(c.transport_port as nat)
        + ",\"send_queue_size\":"@ + dec(c.send_queue_size as nat)
        + "},\"state_manager\":{\"state_root\":"@ + json_quoted(c.state_manager_root@) + "},"@
}

/// The opening of the hypervisor section, up to its time-slicing field.
pub open spec fn hypervisor_head_json(c: NodeConfig) -> Seq<char> {
    "\"hypervisor\":{\"canister_sandboxing_flag\":"@ + flag_json(c.runtime.canister_sandboxing) + ","@
}

pub open spec fn time_slicing_key() -> Seq<char> {
    "\"deterministic_time_slicing\":"@
}

/// The rest of the hypervisor section, after its time-slicing field.
pub open spec fn hypervisor_tail_json(c: NodeConfig) -> Seq<char> {
    hypervisor_limits_json(c) + hypervisor_features_json(c)
}

pub open spec fn hypervisor_limits_json(c: NodeConfig) -> Seq<char> {
    ",\"canister_snapshots\":"@ + flag_json(c.runtime.canister_snapshots)
        + ",\"rate_limiting_of_heap_delta\":"@ + flag_json(c.runtime.rate_limiting_of_heap_delta)
        + ",\"rate_limiting_of_instructions\":"@ + flag_json(c.runtime.rate_limiting_of_instructions)
        + ",\"query_stats_epoch_length\":"@ + dec(c.runtime.query_stats_epoch_length as nat)
        + ",\"default_provisional_cycles_balance\":"@ + dec(c.runtime.default_provisional_cycles_balance as nat)
}

pub open spec fn hypervisor_features_json(c: NodeConfig) -> Seq<char> {
    ",\"create_funds_whitelist\":"@ + json_quoted(c.runtime.create_funds_whitelist@)
        + ",\"embedders_config\":{\"feature_flags\":{\"rate_limiting_of_debug_prints\":"@ + flag_json(c.runtime.rate_limiting_of_debug_prints)
        + ",\"best_effort_responses\":"@ + flag_json(c.runtime.best_effort_responses)
        + ",\"wasm64\":"@ + flag_json(c.runtime.wasm64) + "}}},"@
}

pub open spec fn http_json(c: NodeConfig) -> Seq<char> {
    http_head_json(c) + http_limits_json(c.http.limits)
}

pub open spec fn http_head_json(c: NodeConfig) -> Seq<char> {
    "\"http_handler\":{\"listen_addr\":"@ + addr_json(c.http.listen_addr)
        + ",\"port_file_path\":"@ + opt_json(opt_view(c.http.port_file))
}

pub open spec fn http_limits_json(l: HttpLimits) -> Seq<char> {
    ",\"http_max_concurrent_streams\":"@ + dec(l.max_concurrent_streams as nat)
        + ",\"max_status_concurrent_requests\":"@ + dec(l.max_status as nat)
        + ",\"max_read_state_concurrent_requests\":"@ + dec(l.max_read_state as nat)
        + ",\"max_catch_up_package_concurrent_requests\":"@ + dec(l.max_catch_up_package as nat)
        + ",\"max_dashboard_concurrent_requests\":"@ + dec(l.max_dashboard as nat)
        + ",\"max_call_concurrent_requests\":"@ + dec(l.max_call as nat)
        + ",\"max_query_concurrent_requests\":"@ + dec(l.max_query as nat)
        + ",\"max_pprof_concurrent_requests\":"@ + dec(l.max_pprof as nat) + "},"@
}

/// The artifact pool, crypto, logger and adapter sections, and the close.
pub open spec fn tail_json(c: NodeConfig) -> Seq<char> {
    "\"artifact_pool\":{\"consensus_pool_path\":"@ + json_quoted(c.artifact_pool_root@)
        + ",\"consensus_pool_backend\":"@ + backend_json(c.pool_backend)
        + "},\"crypto\":{\"crypto_root\":"@ + json_quoted(c.crypto_root@)
        + "},\"logger\":{\"level\":"@ + level_json(c.log_level)
        + "},\"adapters_config\":{\"bitcoin_testnet_uds_path\":"@ + opt_json(opt_view(c.bitcoin_testnet_uds_path))
        + ",\"bitcoin_mainnet_uds_path\":"@ + opt_json(opt_view(c.bitcoin_mainnet_uds_path))
        + ",\"https_outcalls_uds_path\":"@ + opt_json(opt_view(c.https_outcalls_uds_path)) + "}}"@
}

/// The JSON document of a node configuration.
pub open spec fn node_config_json(c: NodeConfig) -> Seq<char> {
    storage_json(c) + hypervisor_head_json(c) + time_slicing_key() + flag_json(c.runtime.deterministic_time_slicing)
        + hypervisor_tail_json(c) + http_json(c) + tail_json(c)
}

fn push_flag(s: &mut String, f: FlagStatus)
    ensures
        final(s)@ == old(s)@ + flag_json(f),
{
    match f {
        FlagStatus::Enabled => s.append("\"enabled\""),
        FlagStatus::Disabled => s.append("\"disabled\""),
    }
}

fn push_backend(s: &mut String, b: PoolBackend)
    ensures
        final(s)@ == old(s)@ + backend_json(b),
{
    match b {
        PoolBackend::Lmdb => s.append("\"lmdb\""),
        PoolBackend::RocksDb => s.append("\"rocksdb\""),
    }
}

fn push_level(s: &mut String, l: LogLevel)
    ensures
        final(s)@ == old(s)@ + level_json(l),
{
    match l {
        LogLevel::Critical => s.append("\"critical\""),
        LogLevel::Error => s.append("\"error\""),
        LogLevel::Warning => s.append("\"warning\""),
        LogLevel::Info => s.append("\"info\""),
        LogLevel::Debug => s.append("\"debug\""),
        LogLevel::Trace => s.append("\"trace\""),
    }
}

fn push_num(s: &mut String, n: u128)
    ensures
        final(s)@ == old(s)@ + dec(n as nat),
{
    s.append(decimal(n).as_str());
}

fn push_quoted(s: &mut String, t: &String)
    ensures
        final(s)@ == old(s)@ + json_quoted(t@),
{
    s.append(json_string(t.as_str()).as_str());
}

fn push_opt(s: &mut String, o: &Option<String>)
    ensures
        final(s)@ == old(s)@ + opt_json(opt_view(*o)),
{
    match o {
        None => s.append("null"),
        Some(t) => push_quoted(s, t),
    }
}

fn push_storage(s: &mut String, c: &NodeConfig)
    ensures
        final(s)@ == old(s)@ + storage_json(*c),
{
    s.append("{\"registry_client\":{\"local_store\":");
    push_quoted(s, &c.registry_local_store);
    s.append("},\"transport\":{\"node_ip\":\"0.0.0.0\",\"listening_port\":");
    push_num(s, c.transport_port as u128);
    s.append(",\"send_queue_size\":");
    push_num(s, c.send_queue_size as u128);
    s.append("},\"state_manager\":{\"state_root\":");
    push_quoted(s, &c.state_manager_root);
    s.append("},");
    assert(s@ =~= old(s)@ + storage_json(*c));
}

fn push_hypervisor_limits(s: &mut String, c: &NodeConfig)
    ensures
        final(s)@ == old(s)@ + hypervisor_limits_json(*c),
{
    s.append(",\"canister_snapshots\":");
    push_flag(s, c.runtime.canister_snapshots);
    s.append(",\"rate_limiting_of_heap_delta\":");
    push_flag(s, c.runtime.rate_limiting_of_heap_delta);
    s.append(",\"rate_limiting_of_instructions\":");
    push_flag(s, c.runtime.rate_limiting_of_instructions);
    s.append(",\"query_stats_epoch_length\":");
    push_num(s, c.runtime.query_stats_epoch_length as u128);
    s.append(",\"default_provisional_cycles_balance\":");
    push_num(s, c.runtime.default_provisional_cycles_balance);
    assert(s@ =~= old(s)@ + hypervisor_limits_json(*c));
}

fn push_hypervisor_features(s: &mut String, c: &NodeConfig)
    ensures
        final(s)@ == old(s)@ + hypervisor_features_json(*c),
{
    s.append(",\"create_funds_whitelist\":");
    push_quoted(s, &c.runtime.create_funds_whitelist);
    s.append(",\"embedders_config\":{\"feature_flags\":{\"rate_limiting_of_debug_prints\":");
    push_flag(s, c.runtime.rate_limiting_of_debug_prints);
    s.append(",\"best_effort_responses\":");
    push_flag(s, c.runtime.best_effort_responses);
    s.append(",\"wasm64\":");
    push_flag(s, c.runtime.wasm64);
    s.append("}}},");
    assert(s@ =~= old(s)@ + hypervisor_features_json(*c));
}

fn push_hypervisor(s: &mut String, c: &NodeConfig)
    ensures
        final(s)@ == old(s)@ + hypervisor_head_json(*c) + time_slicing_key() + flag_json(c.runtime.deterministic_time_slicing)
            + hypervisor_tail_json(*c),
{
    let ghost s0 = s@;
    s.append("\"hypervisor\":{\"canister_sandboxing_flag\":");
    push_flag(s, c.runtime.canister_sandboxing);
    s.append(",");
    s.append("\"deterministic_time_slicing\":");
    push_flag(s, c.runtime.deterministic_time_slicing);
    let ghost s1 = s@;
    assert(s1 =~= s0 + hypervisor_head_json(*c) + time_slicing_key() + flag_json(c.runtime.deterministic_time_slicing));
    push_hypervisor_limits(s, c);
    push_hypervisor_features(s, c);
    assert(s@ =~= s1 + hypervisor_tail_json(*c));
}

fn push_http_limits(s: &mut String, l: HttpLimits)
    ensures
        final(s)@ == old(s)@ + http_limits_json(l),
{
    s.append(",\"http_max_concurrent_streams\":");
    push_num(s, l.max_concurrent_streams as u128);
    s.append(",\"max_status_concurrent_requests\":");
    push_num(s, l.max_status as u128);
    s.append(",\"max_read_state_concurrent_requests\":");
    push_num(s, l.max_read_state as u128);
    s.append(",\"max_catch_up_package_concurrent_requests\":");
    push_num(s, l.max_catch_up_package as u128);
    s.append(",\"max_dashboard_concurrent_requests\":");
    push_num(s, l.max_dashboard as u128);
    s.append(",\"max_call_concurrent_requests\":");
    push_num(s, l.max_call as u128);
    s.append(",\"max_query_concurrent_requests\":");
    push_num(s, l.max_query as u128);
    s.append(",\"max_pprof_concurrent_requests\":");
    push_num(s, l.max_pprof as u128);
    s.append("},");
    assert(s@ =~= old(s)@ + http_limits_json(l));
}

fn push_http(s: &mut String, c: &NodeConfig)
    ensures
        final(s)@ == old(s)@ + http_json(*c),
{
    s.append("\"http_handler\":{\"listen_addr\":");
    s.append("\"");
    s.append(c.http.listen_addr.to_text().as_str());
    s.append("\"");
    s.append(",\"port_file_path\":");
    push_opt(s, &c.http.port_file);
    assert(s@ =~= old(s)@ + http_head_json(*c));
    push_http_limits(s, c.http.limits);
    assert(s@ =~= old(s)@ + http_json(*c));
}

fn push_tail(s: &mut String, c: &NodeConfig)
    ensures
        final(s)@ == old(s)@ + tail_json(*c),
{
    s.append("\"artifact_pool\":{\"consensus_pool_path\":");
    push_quoted(s, &c.artifact_pool_root);
    s.append(",\"consensus_pool_backend\":");
    push_backend(s, c.pool_backend);
    s.append("},\"crypto\":{\"crypto_root\":");
    push_quoted(s, &c.crypto_root);
    s.append("},\"logger\":{\"level\":");
    push_level(s, c.log_level);
    s.append("},\"adapters_config\":{\"bitcoin_testnet_uds_path\":");
    push_opt(s, &c.bitcoin_testnet_uds_path);
    s.append(",\"bitcoin_mainnet_uds_path\":");
    push_opt(s, &c.bitcoin_mainnet_uds_path);
    s.append(",\"https_outcalls_uds_path\":");
    push_opt(s, &c.https_outcalls_uds_path);
    s.append("}}");
    assert(s@ =~= old(s)@ + tail_json(*c));
}

impl NodeConfig {
    /// The configuration as one JSON document.
    pub fn to_json(&self) -> (r: String)
        ensures
            r@ == node_config_json(*self),
    {
        let mut s = String::new();
        push_storage(&mut s, self);
        push_hypervisor(&mut s, self);
        push_http(&mut s, self);
        push_tail(&mut s, self);
        assert(s@ =~= node_config_json(*self));
        s
    }
}

/// Assembles the configuration of a node and writes it as a JSON document.
pub fn node_config_document(cfg: &ValidatedConfig, base: &str, node_index: u64, addr: SocketAddress) -> (r: String)
    ensures
        exists|c: NodeConfig| assembled(c, *cfg, base@, node_index as nat, addr) && r@ == #[trigger] node_config_json(c),
{
    let c = assemble_node_config(cfg, base, node_index, addr);
    c.to_json()
}

pub open spec fn sockets_agree(a: AdapterSocket, b: AdapterSocket) -> bool {
    match (a, b) {
        (AdapterSocket::Absent, AdapterSocket::Absent) => true,
        (AdapterSocket::InNodeDir, AdapterSocket::InNodeDir) => true,
        (AdapterSocket::At(p), AdapterSocket::At(q)) => p@ == q@,
        _ => false,
    }
}

/// Two validated configurations that hold the same values for everything a
/// node configuration reads from.
pub open spec fn configs_agree(a: ValidatedConfig, b: ValidatedConfig) -> bool {
    &&& opt_view(a.http_port_file) == opt_view(b.http_port_file)
    &&& a.log_level == b.log_level
    &&& runtime_agree(a.settings.runtime, b.settings.runtime)
    &&& a.settings.http_limits == b.settings.http_limits
    &&& a.settings.transport_port == b.settings.transport_port
    &&& a.settings.pool_backend == b.settings.pool_backend
    &&& sockets_agree(a.settings.https_outcalls, b.settings.https_outcalls)
    &&& opt_view(a.settings.bitcoin_testnet_uds_path) == opt_view(b.settings.bitcoin_testnet_uds_path)
    &&& opt_view(a.settings.bitcoin_mainnet_uds_path) == opt_view(b.settings.bitcoin_mainnet_uds_path)
}

/// Assembling a node twice from the same input gives byte-identical
/// documents: the document depends on the values of the configuration, the
/// base directory, the node index and the address alone.
pub proof fn lemma_document_reproducible(
    cfg1: ValidatedConfig,
    cfg2: ValidatedConfig,
    base: Seq<char>,
    i: nat,
    addr: SocketAddress,
    c1: NodeConfig,
    c2: NodeConfig,
)
    requires
        configs_agree(cfg1, cfg2),
        assembled(c1, cfg1, base, i, addr),
        assembled(c2, cfg2, base, i, addr),
    ensures
        node_config_json(c1) == node_config_json(c2),
{
    assert(https_outcalls_path_spec(cfg1.settings.https_outcalls, base, i)
        == https_outcalls_path_spec(cfg2.settings.https_outcalls, base, i));
}

/// Every assembled document switches deterministic time slicing off,
/// whatever the parameters asked for.
pub proof fn lemma_time_slicing_disabled(cfg: ValidatedConfig, base: Seq<char>, i: nat, addr: SocketAddress, c: NodeConfig)
    requires
        assembled(c, cfg, base, i, addr),
    ensures
        c.runtime.deterministic_time_slicing == FlagStatus::Disabled,
        exists|pre: Seq<char>, post: Seq<char>|
            node_config_json(c) == #[trigger] (pre + "\"deterministic_time_slicing\":"@ + "\"disabled\""@ + post),
{
    let pre = storage_json(c) + hypervisor_head_json(c);
    let post = hypervisor_tail_json(c) + http_json(c) + tail_json(c);
    assert(node_config_json(c) =~= pre + "\"deterministic_time_slicing\":"@ + "\"disabled\""@ + post);
}

} // verus!
