//! Per-node runtime settings that the parameters carry through unchanged.
use vstd::prelude::*;

verus! {

/// Whether a runtime feature is on.
#[derive(Clone, Copy, Debug, PartialEq, Eq, Structural)]
pub enum FlagStatus {
    Enabled,
    Disabled,
}

/// The storage backend of a node's consensus artifact pool.
#[derive(Clone, Copy, Debug, PartialEq, Eq, Structural)]
pub enum PoolBackend {
    Lmdb,
    RocksDb,
}

/// Where a node's HTTPS-outcalls adapter socket lives, if it has one.
#[derive(Clone, Debug, PartialEq, Eq)]
pub enum AdapterSocket {
    /// No adapter.
    Absent,
    /// `https_outcalls` inside the node's own directory.
    InNodeDir,
    /// A path given by the operator.
    At(String),
}

/// Feature flags and limits of the execution environment.
#[derive(Clone, Debug, PartialEq, Eq)]
pub struct RuntimeFlags {
    pub canister_sandboxing: FlagStatus,
    /// Requested deterministic time slicing; the assembled configuration
    /// always turns it off.
    pub deterministic_time_slicing: FlagStatus,
    pub canister_snapshots: FlagStatus,
    pub rate_limiting_of_heap_delta: FlagStatus,
    pub rate_limiting_of_instructions: FlagStatus,
    pub rate_limiting_of_debug_prints: FlagStatus,
    pub best_effort_responses: FlagStatus,
    pub wasm64: FlagStatus,
    pub query_stats_epoch_length: u64,
    pub default_provisional_cycles_balance: u128,
    pub create_funds_whitelist: String,
}

/// Concurrency ceilings of the HTTP endpoint, per class of request.
#[derive(Clone, Copy, Debug, PartialEq, Eq, Structural)]
pub struct HttpLimits {
    pub max_concurrent_streams: u64,
    pub max_status: u64,
    pub max_read_state: u64,
    pub max_catch_up_package: u64,
    pub max_dashboard: u64,
    pub max_call: u64,
    pub max_query: u64,
    pub max_pprof: u64,
}

/// Optional overrides of consensus timing, handed to every subnet.
#[derive(Clone, Copy, Debug, PartialEq, Eq, Structural)]
pub struct ConsensusTiming {
    pub unit_delay_ms: Option<u64>,
    pub initial_notary_delay_ms: Option<u64>,
    pub dkg_interval_length: Option<u64>,
}

/// Everything that reaches the node configurations and the topology without
/// needing validation.
#[derive(Clone, Debug, PartialEq, Eq)]
pub struct NodeSettings {
    pub runtime: RuntimeFlags,
    pub http_limits: HttpLimits,
    /// The port on which the inter-node transport listens.
    pub transport_port: u16,
    /// `None` leaves the choice to the node, which takes LMDB.
    pub pool_backend: Option<PoolBackend>,
    pub https_outcalls: AdapterSocket,
    pub bitcoin_testnet_uds_path: Option<String>,
    pub bitcoin_mainnet_uds_path: Option<String>,
    pub timing: ConsensusTiming,
    /// The index of the first node.
    pub base_node_index: u64,
    pub use_specified_ids_allocation_range: bool,
}

} // verus!
