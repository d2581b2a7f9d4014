//! One deployment run: the configuration document of every node, the
//! topology, and the request to the registry initializer.
use vstd::prelude::*;
use crate::node_config::{
    assembled, configs_agree, lemma_document_reproducible, node_config_document, node_config_json,
    NodeConfig,
};
use crate::params::{
    validate, validated_from, validation_error, ConfigError, DirFacts, RawParams, SubnetKind,
    ValidatedConfig,
};
use crate::paths::{config_file_path, config_file_spec};
use crate::settings::{
    AdapterSocket, ConsensusTiming, FlagStatus, HttpLimits, NodeSettings, RuntimeFlags,
};
use crate::topology::{partition, partition_of, NodeBinding, SubnetTunables, Topology};

verus! {

/// The port of each node's public API in a cluster.
pub const PUBLIC_API_PORT: u16 = 4100;

/// The port of each node's inter-node endpoint in a cluster.
pub const XNET_PORT: u16 = 4101;

/// The index of the first node of a cluster.
pub const BASE_NODE_INDEX: u64 = 100;

/// The subnet that the nodes of a cluster join, which is also the root.
pub const ROOT_SUBNET: u64 = 0;

/// The most ingress messages in one block of a cluster subnet.
pub const CLUSTER_MAX_INGRESS_MESSAGES_PER_BLOCK: u64 = 5000;

/// The largest block payload of a cluster subnet: five times 4 MiB.
pub const CLUSTER_MAX_BLOCK_PAYLOAD_SIZE: u64 = 20971520;

/// The configuration document of one node, and where it goes.
#[derive(Clone, Debug, PartialEq, Eq)]
pub struct NodeDocument {
    pub node_index: u64,
    pub path: String,
    pub json: String,
}

/// The document of node `k` of the input.
pub open spec fn document_for(
    d: NodeDocument,
    cfg: ValidatedConfig,
    state_base: Seq<char>,
    config_dir: Seq<char>,
    base: nat,
    k: int,
    b: NodeBinding,
) -> bool {
    &&& d.node_index == base + k
    &&& d.path@ == config_file_spec(config_dir, (base + k) as nat)
    &&& exists|c: NodeConfig| assembled(c, cfg, state_base, (base + k) as nat, b.public_api)
        && d.json@ == #[trigger] node_config_json(c)
}

/// The documents of all nodes, in input order: node `k` gets the index
/// `base + k`, its state under `state_base`, its document in `config_dir`,
/// and its HTTP endpoint on its public API address.
pub fn node_documents(
    cfg: &ValidatedConfig,
    bindings: &Vec<NodeBinding>,
    state_base: &str,
    config_dir: &str,
    base: u64,
) -> (r: Vec<NodeDocument>)
    requires
        base + bindings@.len() <= u64::MAX as int + 1,
    ensures
        r@.len() == bindings@.len(),
        forall|k: int| 0 <= k < r@.len() ==>
            document_for(#[trigger] r@[k], *cfg, state_base@, config_dir@, base as nat, k, bindings@[k]),
{
    let mut r: Vec<NodeDocument> = Vec::new();
    let mut k: usize = 0;
    while k < bindings.len()
        invariant
            k <= bindings@.len(),
            base + bindings@.len() <= u64::MAX as int + 1,
            r@.len() == k,
            forall|j: int| 0 <= j < k ==>
                document_for(#[trigger] r@[j], *cfg, state_base@, config_dir@, base as nat, j, bindings@[j]),
        decreases bindings@.len() - k,
    {
        let node_index = base + k as u64;
        let addr = bindings[k].public_api;
        let json = node_config_document(cfg, state_base, node_index, addr);
        let path = config_file_path(config_dir, node_index);
        r.push(NodeDocument { node_index, path, json });
        k = k + 1;
    }
    r
}

/// Two runs on the same input write byte-identical documents: the document
/// of node `k` goes to the same file and holds the same text.
pub proof fn lemma_run_reproducible(
    cfg1: ValidatedConfig,
    cfg2: ValidatedConfig,
    state_base: Seq<char>,
    config_dir: Seq<char>,
    base: nat,
    k: int,
    b: NodeBinding,
    d1: NodeDocument,
    d2: NodeDocument,
)
    requires
        configs_agree(cfg1, cfg2),
        document_for(d1, cfg1, state_base, config_dir, base, k, b),
        document_for(d2, cfg2, state_base, config_dir, base, k, b),
    ensures
        d1.path@ == d2.path@,
        d1.json@ == d2.json@,
{
    let i = (base + k) as nat;
    let c1 = choose|c: NodeConfig| assembled(c, cfg1, state_base, i, b.public_api) && d1.json@ == #[trigger] node_config_json(c);
    let c2 = choose|c: NodeConfig| assembled(c, cfg2, state_base, i, b.public_api) && d2.json@ == #[trigger] node_config_json(c);
    lemma_document_reproducible(cfg1, cfg2, state_base, i, b.public_api, c1, c2);
}

/// Which principals may create canisters with provisional cycles.
#[derive(Clone, Copy, Debug, PartialEq, Eq, Structural)]
pub enum ProvisionalWhitelist {
    All,
    Nobody,
}

/// Everything the registry initializer receives.
#[derive(Clone, Debug, PartialEq, Eq)]
pub struct InitializerRequest {
    pub target_dir: String,
    pub topology: Topology,
    pub generate_subnet_records: bool,
    pub root_subnet: Option<u64>,
    pub whitelist: ProvisionalWhitelist,
    /// Keys granted read-only access to the unassigned nodes.
    pub ssh_readonly_access: Vec<String>,
    pub use_specified_ids_allocation_range: bool,
}

/// The request that initializes the registry of a topology in `target_dir`,
/// with subnet records, `root_subnet` as root, and nobody granted access to
/// the unassigned nodes.
pub fn initializer_request(
    target_dir: String,
    topology: Topology,
    root_subnet: u64,
    whitelist: ProvisionalWhitelist,
    cfg: &ValidatedConfig,
) -> (r: InitializerRequest)
    ensures
        r.target_dir == target_dir,
        r.topology == topology,
        r.generate_subnet_records,
        r.root_subnet == Some(root_subnet),
        r.whitelist == whitelist,
        r.ssh_readonly_access@.len() == 0,
        r.use_specified_ids_allocation_range == cfg.settings.use_specified_ids_allocation_range,
{
    InitializerRequest {
        target_dir,
        topology,
        generate_subnet_records: true,
        root_subnet: Some(root_subnet),
        whitelist,
        ssh_readonly_access: Vec::new(),
        use_specified_ids_allocation_range: cfg.settings.use_specified_ids_allocation_range,
    }
}

impl RuntimeFlags {
    /// The execution settings of a multi-node cluster: no sandboxing and no
    /// rate limiting, snapshots, best-effort responses and 64-bit memories on,
    /// every principal allowed to create funds, and 2^64 cycles for each new
    /// canister.
    pub fn cluster_defaults() -> (r: RuntimeFlags)
        ensures
            r.canister_sandboxing == FlagStatus::Disabled,
            r.deterministic_time_slicing == FlagStatus::Disabled,
            r.canister_snapshots == FlagStatus::Enabled,
            r.rate_limiting_of_heap_delta == FlagStatus::Disabled,
            r.rate_limiting_of_instructions == FlagStatus::Disabled,
            r.rate_limiting_of_debug_prints == FlagStatus::Disabled,
            r.best_effort_responses == FlagStatus::Enabled,
            r.wasm64 == FlagStatus::Enabled,
            r.query_stats_epoch_length == 60,
            r.default_provisional_cycles_balance == 18_446_744_073_709_551_616u128,
            r.create_funds_whitelist@ == "*"@,
    {
        RuntimeFlags {
            canister_sandboxing: FlagStatus::Disabled,
            deterministic_time_slicing: FlagStatus::Disabled,
            canister_snapshots: FlagStatus::Enabled,
            rate_limiting_of_heap_delta: FlagStatus::Disabled,
            rate_limiting_of_instructions: FlagStatus::Disabled,
            rate_limiting_of_debug_prints: FlagStatus::Disabled,
            best_effort_responses: FlagStatus::Enabled,
            wasm64: FlagStatus::Enabled,
            query_stats_epoch_length: 60,
            default_provisional_cycles_balance: 18_446_744_073_709_551_616u128,
            create_funds_whitelist: String::from_str("*"),
        }
    }
}

impl HttpLimits {
    pub open spec fn cluster_defaults_spec() -> HttpLimits {
        HttpLimits {
            max_concurrent_streams: 10000,
            max_status: 2000,
            max_read_state: 2000,
            max_catch_up_package: 2000,
            max_dashboard: 100,
            max_call: 5000,
            max_query: 5000,
            max_pprof: 5,
        }
    }

    /// The HTTP concurrency ceilings of a multi-node cluster.
    pub fn cluster_defaults() -> (r: HttpLimits)
        ensures
            r == HttpLimits::cluster_defaults_spec(),
    {
        HttpLimits {
            max_concurrent_streams: 10000,
            max_status: 2000,
            max_read_state: 2000,
            max_catch_up_package: 2000,
            max_dashboard: 100,
            max_call: 5000,
            max_query: 5000,
            max_pprof: 5,
        }
    }
}

impl NodeSettings {
    /// The node settings of a multi-node cluster: the transport on the
    /// public API port, the node's own HTTPS-outcalls socket, no bitcoin
    /// adapters, default timing, and nodes numbered from `BASE_NODE_INDEX`.
    pub fn cluster_defaults() -> (r: NodeSettings)
        ensures
            r.runtime.canister_sandboxing == FlagStatus::Disabled,
            r.runtime.create_funds_whitelist@ == "*"@,
            r.http_limits == HttpLimits::cluster_defaults_spec(),
            r.transport_port == PUBLIC_API_PORT,
            r.pool_backend is None,
            r.https_outcalls == AdapterSocket::InNodeDir,
            r.bitcoin_testnet_uds_path is None,
            r.bitcoin_mainnet_uds_path is None,
            r.timing == (ConsensusTiming { unit_delay_ms: None, initial_notary_delay_ms: None, dkg_interval_length: None }),
            r.base_node_index == BASE_NODE_INDEX,
            !r.use_specified_ids_allocation_range,
    {
        NodeSettings {
            runtime: RuntimeFlags::cluster_defaults(),
            http_limits: HttpLimits::cluster_defaults(),
            transport_port: PUBLIC_API_PORT,
            pool_backend: None,
            https_outcalls: AdapterSocket::InNodeDir,
            bitcoin_testnet_uds_path: None,
            bitcoin_mainnet_uds_path: None,
            timing: ConsensusTiming { unit_delay_ms: None, initial_notary_delay_ms: None, dkg_interval_length: None },
            base_node_index: BASE_NODE_INDEX,
            use_specified_ids_allocation_range: false,
        }
    }
}


impl RawParams {
    /// The parameters of a multi-node cluster of application subnets: no
    /// HTTP port choices (each node listens on its public API address), the
    /// default log level, and no threshold keys.
    pub fn cluster_defaults() -> (r: RawParams)
        ensures
            r.http_port is None,
            r.http_listen_addr is None,
            r.http_port_file is None,
            r.log_level is None,
            r.subnet_type matches Some(t) && t@ == "application"@,
            r.key_ids@.len() == 0,
            r.legacy_key_id is None,
            r.settings.base_node_index == BASE_NODE_INDEX,
            r.settings.transport_port == PUBLIC_API_PORT,
    {
        RawParams {
            http_port: None,
            http_listen_addr: None,
            http_port_file: None,
            log_level: None,
            subnet_type: Some(String::from_str("application")),
            key_ids: Vec::new(),
            legacy_key_id: None,
            settings: NodeSettings::cluster_defaults(),
        }
    }
}

impl SubnetTunables {
    pub open spec fn cluster_spec(kind: SubnetKind, timing: ConsensusTiming) -> SubnetTunables {
        SubnetTunables {
            max_ingress_messages_per_block: Some(CLUSTER_MAX_INGRESS_MESSAGES_PER_BLOCK),
            max_block_payload_size: Some(CLUSTER_MAX_BLOCK_PAYLOAD_SIZE),
            timing,
            kind,
            initial_height: Some(0),
        }
    }

    /// The subnet tunables of a cluster: larger blocks and more ingress
    /// messages per block than the registry's defaults, starting at height 0.
    pub fn cluster(kind: SubnetKind, timing: ConsensusTiming) -> (r: SubnetTunables)
        ensures
            r == SubnetTunables::cluster_spec(kind, timing),
    {
        SubnetTunables {
            max_ingress_messages_per_block: Some(CLUSTER_MAX_INGRESS_MESSAGES_PER_BLOCK),
            max_block_payload_size: Some(CLUSTER_MAX_BLOCK_PAYLOAD_SIZE),
            timing,
            kind,
            initial_height: Some(0),
        }
    }
}

/// Everything one run produces before it touches the disk.
#[derive(Clone, Debug, PartialEq, Eq)]
pub struct DeploymentPlan {
    pub config: ValidatedConfig,
    pub documents: Vec<NodeDocument>,
    pub request: InitializerRequest,
}

/// Plans a deployment: validates the parameters, then assembles the
/// document of every node and partitions the nodes into cluster subnets,
/// with `root_subnet` as the root of the registry in `target_dir`. Fails
/// exactly when validation does, with its error, before anything is built.
pub fn plan_deployment(
    raw: RawParams,
    dirs: DirFacts,
    bindings: &Vec<NodeBinding>,
    state_base: &str,
    config_dir: &str,
    target_dir: String,
    root_subnet: u64,
    whitelist: ProvisionalWhitelist,
) -> (r: Result<DeploymentPlan, ConfigError>)
    requires
        raw.settings.base_node_index + bindings@.len() <= u64::MAX as int + 1,
    ensures
        validation_error(raw, dirs) matches Some(e) ==> r == Err::<DeploymentPlan, ConfigError>(e),
        validation_error(raw, dirs) is None ==> r is Ok,
        r matches Ok(p) ==> {
            let base = raw.settings.base_node_index as nat;
            &&& validated_from(p.config, raw)
            &&& p.documents@.len() == bindings@.len()
            &&& forall|k: int| 0 <= k < p.documents@.len() ==>
                document_for(#[trigger] p.documents@[k], p.config, state_base@, config_dir@, base, k, bindings@[k])
            &&& partition_of(p.request.topology, bindings@, base,
                SubnetTunables::cluster_spec(p.config.subnet_kind, p.config.settings.timing))
            &&& p.request.target_dir == target_dir
            &&& p.request.generate_subnet_records
            &&& p.request.root_subnet == Some(root_subnet)
            &&& p.request.whitelist == whitelist
            &&& p.request.ssh_readonly_access@.len() == 0
            &&& p.request.use_specified_ids_allocation_range == raw.settings.use_specified_ids_allocation_range
        },
{
    let config = match validate(raw, dirs) {
        Ok(c) => c,
        Err(e) => {
            return Err(e);
        },
    };
    let base = config.settings.base_node_index;
    let documents = node_documents(&config, bindings, state_base, config_dir, base);
    let tunables = SubnetTunables::cluster(config.subnet_kind, config.settings.timing);
    let topology = partition(bindings, base, tunables);
    let request = initializer_request(target_dir, topology, root_subnet, whitelist, &config);
    Ok(DeploymentPlan { config, documents, request })
}

} // verus!
