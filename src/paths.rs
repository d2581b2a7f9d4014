//! The filesystem layout of a node, derived from a base directory and the
//! node's index.
use vstd::prelude::*;
use crate::text::{closes_number, dec, decimal, is_digit, lemma_dec_prefix_free};

verus! {

/// The directories and files of one node.
#[derive(Clone, Debug, PartialEq, Eq)]
pub struct NodePaths {
    pub state_root: String,
    pub node_root: String,
    pub crypto_root: String,
    pub artifact_pool_root: String,
    pub state_manager_root: String,
    pub registry_local_store: String,
}

/// `base/state-<i>`: everything the node keeps.
pub open spec fn state_root_spec(base: Seq<char>, i: nat) -> Seq<char> {
    base + "/state-"@ + dec(i)
}

/// `base/state-<i>/node-<i>`.
pub open spec fn node_root_spec(base: Seq<char>, i: nat) -> Seq<char> {
    state_root_spec(base, i) + "/node-"@ + dec(i)
}

/// The registry's local store, shared at the level of the state directory.
pub open spec fn registry_store_spec(base: Seq<char>, i: nat) -> Seq<char> {
    state_root_spec(base, i) + "/ic_registry_local_store"@
}

pub open spec fn crypto_root_spec(base: Seq<char>, i: nat) -> Seq<char> {
    node_root_spec(base, i) + "/crypto"@
}

pub open spec fn artifact_pool_spec(base: Seq<char>, i: nat) -> Seq<char> {
    node_root_spec(base, i) + "/ic_consensus_pool"@
}

pub open spec fn state_manager_spec(base: Seq<char>, i: nat) -> Seq<char> {
    node_root_spec(base, i) + "/state"@
}

/// The socket of the node's HTTPS-outcalls adapter, when it lives in the
/// node's directory.
pub open spec fn https_outcalls_socket_spec(base: Seq<char>, i: nat) -> Seq<char> {
    node_root_spec(base, i) + "/https_outcalls"@
}

/// Every path of node `i`, in the order of the fields of `NodePaths`, then
/// the adapter socket.
pub open spec fn node_path_list(base: Seq<char>, i: nat) -> Seq<Seq<char>> {
    seq![
        state_root_spec(base, i),
        node_root_spec(base, i),
        crypto_root_spec(base, i),
        artifact_pool_spec(base, i),
        state_manager_spec(base, i),
        registry_store_spec(base, i),
        https_outcalls_socket_spec(base, i),
    ]
}

pub open spec fn paths_match(p: NodePaths, base: Seq<char>, i: nat) -> bool {
    &&& p.state_root@ == state_root_spec(base, i)
    &&& p.node_root@ == node_root_spec(base, i)
    &&& p.crypto_root@ == crypto_root_spec(base, i)
    &&& p.artifact_pool_root@ == artifact_pool_spec(base, i)
    &&& p.state_manager_root@ == state_manager_spec(base, i)
    &&& p.registry_local_store@ == registry_store_spec(base, i)
}

/// The paths of node `node_index` under `base`. They are a function of the
/// two arguments alone.
pub fn derive_paths(base: &str, node_index: u64) -> (r: NodePaths)
    ensures
        paths_match(r, base@, node_index as nat),
{
    let d = decimal(node_index as u128);
    let mut state_root = String::from_str(base);
    state_root.append("/state-");
    state_root.append(d.as_str());
    let mut node_root = state_root.clone();
    node_root.append("/node-");
    node_root.append(d.as_str());
    let mut crypto_root = node_root.clone();
    crypto_root.append("/crypto");
    let mut artifact_pool_root = node_root.clone();
    artifact_pool_root.append("/ic_consensus_pool");
    let mut state_manager_root = node_root.clone();
    state_manager_root.append("/state");
    let mut registry_local_store = state_root.clone();
    registry_local_store.append("/ic_registry_local_store");
    NodePaths {
        state_root,
        node_root,
        crypto_root,
        artifact_pool_root,
        state_manager_root,
        registry_local_store,
    }
}

/// `dir/ic-<i>.json5`: the configuration document of node `i`.
pub open spec fn config_file_spec(dir: Seq<char>, i: nat) -> Seq<char> {
    dir + "/ic-"@ + dec(i) + ".json5"@
}

pub fn config_file_path(dir: &str, node_index: u64) -> (r: String)
    ensures
        r@ == config_file_spec(dir@, node_index as nat),
{
    let mut p = String::from_str(dir);
    p.append("/ic-");
    p.append(decimal(node_index as u128).as_str());
    p.append(".json5");
    p
}

/// `dir/subnet-<s>.json`: the exported description of subnet `s`.
pub open spec fn subnet_file_spec(dir: Seq<char>, s: nat) -> Seq<char> {
    dir + "/subnet-"@ + dec(s) + ".json"@
}

pub fn subnet_file_path(dir: &str, subnet_index: u64) -> (r: String)
    ensures
        r@ == subnet_file_spec(dir@, subnet_index as nat),
{
    let mut p = String::from_str(dir);
    p.append("/subnet-");
    p.append(decimal(subnet_index as u128).as_str());
    p.append(".json");
    p
}

/// Texts that share a prefix and continue with a number and a suffix that
/// cannot continue it are equal only for equal numbers.
proof fn lemma_numbered_distinct(pre: Seq<char>, i: nat, r1: Seq<char>, j: nat, r2: Seq<char>)
    requires
        pre + dec(i) + r1 == pre + dec(j) + r2,
        closes_number(r1),
        closes_number(r2),
    ensures
        i == j,
{
    let s = pre + dec(i) + r1;
    let n = pre.len() as int;
    assert(dec(i) + r1 =~= s.subrange(n, s.len() as int));
    assert(dec(j) + r2 =~= (pre + dec(j) + r2).subrange(n, s.len() as int));
    lemma_dec_prefix_free(i, j, r1, r2);
}

/// What follows `base/state-<i>` in the `k`th path of node `i`.
spec fn path_tail(i: nat, k: int) -> Seq<char> {
    if k == 0 {
        Seq::empty()
    } else if k == 1 {
        "/node-"@ + dec(i)
    } else if k == 2 {
        "/node-"@ + dec(i) + "/crypto"@
    } else if k == 3 {
        "/node-"@ + dec(i) + "/ic_consensus_pool"@
    } else if k == 4 {
        "/node-"@ + dec(i) + "/state"@
    } else if k == 5 {
        "/ic_registry_local_store"@
    } else {
        "/node-"@ + dec(i) + "/https_outcalls"@
    }
}

proof fn lemma_path_shape(base: Seq<char>, i: nat, k: int)
    requires
        0 <= k < 7,
    ensures
        node_path_list(base, i)[k] == base + "/state-"@ + dec(i) + path_tail(i, k),
        closes_number(path_tail(i, k)),
{
    reveal_strlit("/node-");
    reveal_strlit("/ic_registry_local_store");
    assert(!is_digit('/'));
    let p = base + "/state-"@ + dec(i);
    assert(node_path_list(base, i)[k] =~= p + path_tail(i, k));
    if k == 1 || k == 2 || k == 3 || k == 4 || k == 6 {
        assert(path_tail(i, k)[0] == '/');
    } else if k == 5 {
        assert(path_tail(i, k)[0] == '/');
    }
}

/// Nodes with different indices share no path: every path of one differs
/// from every path of the other, whatever the base directory.
pub proof fn lemma_node_paths_distinct(base: Seq<char>, i: nat, j: nat)
    requires
        i != j,
    ensures
        forall|k: int, l: int| 0 <= k < 7 && 0 <= l < 7 ==>
            #[trigger] node_path_list(base, i)[k] != #[trigger] node_path_list(base, j)[l],
{
    assert forall|k: int, l: int| 0 <= k < 7 && 0 <= l < 7 implies
        #[trigger] node_path_list(base, i)[k] != #[trigger] node_path_list(base, j)[l] by {
        lemma_path_shape(base, i, k);
        lemma_path_shape(base, j, l);
        if node_path_list(base, i)[k] == node_path_list(base, j)[l] {
            lemma_numbered_distinct(base + "/state-"@, i, path_tail(i, k), j, path_tail(j, l));
        }
    }
}

/// Nodes with different indices write different configuration documents.
pub proof fn lemma_config_files_distinct(dir: Seq<char>, i: nat, j: nat)
    requires
        i != j,
    ensures
        config_file_spec(dir, i) != config_file_spec(dir, j),
{
    reveal_strlit(".json5");
    assert(!is_digit('.'));
    assert(".json5"@[0] == '.');
    if config_file_spec(dir, i) == config_file_spec(dir, j) {
        lemma_numbered_distinct(dir + "/ic-"@, i, ".json5"@, j, ".json5"@);
    }
}

} // verus!
