//! The partition of nodes into subnets and the unassigned pool.
use vstd::prelude::*;
use crate::address::{SocketAddress, ipv4_text, is_ipv4_text, parse_ipv4};
use crate::params::ConfigError;
use crate::params::SubnetKind;
use crate::settings::ConsensusTiming;

verus! {

/// The addresses of one node and the subnet it joins, if any.
#[derive(Clone, Copy, Debug, PartialEq, Eq)]
pub struct NodeBinding {
    pub public_api: SocketAddress,
    pub xnet_api: SocketAddress,
    pub subnet: Option<u64>,
}

/// The tunables that every subnet of a deployment receives; `None` leaves
/// the registry's default for the subnet's kind.
#[derive(Clone, Copy, Debug, PartialEq, Eq, Structural)]
pub struct SubnetTunables {
    pub max_ingress_messages_per_block: Option<u64>,
    pub max_block_payload_size: Option<u64>,
    pub timing: ConsensusTiming,
    pub kind: SubnetKind,
    pub initial_height: Option<u64>,
}

/// A subnet: its index, its members keyed by node index in increasing order,
/// and its tunables.
#[derive(Clone, Debug, PartialEq, Eq)]
pub struct SubnetDescriptor {
    pub index: u64,
    pub members: Vec<(u64, NodeBinding)>,
    pub tunables: SubnetTunables,
}

/// All subnets in increasing order of index, and the nodes of none.
#[derive(Clone, Debug, PartialEq, Eq)]
pub struct Topology {
    pub subnets: Vec<SubnetDescriptor>,
    pub unassigned: Vec<(u64, NodeBinding)>,
}

/// The nodes among the first `n` bindings whose subnet is `target` (`None`:
/// the unassigned ones), each with its index `base + position`, in input
/// order.
pub open spec fn group(b: Seq<NodeBinding>, base: nat, target: Option<u64>, n: int) -> Seq<(u64, NodeBinding)>
    decreases n,
{
    if n <= 0 {
        Seq::empty()
    } else if b[n - 1].subnet == target {
        group(b, base, target, n - 1).push(((base + n - 1) as u64, b[n - 1]))
    } else {
        group(b, base, target, n - 1)
    }
}

/// Whether one of the first `n` bindings names subnet `s`.
pub open spec fn subnet_used(b: Seq<NodeBinding>, s: u64, n: int) -> bool {
    exists|k: int| 0 <= k < n && #[trigger] b[k].subnet == Some(s)
}

pub open spec fn strictly_increasing(v: Seq<u64>) -> bool {
    forall|i: int, j: int| 0 <= i < j < v.len() ==> v[i] < v[j]
}

pub open spec fn keys_increasing(v: Seq<(u64, NodeBinding)>) -> bool {
    forall|i: int, j: int| 0 <= i < j < v.len() ==> v[i].0 < v[j].0
}

/// The node indices fit in `u64`.
pub open spec fn indices_fit(b: Seq<NodeBinding>, base: nat) -> bool {
    base + b.len() <= u64::MAX as int + 1
}

/// The subnet indices that the bindings name, in increasing order.
pub fn used_subnets(bindings: &Vec<NodeBinding>) -> (r: Vec<u64>)
    ensures
        strictly_increasing(r@),
        forall|s: u64| subnet_used(bindings@, s, bindings@.len() as int) <==> r@.contains(s),
{
    let mut v: Vec<u64> = Vec::new();
    let mut k: usize = 0;
    while k < bindings.len()
        invariant
            k <= bindings.len(),
            strictly_increasing(v@),
            forall|s: u64| subnet_used(bindings@, s, k as int) <==> v@.contains(s),
        decreases bindings.len() - k,
    {
        let ghost old_v = v@;
        match bindings[k].subnet {
            None => {},
            Some(s) => {
                let mut j: usize = 0;
                while j < v.len() && v[j] < s
                    invariant
                        j <= v.len(),
                        v@ == old_v,
                        forall|i: int| 0 <= i < j ==> v@[i] < s,
                    decreases v.len() - j,
                {
                    j = j + 1;
                }
                if j == v.len() || v[j] != s {
                    v.insert(j, s);
                    assert forall|a: int, c: int| 0 <= a < c < v@.len() implies v@[a] < v@[c] by {
                        if c < j {
                        } else if a < j && c == j {
                        } else if a < j {
                            assert(v@[c] == old_v[c - 1]);
                            assert(old_v[j as int] > s || j == old_v.len());
                        } else if a == j {
                            assert(v@[c] == old_v[c - 1]);
                            assert(old_v[j as int] >= s);
                        } else {
                            assert(v@[a] == old_v[a - 1]);
                            assert(v@[c] == old_v[c - 1]);
                        }
                    }
                    assert forall|t: u64| old_v.contains(t) || t == s <==> v@.contains(t) by {
                        if old_v.contains(t) {
                            let i = choose|i: int| 0 <= i < old_v.len() && old_v[i] == t;
                            if i < j {
                                assert(v@[i] == t);
                            } else {
                                assert(v@[i + 1] == t);
                            }
                        }
                        if t == s {
                            assert(v@[j as int] == t);
                        }
                        if v@.contains(t) {
                            let i = choose|i: int| 0 <= i < v@.len() && v@[i] == t;
                            if i < j {
                                assert(old_v[i] == t);
                            } else if i > j {
                                assert(old_v[i - 1] == t);
                            }
                        }
                    }
                } else {
                    assert(v@[j as int] == s);
                    assert(old_v.contains(s));
                }
            },
        }
        assert(forall|t: u64| v@.contains(t) <==> (old_v.contains(t) || bindings@[k as int].subnet == Some(t)));
        assert forall|s: u64| subnet_used(bindings@, s, k + 1) <==> v@.contains(s) by {
            if subnet_used(bindings@, s, k + 1) {
                let i = choose|i: int| 0 <= i < k + 1 && #[trigger] bindings@[i].subnet == Some(s);
                if i < k {
                    assert(subnet_used(bindings@, s, k as int));
                }
            }
            if subnet_used(bindings@, s, k as int) {
                let i = choose|i: int| 0 <= i < k && #[trigger] bindings@[i].subnet == Some(s);
                assert(bindings@[i].subnet == Some(s));
            }
            if bindings@[k as int].subnet == Some(s) {
                assert(subnet_used(bindings@, s, k + 1));
            }
            if old_v.contains(s) {
                assert(subnet_used(bindings@, s, k as int));
                let i = choose|i: int| 0 <= i < k && #[trigger] bindings@[i].subnet == Some(s);
                assert(bindings@[i].subnet == Some(s));
            }
        }
        k = k + 1;
    }
    v
}

/// The nodes whose subnet is `target`, with their indices.
pub fn collect_group(bindings: &Vec<NodeBinding>, base: u64, target: Option<u64>) -> (r: Vec<(u64, NodeBinding)>)
    requires
        indices_fit(bindings@, base as nat),
    ensures
        r@ == group(bindings@, base as nat, target, bindings@.len() as int),
{
    let mut v: Vec<(u64, NodeBinding)> = Vec::new();
    let mut k: usize = 0;
    while k < bindings.len()
        invariant
            k <= bindings.len(),
            indices_fit(bindings@, base as nat),
            v@ == group(bindings@, base as nat, target, k as int),
        decreases bindings.len() - k,
    {
        let b = bindings[k];
        if b.subnet == target {
            v.push((base + k as u64, b));
        }
        k = k + 1;
    }
    v
}

/// `t` is the partition of the bindings: the unassigned group, then one
/// subnet, in increasing order of index, for each subnet index that some
/// binding names, holding its group.
pub open spec fn partition_of(t: Topology, b: Seq<NodeBinding>, base: nat, tunables: SubnetTunables) -> bool {
    &&& t.unassigned@ == group(b, base, None, b.len() as int)
    &&& forall|i: int, j: int| 0 <= i < j < t.subnets@.len() ==> t.subnets@[i].index < t.subnets@[j].index
    &&& forall|s: u64| subnet_used(b, s, b.len() as int)
        <==> exists|j: int| 0 <= j < t.subnets@.len() && #[trigger] t.subnets@[j].index == s
    &&& forall|j: int| 0 <= j < t.subnets@.len() ==> {
        &&& #[trigger] t.subnets@[j].members@ == group(b, base, Some(t.subnets@[j].index), b.len() as int)
        &&& t.subnets@[j].tunables == tunables
    }
}

/// Partitions the nodes: node `k` of the input gets the index `base + k`
/// and joins the subnet its binding names, or the unassigned pool. There is
/// one subnet for each subnet index that some binding names.
pub fn partition(bindings: &Vec<NodeBinding>, base: u64, tunables: SubnetTunables) -> (r: Topology)
    requires
        indices_fit(bindings@, base as nat),
    ensures
        partition_of(r, bindings@, base as nat, tunables),
{
    let ids = used_subnets(bindings);
    let mut subnets: Vec<SubnetDescriptor> = Vec::new();
    let mut j: usize = 0;
    while j < ids.len()
        invariant
            j <= ids.len(),
            indices_fit(bindings@, base as nat),
            subnets@.len() == j,
            forall|i: int| 0 <= i < j ==> {
                &&& (#[trigger] subnets@[i]).index == ids@[i]
                &&& subnets@[i].members@ == group(bindings@, base as nat, Some(ids@[i]), bindings@.len() as int)
                &&& subnets@[i].tunables == tunables
            },
        decreases ids.len() - j,
    {
        let s = ids[j];
        let members = collect_group(bindings, base, Some(s));
        subnets.push(SubnetDescriptor { index: s, members, tunables });
        j = j + 1;
    }
    let unassigned = collect_group(bindings, base, None);
    let r = Topology { subnets, unassigned };
    assert forall|s: u64| subnet_used(bindings@, s, bindings@.len() as int)
        <==> exists|j: int| 0 <= j < r.subnets@.len() && #[trigger] r.subnets@[j].index == s by {
        if ids@.contains(s) {
            let i = choose|i: int| 0 <= i < ids@.len() && ids@[i] == s;
            assert(r.subnets@[i].index == s);
        }
        if exists|j: int| 0 <= j < r.subnets@.len() && #[trigger] r.subnets@[j].index == s {
            let i = choose|i: int| 0 <= i < r.subnets@.len() && #[trigger] r.subnets@[i].index == s;
            assert(ids@[i] == s);
        }
    }
    r
}

/// What a group holds, for one target: increasing indices below
/// `base + n`, each the index of an input whose binding names the target,
/// and every such input.
proof fn lemma_group(b: Seq<NodeBinding>, base: nat, target: Option<u64>, n: int)
    requires
        indices_fit(b, base),
        0 <= n <= b.len(),
    ensures
        keys_increasing(group(b, base, target, n)),
        forall|p: int| 0 <= p < group(b, base, target, n).len() ==> {
            &&& base <= (#[trigger] group(b, base, target, n)[p]).0 < base + n
            &&& b[group(b, base, target, n)[p].0 - base].subnet == target
            &&& group(b, base, target, n)[p].1 == b[group(b, base, target, n)[p].0 - base]
        },
        forall|k: int| 0 <= k < n && #[trigger] b[k].subnet == target ==> group(b, base, target, n).contains(((base + k) as u64, b[k])),
    decreases n,
{
    if n > 0 {
        lemma_group(b, base, target, n - 1);
        let g = group(b, base, target, n - 1);
        if b[n - 1].subnet == target {
            let e = ((base + n - 1) as u64, b[n - 1]);
            assert(group(b, base, target, n) == g.push(e));
            assert forall|k: int| 0 <= k < n && #[trigger] b[k].subnet == target implies group(b, base, target, n).contains(((base + k) as u64, b[k])) by {
                if k < n - 1 {
                    let p = choose|p: int| 0 <= p < g.len() && g[p] == ((base + k) as u64, b[k]);
                    assert(g.push(e)[p] == g[p]);
                } else {
                    assert(g.push(e)[g.len() as int] == e);
                }
            }
        } else {
            assert forall|k: int| 0 <= k < n && #[trigger] b[k].subnet == target implies group(b, base, target, n).contains(((base + k) as u64, b[k])) by {
                assert(k < n - 1);
            }
        }
    }
}

/// Whether `e` is input node `k`, under its index `base + k`, for some `k`
/// whose binding names `target`.
pub open spec fn is_input_node(b: Seq<NodeBinding>, base: nat, target: Option<u64>, e: (u64, NodeBinding)) -> bool {
    exists|k: int| 0 <= k < b.len() && b[k].subnet == target && e == ((base + k) as u64, #[trigger] b[k])
}

/// The partition is exact: every input node stands, under its own index,
/// in the group that its binding names (a subnet, or the unassigned pool);
/// every member of every group is such a node; no index occurs twice in a
/// group; and no node's index occurs in any other group.
pub proof fn lemma_partition_exact(b: Seq<NodeBinding>, base: nat)
    requires
        indices_fit(b, base),
    ensures
        forall|k: int| 0 <= k < b.len() ==>
            #[trigger] group(b, base, b[k].subnet, b.len() as int).contains(((base + k) as u64, b[k])),
        forall|target: Option<u64>, p: int| 0 <= p < group(b, base, target, b.len() as int).len() ==>
            is_input_node(b, base, target, #[trigger] group(b, base, target, b.len() as int)[p]),
        forall|target: Option<u64>| keys_increasing(#[trigger] group(b, base, target, b.len() as int)),
        forall|k: int, target: Option<u64>, p: int|
            #![trigger group(b, base, target, b.len() as int)[p], b[k]]
            0 <= k < b.len() && target != b[k].subnet && 0 <= p < group(b, base, target, b.len() as int).len() ==>
                group(b, base, target, b.len() as int)[p].0 != (base + k) as u64,
{
    let n = b.len() as int;
    assert forall|k: int| 0 <= k < n implies #[trigger] group(b, base, b[k].subnet, n).contains(((base + k) as u64, b[k])) by {
        lemma_group(b, base, b[k].subnet, n);
    }
    assert forall|target: Option<u64>, p: int| 0 <= p < group(b, base, target, b.len() as int).len() implies
        is_input_node(b, base, target, #[trigger] group(b, base, target, b.len() as int)[p]) by {
        lemma_group(b, base, target, n);
        let e = group(b, base, target, b.len() as int)[p];
        let k = e.0 - base;
        assert(((base + k) as u64) == e.0);
        assert(0 <= k < b.len() && b[k].subnet == target);
        assert(group(b, base, target, b.len() as int)[p] == ((base + k) as u64, b[k]));
    }
    assert forall|target: Option<u64>| keys_increasing(#[trigger] group(b, base, target, n)) by {
        lemma_group(b, base, target, n);
    }
    assert forall|k: int, target: Option<u64>, p: int|
        #![trigger group(b, base, target, n)[p], b[k]]
        0 <= k < n && target != b[k].subnet && 0 <= p < group(b, base, target, n).len() implies
            group(b, base, target, n)[p].0 != (base + k) as u64 by {
        lemma_group(b, base, target, n);
    }
}

/// The pieces of `s` between the characters `c`, empty pieces included:
/// a text with `k` separators has `k + 1` pieces.
pub open spec fn tokens_of(s: Seq<char>, c: char) -> Seq<Seq<char>>
    decreases s.len(),
{
    if s.len() == 0 {
        seq![Seq::empty()]
    } else {
        let t = tokens_of(s.drop_last(), c);
        if s.last() == c {
            t.push(Seq::empty())
        } else {
            t.update(t.len() - 1, t.last().push(s.last()))
        }
    }
}

proof fn lemma_tokens_nonempty(s: Seq<char>, c: char)
    ensures
        tokens_of(s, c).len() >= 1,
    decreases s.len(),
{
    if s.len() > 0 {
        lemma_tokens_nonempty(s.drop_last(), c);
    }
}

/// The finished pieces of a prefix stay pieces of every longer prefix.
proof fn lemma_tokens_prefix(s: Seq<char>, c: char, m: int, n: int)
    requires
        0 <= m <= n <= s.len(),
    ensures
        tokens_of(s.take(m), c).len() <= tokens_of(s.take(n), c).len(),
        forall|j: int| 0 <= j < tokens_of(s.take(m), c).len() - 1 ==>
            #[trigger] tokens_of(s.take(m), c)[j] == tokens_of(s.take(n), c)[j],
    decreases n - m,
{
    if m < n {
        lemma_tokens_prefix(s, c, m, n - 1);
        lemma_tokens_nonempty(s.take(n - 1), c);
        assert(s.take(n).drop_last() =~= s.take(n - 1));
    }
}

/// Node `b` listens on the host that `tok` names, on the two given ports,
/// and joins `subnet`.
pub open spec fn binding_for(tok: Seq<char>, b: NodeBinding, api_port: u16, xnet_port: u16, subnet: Option<u64>) -> bool {
    &&& tok == ipv4_text(b.public_api.octets@[0], b.public_api.octets@[1], b.public_api.octets@[2], b.public_api.octets@[3])
    &&& b.public_api.port == api_port
    &&& b.xnet_api.octets == b.public_api.octets
    &&& b.xnet_api.port == xnet_port
    &&& b.subnet == subnet
}

/// Every subnet of a partition has at least one member.
pub proof fn lemma_subnets_nonempty(t: Topology, b: Seq<NodeBinding>, base: nat, tunables: SubnetTunables)
    requires
        indices_fit(b, base),
        partition_of(t, b, base, tunables),
    ensures
        forall|j: int| 0 <= j < t.subnets@.len() ==> (#[trigger] t.subnets@[j]).members@.len() > 0,
{
    assert forall|j: int| 0 <= j < t.subnets@.len() implies (#[trigger] t.subnets@[j]).members@.len() > 0 by {
        let s = t.subnets@[j].index;
        assert(subnet_used(b, s, b.len() as int));
        let k = choose|k: int| 0 <= k < b.len() && #[trigger] b[k].subnet == Some(s);
        lemma_group(b, base, Some(s), b.len() as int);
        assert(group(b, base, Some(s), b.len() as int).contains(((base + k) as u64, b[k])));
    }
}

/// One binding per host of a list of IPv4 hosts separated by single
/// spaces: the public API on `api_port`, the inter-node endpoint on
/// `xnet_port`, in `subnet`. An empty piece or a piece that is no address
/// is refused.
pub fn bindings_from_hosts(hosts: &str, api_port: u16, xnet_port: u16, subnet: Option<u64>) -> (r: Result<Vec<NodeBinding>, ConfigError>)
    ensures
        r is Ok <==> forall|j: int| 0 <= j < tokens_of(hosts@, ' ').len() ==> is_ipv4_text(#[trigger] tokens_of(hosts@, ' ')[j]),
        r matches Ok(v) ==> v@.len() == tokens_of(hosts@, ' ').len() && forall|j: int| 0 <= j < v@.len() ==>
            binding_for(tokens_of(hosts@, ' ')[j], #[trigger] v@[j], api_port, xnet_port, subnet),
        r is Err ==> r == Err::<Vec<NodeBinding>, ConfigError>(ConfigError::InvalidInput),
{
    let ghost s = hosts@;
    let n = hosts.unicode_len();
    let mut v: Vec<NodeBinding> = Vec::new();
    let ghost mut done: Seq<Seq<char>> = Seq::empty();
    let mut start: usize = 0;
    let mut i: usize = 0;
    assert(s.take(0) =~= Seq::<char>::empty());
    assert(s.subrange(0, 0) =~= Seq::<char>::empty());
    while i < n
        invariant
            n == s.len(),
            s == hosts@,
            start <= i <= n,
            tokens_of(s.take(i as int), ' ') == done + seq![s.subrange(start as int, i as int)],
            v@.len() == done.len(),
            forall|j: int| 0 <= j < done.len() ==> binding_for(done[j], #[trigger] v@[j], api_port, xnet_port, subnet),
        decreases n - i,
    {
        let ghost before = tokens_of(s.take(i as int), ' ');
        assert(s.take(i + 1).drop_last() =~= s.take(i as int));
        assert(s.take(i + 1).last() == s[i as int]);
        if hosts.get_char(i) == ' ' {
            assert(tokens_of(s.take(i + 1), ' ') == before.push(Seq::empty()));
            let tok = hosts.substring_char(start, i);
            match parse_ipv4(tok) {
                None => {
                    proof {
                        lemma_tokens_prefix(s, ' ', i + 1, n as int);
                        assert(s.take(n as int) =~= s);
                        assert(tokens_of(s.take(i + 1), ' ')[done.len() as int] == tok@);
                        assert(tokens_of(s, ' ')[done.len() as int] == tok@);
                    }
                    return Err(ConfigError::InvalidInput);
                },
                Some(o) => {
                    let a = SocketAddress { octets: o, port: api_port };
                    let x = SocketAddress { octets: o, port: xnet_port };
                    v.push(NodeBinding { public_api: a, xnet_api: x, subnet });
                    proof {
                        done = done.push(tok@);
                    }
                    start = i + 1;
                    assert(s.subrange(start as int, i + 1) =~= Seq::<char>::empty());
                    assert(tokens_of(s.take(i + 1), ' ') =~= done + seq![s.subrange(start as int, i + 1)]);
                },
            }
        } else {
            assert(tokens_of(s.take(i + 1), ' ') == before.update(before.len() - 1, before.last().push(s[i as int])));
            assert(s.subrange(start as int, i + 1) =~= s.subrange(start as int, i as int).push(s[i as int]));
            assert(tokens_of(s.take(i + 1), ' ') =~= done + seq![s.subrange(start as int, i + 1)]);
        }
        i = i + 1;
    }
    assert(s.take(n as int) =~= s);
    let tok = hosts.substring_char(start, n);
    match parse_ipv4(tok) {
        None => {
            assert(tokens_of(s, ' ')[done.len() as int] == tok@);
            Err(ConfigError::InvalidInput)
        },
        Some(o) => {
            let a = SocketAddress { octets: o, port: api_port };
            let x = SocketAddress { octets: o, port: xnet_port };
            v.push(NodeBinding { public_api: a, xnet_api: x, subnet });
            proof {
                done = done.push(tok@);
            }
            assert(done =~= tokens_of(s, ' '));
            assert forall|j: int| 0 <= j < tokens_of(hosts@, ' ').len() implies is_ipv4_text(#[trigger] tokens_of(hosts@, ' ')[j]) by {
                assert(binding_for(done[j], v@[j], api_port, xnet_port, subnet));
                let o = v@[j].public_api.octets@;
                assert(done[j] == ipv4_text(o[0], o[1], o[2], o[3]));
            }
            Ok(v)
        },
    }
}

} // verus!
