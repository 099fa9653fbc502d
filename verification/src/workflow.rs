use vstd::prelude::*;

verus! {

/// A node of the operator's reconciliation graph.
#[derive(Debug, Clone, Copy, PartialEq, Eq, Structural)]
pub enum WorkflowNode {
    Bootstrap,
    PruneKeys,
    PruneValidators,
    PruneFullnodes,
    FullnodeRpc,
    KeyValidator(usize),
    WorkloadValidator(usize),
    KeyFullnode(usize),
    WorkloadFullnode(usize),
    KeySponsor,
    Genesis,
    SeedPeers,
    KeyArchive,
    WorkloadArchive,
    MovePublish,
    WorkloadRelay,
    WorkloadCheckpointBlob,
    WorkloadIndexerAlt,
    WorkloadGraphql,
}

/// A node as it is added to the graph, with the nodes it waits for.
#[derive(Debug, Clone)]
pub struct GraphEntry {
    pub node: WorkflowNode,
    pub deps: Vec<WorkflowNode>,
}

/// How many nodes the graph of a network with `v` validators and `f`
/// fullnodes has.
pub open spec fn graph_len(v: nat, f: nat) -> nat {
    15 + 2 * v + 2 * f
}

/// The node added at position `i`: the bootstrap and prune nodes and the RPC
/// service, then each validator's key and workload, then each fullnode's key
/// and workload, then the shared nodes.
pub open spec fn node_at(v: nat, f: nat, i: int) -> WorkflowNode {
    let base = 5 + 2 * v + 2 * f;
    if i == 0 {
        WorkflowNode::Bootstrap
    } else if i == 1 {
        WorkflowNode::PruneKeys
    } else if i == 2 {
        WorkflowNode::PruneValidators
    } else if i == 3 {
        WorkflowNode::PruneFullnodes
    } else if i == 4 {
        WorkflowNode::FullnodeRpc
    } else if i < 5 + 2 * v {
        if (i - 5) % 2 == 0 {
            WorkflowNode::KeyValidator(((i - 5) / 2) as usize)
        } else {
            WorkflowNode::WorkloadValidator(((i - 5) / 2) as usize)
        }
    } else if i < base {
        if (i - 5 - 2 * v) % 2 == 0 {
            WorkflowNode::KeyFullnode(((i - 5 - 2 * v) / 2) as usize)
        } else {
            WorkflowNode::WorkloadFullnode(((i - 5 - 2 * v) / 2) as usize)
        }
    } else if i == base {
        WorkflowNode::KeySponsor
    } else if i == base + 1 {
        WorkflowNode::Genesis
    } else if i == base + 2 {
        WorkflowNode::SeedPeers
    } else if i == base + 3 {
        WorkflowNode::KeyArchive
    } else if i == base + 4 {
        WorkflowNode::WorkloadArchive
    } else if i == base + 5 {
        WorkflowNode::MovePublish
    } else if i == base + 6 {
        WorkflowNode::WorkloadRelay
    } else if i == base + 7 {
        WorkflowNode::WorkloadCheckpointBlob
    } else if i == base + 8 {
        WorkflowNode::WorkloadIndexerAlt
    } else {
        WorkflowNode::WorkloadGraphql
    }
}

/// The position at which a node is added.
pub open spec fn node_pos(v: nat, f: nat, n: WorkflowNode) -> int {
    let base = (5 + 2 * v + 2 * f) as int;
    match n {
        WorkflowNode::Bootstrap => 0int,
        WorkflowNode::PruneKeys => 1int,
        WorkflowNode::PruneValidators => 2int,
        WorkflowNode::PruneFullnodes => 3int,
        WorkflowNode::FullnodeRpc => 4int,
        WorkflowNode::KeyValidator(k) => 5 + 2 * k,
        WorkflowNode::WorkloadValidator(k) => 6 + 2 * k,
        WorkflowNode::KeyFullnode(k) => 5 + 2 * v + 2 * k,
        WorkflowNode::WorkloadFullnode(k) => 6 + 2 * v + 2 * k,
        WorkflowNode::KeySponsor => base,
        WorkflowNode::Genesis => base + 1,
        WorkflowNode::SeedPeers => base + 2,
        WorkflowNode::KeyArchive => base + 3,
        WorkflowNode::WorkloadArchive => base + 4,
        WorkflowNode::MovePublish => base + 5,
        WorkflowNode::WorkloadRelay => base + 6,
        WorkflowNode::WorkloadCheckpointBlob => base + 7,
        WorkflowNode::WorkloadIndexerAlt => base + 8,
        WorkflowNode::WorkloadGraphql => base + 9,
    }
}

/// Whether a node belongs to the graph of a network with `v` validators and
/// `f` fullnodes: its ordinal, where it has one, is in range.
pub open spec fn in_graph(v: nat, f: nat, n: WorkflowNode) -> bool {
    match n {
        WorkflowNode::KeyValidator(k) => k < v,
        WorkflowNode::WorkloadValidator(k) => k < v,
        WorkflowNode::KeyFullnode(k) => k < f,
        WorkflowNode::WorkloadFullnode(k) => k < f,
        _ => true,
    }
}

/// The nodes a node waits for.
pub open spec fn deps_of(v: nat, f: nat, n: WorkflowNode) -> Seq<WorkflowNode> {
    match n {
        WorkflowNode::Bootstrap => Seq::empty(),
        WorkflowNode::PruneKeys => seq![WorkflowNode::Bootstrap],
        WorkflowNode::PruneValidators => seq![WorkflowNode::Bootstrap],
        WorkflowNode::PruneFullnodes => seq![WorkflowNode::Bootstrap],
        WorkflowNode::FullnodeRpc => Seq::new(
            f,
            |k: int| WorkflowNode::WorkloadFullnode(k as usize),
        ).push(WorkflowNode::PruneFullnodes),
        WorkflowNode::KeyValidator(_) => seq![WorkflowNode::PruneKeys],
        WorkflowNode::WorkloadValidator(k) => seq![
            WorkflowNode::PruneValidators,
            WorkflowNode::KeyValidator(k),
            WorkflowNode::Genesis,
        ],
        WorkflowNode::KeyFullnode(_) => seq![WorkflowNode::PruneKeys],
        WorkflowNode::WorkloadFullnode(k) => seq![
            WorkflowNode::PruneFullnodes,
            WorkflowNode::KeyFullnode(k),
            WorkflowNode::SeedPeers,
            WorkflowNode::Genesis,
        ],
        WorkflowNode::KeySponsor => seq![WorkflowNode::Bootstrap],
        WorkflowNode::Genesis => Seq::new(v, |k: int| WorkflowNode::KeyValidator(k as usize)).push(
            WorkflowNode::KeySponsor,
        ),
        WorkflowNode::SeedPeers => seq![WorkflowNode::Genesis],
        WorkflowNode::KeyArchive => seq![WorkflowNode::Bootstrap],
        WorkflowNode::WorkloadArchive => seq![
            WorkflowNode::KeyArchive,
            WorkflowNode::SeedPeers,
            WorkflowNode::Genesis,
        ],
        WorkflowNode::MovePublish => seq![WorkflowNode::KeySponsor, WorkflowNode::FullnodeRpc],
        WorkflowNode::WorkloadRelay => seq![WorkflowNode::Genesis, WorkflowNode::MovePublish],
        WorkflowNode::WorkloadCheckpointBlob => seq![
            WorkflowNode::WorkloadArchive,
            WorkflowNode::Genesis,
        ],
        WorkflowNode::WorkloadIndexerAlt => seq![
            WorkflowNode::WorkloadArchive,
            WorkflowNode::Genesis,
        ],
        WorkflowNode::WorkloadGraphql => seq![WorkflowNode::WorkloadIndexerAlt],
    }
}

/// The depth of a node: the longest chain of nodes it waits for.
pub open spec fn node_rank(n: WorkflowNode) -> int {
    match n {
        WorkflowNode::Bootstrap => 0,
        WorkflowNode::PruneKeys => 1,
        WorkflowNode::PruneValidators => 1,
        WorkflowNode::PruneFullnodes => 1,
        WorkflowNode::KeySponsor => 1,
        WorkflowNode::KeyArchive => 1,
        WorkflowNode::KeyValidator(_) => 2,
        WorkflowNode::KeyFullnode(_) => 2,
        WorkflowNode::Genesis => 3,
        WorkflowNode::SeedPeers => 4,
        WorkflowNode::WorkloadValidator(_) => 4,
        WorkflowNode::WorkloadFullnode(_) => 5,
        WorkflowNode::WorkloadArchive => 5,
        WorkflowNode::FullnodeRpc => 6,
        WorkflowNode::WorkloadCheckpointBlob => 6,
        WorkflowNode::WorkloadIndexerAlt => 6,
        WorkflowNode::MovePublish => 7,
        WorkflowNode::WorkloadGraphql => 7,
        WorkflowNode::WorkloadRelay => 8,
    }
}

/// Law: every node waits for the nodes whose results it uses. The relay
/// reads the published Move package and the genesis; publishing needs the
/// sponsor's key and the fullnodes' RPC service, which needs every fullnode;
/// genesis needs every validator's key and the sponsor's key; each
/// validator and fullnode needs its own key and the genesis (a fullnode also
/// its seed peers); the archive, checkpoint and indexer workloads need the
/// genesis, the latter two also the archive; GraphQL needs the indexer.
pub proof fn lemma_nodes_wait_for_their_inputs(v: nat, f: nat, k: usize)
    ensures
        deps_of(v, f, WorkflowNode::WorkloadRelay).contains(WorkflowNode::MovePublish),
        deps_of(v, f, WorkflowNode::WorkloadRelay).contains(WorkflowNode::Genesis),
        deps_of(v, f, WorkflowNode::MovePublish).contains(WorkflowNode::KeySponsor),
        deps_of(v, f, WorkflowNode::MovePublish).contains(WorkflowNode::FullnodeRpc),
        k < f ==> deps_of(v, f, WorkflowNode::FullnodeRpc).contains(WorkflowNode::WorkloadFullnode(k)),
        k < v ==> deps_of(v, f, WorkflowNode::Genesis).contains(WorkflowNode::KeyValidator(k)),
        deps_of(v, f, WorkflowNode::Genesis).contains(WorkflowNode::KeySponsor),
        deps_of(v, f, WorkflowNode::WorkloadValidator(k)).contains(WorkflowNode::KeyValidator(k)),
        deps_of(v, f, WorkflowNode::WorkloadValidator(k)).contains(WorkflowNode::Genesis),
        deps_of(v, f, WorkflowNode::WorkloadFullnode(k)).contains(WorkflowNode::KeyFullnode(k)),
        deps_of(v, f, WorkflowNode::WorkloadFullnode(k)).contains(WorkflowNode::SeedPeers),
        deps_of(v, f, WorkflowNode::WorkloadFullnode(k)).contains(WorkflowNode::Genesis),
        deps_of(v, f, WorkflowNode::SeedPeers).contains(WorkflowNode::Genesis),
        deps_of(v, f, WorkflowNode::WorkloadArchive).contains(WorkflowNode::KeyArchive),
        deps_of(v, f, WorkflowNode::WorkloadArchive).contains(WorkflowNode::Genesis),
        deps_of(v, f, WorkflowNode::WorkloadCheckpointBlob).contains(WorkflowNode::WorkloadArchive),
        deps_of(v, f, WorkflowNode::WorkloadCheckpointBlob).contains(WorkflowNode::Genesis),
        deps_of(v, f, WorkflowNode::WorkloadIndexerAlt).contains(WorkflowNode::WorkloadArchive),
        deps_of(v, f, WorkflowNode::WorkloadIndexerAlt).contains(WorkflowNode::Genesis),
        deps_of(v, f, WorkflowNode::WorkloadGraphql).contains(WorkflowNode::WorkloadIndexerAlt),
{
    assert(deps_of(v, f, WorkflowNode::WorkloadRelay)[1] == WorkflowNode::MovePublish);
    assert(deps_of(v, f, WorkflowNode::WorkloadRelay)[0] == WorkflowNode::Genesis);
    assert(deps_of(v, f, WorkflowNode::MovePublish)[0] == WorkflowNode::KeySponsor);
    assert(deps_of(v, f, WorkflowNode::MovePublish)[1] == WorkflowNode::FullnodeRpc);
    if k < f {
        assert(deps_of(v, f, WorkflowNode::FullnodeRpc)[k as int] == WorkflowNode::WorkloadFullnode(k));
    }
    if k < v {
        assert(deps_of(v, f, WorkflowNode::Genesis)[k as int] == WorkflowNode::KeyValidator(k));
    }
    assert(deps_of(v, f, WorkflowNode::Genesis)[v as int] == WorkflowNode::KeySponsor);
    assert(deps_of(v, f, WorkflowNode::WorkloadValidator(k))[1] == WorkflowNode::KeyValidator(k));
    assert(deps_of(v, f, WorkflowNode::WorkloadValidator(k))[2] == WorkflowNode::Genesis);
    assert(deps_of(v, f, WorkflowNode::WorkloadFullnode(k))[1] == WorkflowNode::KeyFullnode(k));
    assert(deps_of(v, f, WorkflowNode::WorkloadFullnode(k))[2] == WorkflowNode::SeedPeers);
    assert(deps_of(v, f, WorkflowNode::WorkloadFullnode(k))[3] == WorkflowNode::Genesis);
    assert(deps_of(v, f, WorkflowNode::SeedPeers)[0] == WorkflowNode::Genesis);
    assert(deps_of(v, f, WorkflowNode::WorkloadArchive)[0] == WorkflowNode::KeyArchive);
    assert(deps_of(v, f, WorkflowNode::WorkloadArchive)[2] == WorkflowNode::Genesis);
    assert(deps_of(v, f, WorkflowNode::WorkloadCheckpointBlob)[0] == WorkflowNode::WorkloadArchive);
    assert(deps_of(v, f, WorkflowNode::WorkloadCheckpointBlob)[1] == WorkflowNode::Genesis);
    assert(deps_of(v, f, WorkflowNode::WorkloadIndexerAlt)[0] == WorkflowNode::WorkloadArchive);
    assert(deps_of(v, f, WorkflowNode::WorkloadIndexerAlt)[1] == WorkflowNode::Genesis);
    assert(deps_of(v, f, WorkflowNode::WorkloadGraphql)[0] == WorkflowNode::WorkloadIndexerAlt);
}

/// Each position holds the node that is added there, and that node's
/// position is the position.
pub proof fn lemma_node_at_pos(v: nat, f: nat, i: int)
    requires
        0 <= i < graph_len(v, f),
        graph_len(v, f) <= usize::MAX,
    ensures
        in_graph(v, f, node_at(v, f, i)),
        node_pos(v, f, node_at(v, f, i)) == i,
{
    if 5 <= i < 5 + 2 * v {
        assert(i - 5 == 2 * ((i - 5) / 2) + (i - 5) % 2);
    } else if 5 + 2 * v <= i < 5 + 2 * v + 2 * f {
        assert(i - 5 - 2 * v == 2 * ((i - 5 - 2 * v) / 2) + (i - 5 - 2 * v) % 2);
    }
}

/// Every node of the graph is added at its position.
pub proof fn lemma_pos_node_at(v: nat, f: nat, n: WorkflowNode)
    requires
        in_graph(v, f, n),
    ensures
        0 <= node_pos(v, f, n) < graph_len(v, f),
        node_at(v, f, node_pos(v, f, n)) == n,
{
}

/// No node is added twice.
pub proof fn lemma_graph_distinct(v: nat, f: nat, i: int, j: int)
    requires
        0 <= i < graph_len(v, f),
        0 <= j < graph_len(v, f),
        node_at(v, f, i) == node_at(v, f, j),
        graph_len(v, f) <= usize::MAX,
    ensures
        i == j,
{
    lemma_node_at_pos(v, f, i);
    lemma_node_at_pos(v, f, j);
}

/// Every node that a node of the graph waits for is a node of the graph, and
/// lies closer to the bootstrap node: the graph has no cycle.
pub proof fn lemma_deps_closed_acyclic(v: nat, f: nat, i: int, j: int)
    requires
        0 <= i < graph_len(v, f),
        0 <= j < deps_of(v, f, node_at(v, f, i)).len(),
        graph_len(v, f) <= usize::MAX,
    ensures
        in_graph(v, f, deps_of(v, f, node_at(v, f, i))[j]),
        node_at(v, f, node_pos(v, f, deps_of(v, f, node_at(v, f, i))[j]))
            == deps_of(v, f, node_at(v, f, i))[j],
        node_rank(deps_of(v, f, node_at(v, f, i))[j]) < node_rank(node_at(v, f, i)),
{
    lemma_node_at_pos(v, f, i);
    let d = deps_of(v, f, node_at(v, f, i))[j];
    assert(in_graph(v, f, d));
    lemma_pos_node_at(v, f, d);
}

fn push_dep(deps: &mut Vec<WorkflowNode>, n: WorkflowNode)
    ensures
        final(deps)@ == old(deps)@.push(n),
{
    deps.push(n);
}

/// The reconciliation graph of a network with `validator_count` validators
/// and `fullnode_count` fullnodes, in the order its nodes are added.
pub fn build_graph(validator_count: usize, fullnode_count: usize) -> (r: Vec<GraphEntry>)
    requires
        graph_len(validator_count as nat, fullnode_count as nat) <= usize::MAX,
    ensures
        r@.len() == graph_len(validator_count as nat, fullnode_count as nat),
        forall|i: int|
            0 <= i < r@.len() ==> (#[trigger] r@[i]).node == node_at(
                validator_count as nat,
                fullnode_count as nat,
                i,
            ) && r@[i].deps@ == deps_of(validator_count as nat, fullnode_count as nat, r@[i].node),
{
    let ghost v = validator_count as nat;
    let ghost f = fullnode_count as nat;
    let mut g: Vec<GraphEntry> = Vec::new();
    g.push(GraphEntry { node: WorkflowNode::Bootstrap, deps: Vec::new() });
    g.push(GraphEntry { node: WorkflowNode::PruneKeys, deps: vec![WorkflowNode::Bootstrap] });
    g.push(GraphEntry { node: WorkflowNode::PruneValidators, deps: vec![WorkflowNode::Bootstrap] });
    g.push(GraphEntry { node: WorkflowNode::PruneFullnodes, deps: vec![WorkflowNode::Bootstrap] });
    let mut rpc_deps: Vec<WorkflowNode> = Vec::new();
    for k in 0..fullnode_count
        invariant
            rpc_deps@ == Seq::new(k as nat, |o: int| WorkflowNode::WorkloadFullnode(o as usize)),
    {
        push_dep(&mut rpc_deps, WorkflowNode::WorkloadFullnode(k));
        assert(rpc_deps@ =~= Seq::new((k + 1) as nat, |o: int| WorkflowNode::WorkloadFullnode(o as usize)));
    }
    push_dep(&mut rpc_deps, WorkflowNode::PruneFullnodes);
    g.push(GraphEntry { node: WorkflowNode::FullnodeRpc, deps: rpc_deps });
    assert(g@.len() == 5);
    assert forall|i: int| 0 <= i < 5 implies (#[trigger] g@[i]).node == node_at(v, f, i)
        && g@[i].deps@ == deps_of(v, f, g@[i].node) by {
        if i == 4 {
            assert(g@[4].deps@ =~= deps_of(v, f, WorkflowNode::FullnodeRpc));
        }
    }
    for k in 0..validator_count
        invariant
            v == validator_count as nat,
            f == fullnode_count as nat,
            graph_len(v, f) <= usize::MAX,
            g@.len() == 5 + 2 * k,
            forall|i: int|
                0 <= i < g@.len() ==> (#[trigger] g@[i]).node == node_at(v, f, i) && g@[i].deps@
                    == deps_of(v, f, g@[i].node),
    {
        g.push(GraphEntry { node: WorkflowNode::KeyValidator(k), deps: vec![WorkflowNode::PruneKeys] });
        g.push(
            GraphEntry {
                node: WorkflowNode::WorkloadValidator(k),
                deps: vec![
                    WorkflowNode::PruneValidators,
                    WorkflowNode::KeyValidator(k),
                    WorkflowNode::Genesis,
                ],
            },
        );
        assert forall|i: int| 0 <= i < g@.len() implies (#[trigger] g@[i]).node == node_at(v, f, i)
            && g@[i].deps@ == deps_of(v, f, g@[i].node) by {
            if i == 5 + 2 * k {
                assert((i - 5) % 2 == 0 && (i - 5) / 2 == k);
                assert(g@[i].deps@ =~= deps_of(v, f, g@[i].node));
            } else if i == 6 + 2 * k {
                assert((i - 5) % 2 == 1 && (i - 5) / 2 == k);
                assert(g@[i].deps@ =~= deps_of(v, f, g@[i].node));
            }
        }
    }
    for k in 0..fullnode_count
        invariant
            v == validator_count as nat,
            f == fullnode_count as nat,
            graph_len(v, f) <= usize::MAX,
            g@.len() == 5 + 2 * v + 2 * k,
            forall|i: int|
                0 <= i < g@.len() ==> (#[trigger] g@[i]).node == node_at(v, f, i) && g@[i].deps@
                    == deps_of(v, f, g@[i].node),
    {
        g.push(GraphEntry { node: WorkflowNode::KeyFullnode(k), deps: vec![WorkflowNode::PruneKeys] });
        g.push(
            GraphEntry {
                node: WorkflowNode::WorkloadFullnode(k),
                deps: vec![
                    WorkflowNode::PruneFullnodes,
                    WorkflowNode::KeyFullnode(k),
                    WorkflowNode::SeedPeers,
                    WorkflowNode::Genesis,
                ],
            },
        );
        assert forall|i: int| 0 <= i < g@.len() implies (#[trigger] g@[i]).node == node_at(v, f, i)
            && g@[i].deps@ == deps_of(v, f, g@[i].node) by {
            if i == 5 + 2 * v + 2 * k {
                assert((i - 5 - 2 * v) % 2 == 0 && (i - 5 - 2 * v) / 2 == k);
                assert(g@[i].deps@ =~= deps_of(v, f, g@[i].node));
            } else if i == 6 + 2 * v + 2 * k {
                assert((i - 5 - 2 * v) % 2 == 1 && (i - 5 - 2 * v) / 2 == k);
                assert(g@[i].deps@ =~= deps_of(v, f, g@[i].node));
            }
        }
    }
    let mut genesis_deps: Vec<WorkflowNode> = Vec::new();
    for k in 0..validator_count
        invariant
            genesis_deps@ == Seq::new(k as nat, |o: int| WorkflowNode::KeyValidator(o as usize)),
    {
        push_dep(&mut genesis_deps, WorkflowNode::KeyValidator(k));
        assert(genesis_deps@ =~= Seq::new((k + 1) as nat, |o: int| WorkflowNode::KeyValidator(o as usize)));
    }
    push_dep(&mut genesis_deps, WorkflowNode::KeySponsor);
    let ghost before = g@;
    g.push(GraphEntry { node: WorkflowNode::KeySponsor, deps: vec![WorkflowNode::Bootstrap] });
    g.push(GraphEntry { node: WorkflowNode::Genesis, deps: genesis_deps });
    g.push(GraphEntry { node: WorkflowNode::SeedPeers, deps: vec![WorkflowNode::Genesis] });
    g.push(GraphEntry { node: WorkflowNode::KeyArchive, deps: vec![WorkflowNode::Bootstrap] });
    g.push(
        GraphEntry {
            node: WorkflowNode::WorkloadArchive,
            deps: vec![WorkflowNode::KeyArchive, WorkflowNode::SeedPeers, WorkflowNode::Genesis],
        },
    );
    g.push(
        GraphEntry {
            node: WorkflowNode::MovePublish,
            deps: vec![WorkflowNode::KeySponsor, WorkflowNode::FullnodeRpc],
        },
    );
    g.push(
        GraphEntry {
            node: WorkflowNode::WorkloadRelay,
            deps: vec![WorkflowNode::Genesis, WorkflowNode::MovePublish],
        },
    );
    g.push(
        GraphEntry {
            node: WorkflowNode::WorkloadCheckpointBlob,
            deps: vec![WorkflowNode::WorkloadArchive, WorkflowNode::Genesis],
        },
    );
    g.push(
        GraphEntry {
            node: WorkflowNode::WorkloadIndexerAlt,
            deps: vec![WorkflowNode::WorkloadArchive, WorkflowNode::Genesis],
        },
    );
    g.push(
        GraphEntry {
            node: WorkflowNode::WorkloadGraphql,
            deps: vec![WorkflowNode::WorkloadIndexerAlt],
        },
    );
    assert forall|i: int| 0 <= i < g@.len() implies (#[trigger] g@[i]).node == node_at(v, f, i)
        && g@[i].deps@ == deps_of(v, f, g@[i].node) by {
        if i < before.len() {
            assert(g@[i] == before[i]);
        } else {
            assert(g@[i].deps@ =~= deps_of(v, f, g@[i].node));
        }
    }
    g
}

} // verus!
