//! A transformation pipeline organised as a directed acyclic graph (DAG) of typed nodes.
//!
//! Nodes are numbered in the order they were added; each is known by its typed name. The graph
//! algorithms are those of petgraph, run on a graph built from these plain values.
use vstd::prelude::*;
use crate::context_helpers::{NodeType, ContextError, parse_node_typed_name, build_connection_id, spec_parse_node_typed_name,
    spec_split_once, spec_connection_id};

verus! {

broadcast use vstd::std_specs::vec::group_vec_axioms;

/// The order that `petgraph::algo::toposort` gives the nodes of the graph of `n` nodes and of
/// these edges, added in this order, or the node of a cycle that it reports.
pub uninterp spec fn petgraph_toposort(n: nat, edges: Seq<(usize, usize)>) -> Result<Seq<usize>, usize>;

/// The number of weakly connected components that `petgraph::algo::connected_components`
/// counts in the graph of `n` nodes and of these edges.
pub uninterp spec fn petgraph_components(n: nat, edges: Seq<(usize, usize)>) -> nat;

/// `order` lists each of the `n` nodes once, each before its successors.
pub open spec fn is_topological_order(n: nat, edges: Seq<(usize, usize)>, order: Seq<usize>) -> bool {
    &&& order.len() == n
    &&& forall|k: int| 0 <= k < order.len() ==> #[trigger] order[k] < n
    &&& forall|k: int, l: int| 0 <= k < l < order.len() ==> order[k] != order[l]
    &&& forall|e: int, k: int, l: int|
        #![trigger edges[e], order[k], order[l]]
        0 <= e < edges.len() && 0 <= k < order.len() && 0 <= l < order.len()
            && order[k] == edges[e].0 && order[l] == edges[e].1 ==> k < l
}

/// Every edge joins two of the `n` nodes.
pub open spec fn edges_within(n: nat, edges: Seq<(usize, usize)>) -> bool {
    forall|e: int| 0 <= e < edges.len() ==> (#[trigger] edges[e]).0 < n && edges[e].1 < n
}

/// Sort the nodes of a graph topologically with `petgraph::algo::toposort`. As its documentation
/// states, the nodes come each before its successors, and a cycle is reported with one of its
/// nodes when no such order exists.
#[verifier::external_body]
fn toposort(n: usize, edges: &Vec<(usize, usize)>) -> (r: Result<Vec<usize>, usize>)
    requires edges_within(n as nat, edges@),
    ensures
        match petgraph_toposort(n as nat, edges@) {
            Ok(order) => r is Ok && r->Ok_0@ == order,
            Err(c) => r == Err::<Vec<usize>, usize>(c),
        },
        r is Ok ==> is_topological_order(n as nat, edges@, r->Ok_0@),
        r is Err ==> r->Err_0 < n && !(exists|order: Seq<usize>| is_topological_order(n as nat, edges@, order)),
{
    let mut graph = petgraph::graph::DiGraph::<(), ()>::new();
    for _ in 0..n {
        graph.add_node(());
    }
    for (tail, head) in edges.iter() {
        graph.add_edge(petgraph::graph::NodeIndex::new(*tail), petgraph::graph::NodeIndex::new(*head), ());
    }
    match petgraph::algo::toposort(&graph, None) {
        Ok(order) => Ok(order.iter().map(|i| i.index()).collect()),
        Err(cycle) => Err(cycle.node_id().index()),
    }
}

/// Count the weakly connected components of a graph with
/// `petgraph::algo::connected_components`.
#[verifier::external_body]
fn connected_components(n: usize, edges: &Vec<(usize, usize)>) -> (r: usize)
    requires edges_within(n as nat, edges@),
    ensures r == petgraph_components(n as nat, edges@),
{
    let mut graph = petgraph::graph::DiGraph::<(), ()>::new();
    for _ in 0..n {
        graph.add_node(());
    }
    for (tail, head) in edges.iter() {
        graph.add_edge(petgraph::graph::NodeIndex::new(*tail), petgraph::graph::NodeIndex::new(*head), ());
    }
    petgraph::algo::connected_components(&graph)
}

/// Errors related to a [`PipelineDag`].
#[derive(Debug)]
pub enum DagError {
    /// An operation on the graph failed for internal reasons.
    DagOperationFailed,
    GraphIsCyclic(String),
    UnconnectedGraphNodes,
    ConnectionBetweenUnknownNodes(String),
    EdgeEndpointNotFoundInKeyMapping,
    NodeNotFoundInKeyMapping,
    NoDataForNode(String),
    TransformationInstantiationFailed(String),
    TransformationRunFailed(String),
}

/// Mathematical model of a [`DagError`].
pub enum SpecDagError {
    DagOperationFailed,
    GraphIsCyclic(Seq<char>),
    UnconnectedGraphNodes,
    ConnectionBetweenUnknownNodes(Seq<char>),
    EdgeEndpointNotFoundInKeyMapping,
    NodeNotFoundInKeyMapping,
    NoDataForNode(Seq<char>),
    TransformationInstantiationFailed(Seq<char>),
    TransformationRunFailed(Seq<char>),
}

impl View for DagError {
    type V = SpecDagError;

    open spec fn view(&self) -> SpecDagError {
        match self {
            DagError::DagOperationFailed => SpecDagError::DagOperationFailed,
            DagError::GraphIsCyclic(s) => SpecDagError::GraphIsCyclic(s@),
            DagError::UnconnectedGraphNodes => SpecDagError::UnconnectedGraphNodes,
            DagError::ConnectionBetweenUnknownNodes(s) => SpecDagError::ConnectionBetweenUnknownNodes(s@),
            DagError::EdgeEndpointNotFoundInKeyMapping => SpecDagError::EdgeEndpointNotFoundInKeyMapping,
            DagError::NodeNotFoundInKeyMapping => SpecDagError::NodeNotFoundInKeyMapping,
            DagError::NoDataForNode(s) => SpecDagError::NoDataForNode(s@),
            DagError::TransformationInstantiationFailed(s) => SpecDagError::TransformationInstantiationFailed(s@),
            DagError::TransformationRunFailed(s) => SpecDagError::TransformationRunFailed(s@),
        }
    }
}

/// Human readable description of a DAG error.
pub open spec fn spec_dag_error_message(e: SpecDagError) -> Seq<char> {
    match e {
        SpecDagError::DagOperationFailed => "failed to operate on the pipeline graph"@,
        SpecDagError::GraphIsCyclic(n) => "a transformation pipeline graph cannot hold any cycle. Hint: "@ + n + " is part of a cycle."@,
        SpecDagError::UnconnectedGraphNodes => "all nodes of a transformation pipeline should be connected"@,
        SpecDagError::ConnectionBetweenUnknownNodes(n) => "connection between unknown nodes: "@ + n,
        SpecDagError::EdgeEndpointNotFoundInKeyMapping => "endpoint node not found in transformation graph key mapping"@,
        SpecDagError::NodeNotFoundInKeyMapping => "node not found in transformation graph key mapping"@,
        SpecDagError::NoDataForNode(n) => "no data associated to node: "@ + n,
        SpecDagError::TransformationInstantiationFailed(n) => "instantiation failed for transformation: "@ + n,
        SpecDagError::TransformationRunFailed(n) => "run failed for transformation: "@ + n,
    }
}

impl DagError {
    /// Human readable description of the error.
    pub fn message(&self) -> (r: String)
        ensures r@ == spec_dag_error_message(self@),
    {
        match self {
            DagError::DagOperationFailed => String::from_str("failed to operate on the pipeline graph"),
            DagError::GraphIsCyclic(n) => {
                let mut m = String::from_str("a transformation pipeline graph cannot hold any cycle. Hint: ");
                m.append(n.as_str());
                m.append(" is part of a cycle.");
                m
            },
            DagError::UnconnectedGraphNodes => String::from_str("all nodes of a transformation pipeline should be connected"),
            DagError::ConnectionBetweenUnknownNodes(n) => {
                let mut m = String::from_str("connection between unknown nodes: ");
                m.append(n.as_str());
                m
            },
            DagError::EdgeEndpointNotFoundInKeyMapping => String::from_str("endpoint node not found in transformation graph key mapping"),
            DagError::NodeNotFoundInKeyMapping => String::from_str("node not found in transformation graph key mapping"),
            DagError::NoDataForNode(n) => {
                let mut m = String::from_str("no data associated to node: ");
                m.append(n.as_str());
                m
            },
            DagError::TransformationInstantiationFailed(n) => {
                let mut m = String::from_str("instantiation failed for transformation: ");
                m.append(n.as_str());
                m
            },
            DagError::TransformationRunFailed(n) => {
                let mut m = String::from_str("run failed for transformation: ");
                m.append(n.as_str());
                m
            },
        }
    }
}

/// The typed names of a sequence of strings.
pub open spec fn view_names(names: Seq<String>) -> Seq<Seq<char>> {
    Seq::new(names.len(), |i: int| names[i]@)
}

/// The index a typed name is mapped to: the last node added under that name, or `-1`. A name
/// inserted again in the key mapping replaces the earlier pair.
pub open spec fn last_index_of(names: Seq<Seq<char>>, name: Seq<char>) -> int
    decreases names.len(),
{
    if names.len() == 0 {
        -1
    } else if names.last() == name {
        names.len() - 1
    } else {
        last_index_of(names.drop_last(), name)
    }
}

/// The typed name a node index is mapped to, if the key mapping still holds it.
pub open spec fn name_of(names: Seq<Seq<char>>, i: int) -> Option<Seq<char>> {
    if 0 <= i < names.len() && last_index_of(names, names[i]) == i { Some(names[i]) } else { None }
}

pub proof fn lemma_last_index_of(names: Seq<Seq<char>>, name: Seq<char>)
    ensures
        -1 <= last_index_of(names, name) < names.len(),
        last_index_of(names, name) >= 0 ==> names[last_index_of(names, name)] == name,
        last_index_of(names, name) == -1 ==> forall|k: int| 0 <= k < names.len() ==> names[k] != name,
        forall|k: int| last_index_of(names, name) < k < names.len() ==> names[k] != name,
    decreases names.len(),
{
    if names.len() > 0 && names.last() != name {
        lemma_last_index_of(names.drop_last(), name);
        assert forall|k: int| 0 <= k < names.len() - 1 implies #[trigger] names[k] == names.drop_last()[k] by {}
    }
}

/// The edges that the connections between typed names give, the first `k` of them; the first
/// unknown endpoint stops.
pub open spec fn spec_connect(names: Seq<Seq<char>>, connections: Seq<(Seq<char>, Seq<char>)>, k: nat)
    -> Result<Seq<(usize, usize)>, SpecDagError>
    decreases k,
{
    if k == 0 || k > connections.len() {
        Ok(Seq::empty())
    } else {
        match spec_connect(names, connections, (k - 1) as nat) {
            Err(e) => Err(e),
            Ok(prefix) => {
                let (tail, head) = connections[k - 1];
                if last_index_of(names, tail) < 0 {
                    Err(SpecDagError::ConnectionBetweenUnknownNodes(tail))
                } else if last_index_of(names, head) < 0 {
                    Err(SpecDagError::ConnectionBetweenUnknownNodes(head))
                } else {
                    Ok(prefix.push((last_index_of(names, tail) as usize, last_index_of(names, head) as usize)))
                }
            },
        }
    }
}

proof fn lemma_connect_err(names: Seq<Seq<char>>, connections: Seq<(Seq<char>, Seq<char>)>, k: nat, n: nat, e: SpecDagError)
    requires
        k <= n <= connections.len(),
        spec_connect(names, connections, k) == Err::<Seq<(usize, usize)>, SpecDagError>(e),
    ensures spec_connect(names, connections, n) == Err::<Seq<(usize, usize)>, SpecDagError>(e),
    decreases n,
{
    if k < n {
        lemma_connect_err(names, connections, k, (n - 1) as nat, e);
    }
}

/// A transformation pipeline as a directed graph: its nodes, numbered in the order they were
/// added and known by their typed names, and its edges, from tail to head.
pub struct PipelineDag {
    pub node_names: Vec<String>,
    pub edges: Vec<(usize, usize)>,
}

impl PipelineDag {
    /// Every edge joins two nodes of the graph.
    pub open spec fn well_formed(&self) -> bool {
        edges_within(self.node_names.len() as nat, self.edges@)
    }

    /// The typed names of the nodes.
    pub open spec fn names(&self) -> Seq<Seq<char>> {
        view_names(self.node_names@)
    }

    /// Build a pipeline graph from the typed names of its nodes, in the order they are added, and
    /// from its connections, as pairs of typed names from tail to head.
    pub fn from_parts(node_typed_names: Vec<String>, connections: &Vec<(String, String)>) -> (r: Result<PipelineDag, DagError>)
        ensures
            match spec_connect(view_names(node_typed_names@), Seq::new(connections.len() as nat, |i: int| (connections@[i].0@, connections@[i].1@)), connections.len() as nat) {
                Ok(edges) => r is Ok && r->Ok_0.node_names@ == node_typed_names@ && r->Ok_0.edges@ == edges && r->Ok_0.well_formed(),
                Err(e) => r is Err && r->Err_0@ == e,
            },
    {
        let ghost names = view_names(node_typed_names@);
        let ghost conns = Seq::new(connections.len() as nat, |i: int| (connections@[i].0@, connections@[i].1@));
        let mut edges: Vec<(usize, usize)> = Vec::new();
        let mut k: usize = 0;
        while k < connections.len()
            invariant
                k <= connections.len(),
                names == view_names(node_typed_names@),
                conns == Seq::new(connections.len() as nat, |i: int| (connections@[i].0@, connections@[i].1@)),
                spec_connect(names, conns, k as nat) == Ok::<Seq<(usize, usize)>, SpecDagError>(edges@),
                edges_within(node_typed_names.len() as nat, edges@),
            decreases connections.len() - k,
        {
            let (tail, head) = &connections[k];
            let tail_index = match index_of_name(&node_typed_names, tail.as_str()) {
                Some(t) => t,
                None => {
                    proof { lemma_connect_err(names, conns, (k + 1) as nat, conns.len(), SpecDagError::ConnectionBetweenUnknownNodes(tail@)); }
                    return Err(DagError::ConnectionBetweenUnknownNodes(tail.clone()));
                },
            };
            let head_index = match index_of_name(&node_typed_names, head.as_str()) {
                Some(h) => h,
                None => {
                    proof { lemma_connect_err(names, conns, (k + 1) as nat, conns.len(), SpecDagError::ConnectionBetweenUnknownNodes(head@)); }
                    return Err(DagError::ConnectionBetweenUnknownNodes(head.clone()));
                },
            };
            edges.push((tail_index, head_index));
            k = k + 1;
        }
        Ok(PipelineDag { node_names: node_typed_names, edges })
    }

    /// The typed name of a node.
    pub fn node_typed_name(&self, index: usize) -> (r: Result<&String, DagError>)
        ensures
            match name_of(self.names(), index as int) {
                Some(n) => r is Ok && r->Ok_0@ == n,
                None => r is Err && r->Err_0@ == SpecDagError::EdgeEndpointNotFoundInKeyMapping,
            },
    {
        if index >= self.node_names.len() {
            return Err(DagError::EdgeEndpointNotFoundInKeyMapping);
        }
        match index_of_name(&self.node_names, self.node_names[index].as_str()) {
            Some(i) => if i == index {
                Ok(&self.node_names[index])
            } else {
                Err(DagError::EdgeEndpointNotFoundInKeyMapping)
            },
            None => Err(DagError::EdgeEndpointNotFoundInKeyMapping),
        }
    }

    /// Check that the pipeline graph is healthy: acyclic, and made of one connected component. If
    /// it is, return its nodes in topological order.
    pub fn is_valid_pipeline(&self) -> (r: Result<Vec<usize>, DagError>)
        requires self.well_formed(),
        ensures
            match petgraph_toposort(self.node_names.len() as nat, self.edges@) {
                Err(c) => match name_of(self.names(), c as int) {
                    Some(n) => r is Err && r->Err_0@ == SpecDagError::GraphIsCyclic(n),
                    None => r is Err && r->Err_0@ == SpecDagError::DagOperationFailed,
                },
                Ok(order) => if petgraph_components(self.node_names.len() as nat, self.edges@) != 1 {
                    r is Err && r->Err_0@ == SpecDagError::UnconnectedGraphNodes
                } else {
                    r is Ok && r->Ok_0@ == order
                },
            },
            r is Ok ==> is_topological_order(self.node_names.len() as nat, self.edges@, r->Ok_0@)
                && petgraph_components(self.node_names.len() as nat, self.edges@) == 1,
    {
        let n = self.node_names.len();
        let sorted_nodes = match toposort(n, &self.edges) {
            Ok(stack) => stack,
            Err(node_id) => {
                // get the name of a node in a cycle
                let node_name = match self.node_typed_name(node_id) {
                    Ok(name) => name,
                    Err(_) => return Err(DagError::DagOperationFailed),
                };
                return Err(DagError::GraphIsCyclic(node_name.clone()));
            },
        };
        if connected_components(n, &self.edges) != 1 {
            return Err(DagError::UnconnectedGraphNodes);
        }
        Ok(sorted_nodes)
    }
}

/// The position of the last of some names equal to `name`.
fn index_of_name(names: &Vec<String>, name: &str) -> (r: Option<usize>)
    ensures
        match r {
            Some(i) => last_index_of(view_names(names@), name@) == i as int && i < names.len(),
            None => last_index_of(view_names(names@), name@) == -1,
        },
{
    let ghost ns = view_names(names@);
    let mut i: usize = names.len();
    proof { assert(ns.take(i as int) =~= ns); }
    while i > 0
        invariant
            i <= names.len(),
            ns == view_names(names@),
            last_index_of(ns, name@) == last_index_of(ns.take(i as int), name@),
        decreases i,
    {
        proof { assert(ns.take(i as int).drop_last() =~= ns.take(i - 1)); }
        if crate::values::str_eq(names[i - 1].as_str(), name) {
            return Some(i - 1);
        }
        i = i - 1;
    }
    proof { assert(ns.take(0) =~= Seq::<Seq<char>>::empty()); }
    None
}

/// The tails of the edges that end at a node, the edge added last coming first, as petgraph lists
/// the incoming edges of a node.
pub open spec fn spec_incoming_tails(edges: Seq<(usize, usize)>, node: usize) -> Seq<usize>
    decreases edges.len(),
{
    if edges.len() == 0 {
        Seq::empty()
    } else if edges.last().1 == node {
        seq![edges.last().0] + spec_incoming_tails(edges.drop_last(), node)
    } else {
        spec_incoming_tails(edges.drop_last(), node)
    }
}

/// Whether an edge starts at a node.
pub open spec fn spec_has_outgoing(edges: Seq<(usize, usize)>, node: usize) -> bool {
    exists|e: int| 0 <= e < edges.len() && (#[trigger] edges[e]).0 == node
}

/// What running a node of a pipeline takes, as decided from the graph.
pub struct NodeStep {
    /// The typed name of the node.
    pub typed_name: String,
    /// The type of the node, read from its typed name.
    pub node_type: NodeType,
    /// The name of the node, read from its typed name.
    pub node_name: String,
    /// The node has no incoming connection: it starts from its own data.
    pub reads_own_data: bool,
    /// The nodes its incoming connections come from, the connection added last first.
    pub incoming_tails: Vec<usize>,
}

/// Errors of a step of the run of a pipeline.
#[derive(Debug)]
pub enum RunError {
    Dag(DagError),
    NodeName(ContextError),
}

impl PipelineDag {
    /// The nodes that the incoming connections of a node come from, the connection added last
    /// first.
    pub fn incoming_tails(&self, node: usize) -> (r: Vec<usize>)
        ensures r@ == spec_incoming_tails(self.edges@, node),
    {
        let mut r: Vec<usize> = Vec::new();
        let mut k: usize = self.edges.len();
        proof { assert(self.edges@.take(k as int) =~= self.edges@); }
        while k > 0
            invariant
                k <= self.edges.len(),
                spec_incoming_tails(self.edges@, node) == r@ + spec_incoming_tails(self.edges@.take(k as int), node),
            decreases k,
        {
            proof { assert(self.edges@.take(k as int).drop_last() =~= self.edges@.take(k - 1)); }
            let (tail, head) = self.edges[k - 1];
            if head == node {
                proof { assert(r@ + (seq![tail] + spec_incoming_tails(self.edges@.take(k - 1), node)) =~= r@.push(tail) + spec_incoming_tails(self.edges@.take(k - 1), node)); }
                r.push(tail);
            }
            k = k - 1;
        }
        proof { assert(spec_incoming_tails(self.edges@.take(0), node) =~= Seq::<usize>::empty()); assert(r@ + Seq::<usize>::empty() =~= r@); }
        r
    }

    /// Whether a connection starts at a node.
    pub fn has_outgoing(&self, node: usize) -> (r: bool)
        ensures r == spec_has_outgoing(self.edges@, node),
    {
        let mut k: usize = 0;
        while k < self.edges.len()
            invariant
                k <= self.edges.len(),
                forall|e: int| 0 <= e < k ==> (#[trigger] self.edges@[e]).0 != node,
            decreases self.edges.len() - k,
        {
            if self.edges[k].0 == node {
                return true;
            }
            k = k + 1;
        }
        false
    }

    /// Whether running a node needs data of its own in the local context: it has outgoing
    /// connections and no incoming one.
    pub fn needs_own_data(&self, node: usize) -> (r: bool)
        ensures r == (spec_has_outgoing(self.edges@, node) && spec_incoming_tails(self.edges@, node).len() == 0),
    {
        self.has_outgoing(node) && self.incoming_tails(node).len() == 0
    }

    /// Decide how to run a node: find its typed name and read its type and name from it, check
    /// that a node that starts a pipeline has data (`has_data` tells whether the local context
    /// holds some for it), and list where its data comes from.
    pub fn run_step(&self, node: usize, has_data: bool) -> (r: Result<NodeStep, RunError>)
        ensures
            match name_of(self.names(), node as int) {
                None => r is Err && (r->Err_0 matches RunError::Dag(e) && e@ == SpecDagError::EdgeEndpointNotFoundInKeyMapping),
                Some(n) => match spec_parse_node_typed_name(n) {
                    Err(x) => r is Err && (r->Err_0 matches RunError::NodeName(e) && match e {
                        ContextError::InvalidTypedName(y) => spec_split_once(n, ':') is None && y@ == x,
                        ContextError::InvalidNodeType(y) => spec_split_once(n, ':') is Some && y@ == x,
                        _ => false,
                    }),
                    Ok((t, name)) => if spec_has_outgoing(self.edges@, node) && spec_incoming_tails(self.edges@, node).len() == 0 && !has_data {
                        r is Err && (r->Err_0 matches RunError::Dag(e) && e@ == SpecDagError::NoDataForNode(n))
                    } else {
                        r is Ok && r->Ok_0.typed_name@ == n && r->Ok_0.node_type == t && r->Ok_0.node_name@ == name
                            && r->Ok_0.reads_own_data == (spec_incoming_tails(self.edges@, node).len() == 0)
                            && r->Ok_0.incoming_tails@ == spec_incoming_tails(self.edges@, node)
                    },
                },
            },
    {
        let typed_name = match self.node_typed_name(node) {
            Ok(n) => n,
            Err(e) => return Err(RunError::Dag(e)),
        };
        let (node_type, node_name) = match parse_node_typed_name(typed_name.as_str()) {
            Ok(p) => p,
            Err(e) => return Err(RunError::NodeName(e)),
        };
        let incoming_tails = self.incoming_tails(node);
        if self.has_outgoing(node) && incoming_tails.len() == 0 && !has_data {
            return Err(RunError::Dag(DagError::NoDataForNode(typed_name.clone())));
        }
        Ok(NodeStep {
            typed_name: typed_name.clone(),
            node_type,
            node_name,
            reads_own_data: incoming_tails.len() == 0,
            incoming_tails,
        })
    }

    /// The typed name of the tail of a connection into a node, and the identifier of that
    /// connection, under which it is stored.
    pub fn incoming_connection_id(&self, tail: usize, head: usize) -> (r: Result<(String, String), DagError>)
        ensures
            match (name_of(self.names(), tail as int), name_of(self.names(), head as int)) {
                (Some(t), Some(h)) => r is Ok && r->Ok_0.0@ == t && r->Ok_0.1@ == spec_connection_id(t, h),
                _ => r is Err && r->Err_0@ == SpecDagError::EdgeEndpointNotFoundInKeyMapping,
            },
    {
        let tail_typed_name = self.node_typed_name(tail)?;
        let head_typed_name = self.node_typed_name(head)?;
        let id = build_connection_id(tail_typed_name.as_str(), head_typed_name.as_str());
        Ok((tail_typed_name.clone(), id))
    }
}

} // verus!
