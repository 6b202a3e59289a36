//! The order of the passes within a frame: nodes, edges that say which node
//! runs before which, and the linear order that the edges leave.

use vstd::prelude::*;
use vstd::seq_lib::seq_to_set_is_finite;
use vstd::set_lib::{lemma_len_subset, lemma_subset_equality};

verus! {

/// The nodes of the frame graph that lighting is concerned with.
#[derive(Clone, Copy, Debug, PartialEq, Eq, Hash, Structural)]
pub enum FrameNode {
    /// The end of the scene's main color pass.
    EndMainPass,
    /// The distance field pass.
    SdfPass,
    /// The light map pass.
    LightMapPass,
    /// The compositing pass.
    LightingPass,
    /// The first of the post-processing effects that see lit pixels.
    Bloom,
}

/// An ordering constraint: `output_node` runs before `input_node`.
#[derive(Clone, Copy, Debug, PartialEq, Eq, Hash, Structural)]
pub struct Edge {
    pub output_node: FrameNode,
    pub input_node: FrameNode,
}

/// Why an edge could not be added.
#[derive(Clone, Copy, Debug, PartialEq, Eq, Structural)]
pub enum FrameGraphError {
    /// The graph has no such node.
    InvalidNode(FrameNode),
    /// The graph has that edge already.
    EdgeAlreadyExists(Edge),
}

/// A set of nodes with ordering constraints between them.
#[derive(Debug, PartialEq, Eq, Clone)]
pub struct FrameGraph {
    nodes: Vec<FrameNode>,
    edges: Vec<Edge>,
}

/// `first` stands before `second` in `order`.
pub open spec fn runs_before(order: Seq<FrameNode>, first: FrameNode, second: FrameNode) -> bool {
    exists|i: int, j: int| 0 <= i < j < order.len() && order[i] == first && order[j] == second
}

/// `order` holds each of `nodes` once and nothing else, and keeps to every
/// one of `edges`.
pub open spec fn is_linear_order(order: Seq<FrameNode>, nodes: Seq<FrameNode>, edges: Seq<Edge>) -> bool {
    &&& order.no_duplicates()
    &&& forall|node: FrameNode| #[trigger] order.contains(node) <==> nodes.contains(node)
    &&& forall|k: int|
        0 <= k < edges.len() ==> runs_before(
            order,
            (#[trigger] edges[k]).output_node,
            edges[k].input_node,
        )
}

/// Every node that has to run before `node` is among `placed`.
pub open spec fn is_ready(node: FrameNode, placed: Seq<FrameNode>, edges: Seq<Edge>) -> bool {
    forall|k: int|
        0 <= k < edges.len() && (#[trigger] edges[k]).input_node == node ==> placed.contains(
            edges[k].output_node,
        )
}

/// `node` is the first of `nodes` that is not among `placed` though every
/// node that has to run before it is.
pub open spec fn is_next(
    node: FrameNode,
    nodes: Seq<FrameNode>,
    placed: Seq<FrameNode>,
    edges: Seq<Edge>,
) -> bool {
    exists|at: int|
        {
            &&& 0 <= at < nodes.len()
            &&& #[trigger] nodes[at] == node
            &&& !placed.contains(node)
            &&& is_ready(node, placed, edges)
            &&& forall|i: int|
                0 <= i < at ==> placed.contains(#[trigger] nodes[i]) || !is_ready(
                    nodes[i],
                    placed,
                    edges,
                )
        }
}

/// Each node of `order` was, when the nodes before it had been placed, the
/// first of `nodes` that could be placed: among the nodes that are free to
/// run, the one that was added to the graph first runs first.
pub open spec fn placed_in_turn(order: Seq<FrameNode>, nodes: Seq<FrameNode>, edges: Seq<Edge>) -> bool {
    forall|j: int| 0 <= j < order.len() ==> is_next(#[trigger] order[j], nodes, order.take(j), edges)
}

/// In an order without repetitions, "runs before" is transitive.
pub proof fn lemma_runs_before_transitive(
    order: Seq<FrameNode>,
    first: FrameNode,
    second: FrameNode,
    third: FrameNode,
)
    requires
        order.no_duplicates(),
        runs_before(order, first, second),
        runs_before(order, second, third),
    ensures
        runs_before(order, first, third),
{
    let (i, j) = choose|i: int, j: int|
        0 <= i < j < order.len() && order[i] == first && order[j] == second;
    let (k, l) = choose|k: int, l: int|
        0 <= k < l < order.len() && order[k] == second && order[l] == third;
    assert(j == k);
    assert(0 <= i < l < order.len() && order[i] == first && order[l] == third);
}

/// In an order without repetitions, no node runs before itself, and of two
/// nodes only one runs before the other.
pub proof fn lemma_runs_before_asymmetric(order: Seq<FrameNode>, first: FrameNode, second: FrameNode)
    requires
        order.no_duplicates(),
        runs_before(order, first, second),
    ensures
        first != second,
        !runs_before(order, second, first),
{
    let (i, j) = choose|i: int, j: int|
        0 <= i < j < order.len() && order[i] == first && order[j] == second;
    if runs_before(order, second, first) {
        let (k, l) = choose|k: int, l: int|
            0 <= k < l < order.len() && order[k] == second && order[l] == first;
        assert(k == j && l == i);
    }
}

/// The nodes at the first `upto` places of a linear order are all placed,
/// when no node that is left is ready.
proof fn lemma_prefix_is_placed(
    nodes: Seq<FrameNode>,
    edges: Seq<Edge>,
    placed: Seq<FrameNode>,
    order: Seq<FrameNode>,
    upto: int,
)
    requires
        forall|i: int|
            0 <= i < nodes.len() ==> placed.contains(#[trigger] nodes[i]) || !is_ready(
                nodes[i],
                placed,
                edges,
            ),
        is_linear_order(order, nodes, edges),
        0 <= upto <= order.len(),
    ensures
        forall|i: int| 0 <= i < upto ==> placed.contains(#[trigger] order[i]),
    decreases upto,
{
    if upto > 0 {
        lemma_prefix_is_placed(nodes, edges, placed, order, upto - 1);
        let node = order[upto - 1];
        assert(order.contains(node));
        assert(nodes.contains(node));
        let at = choose|at: int| 0 <= at < nodes.len() && nodes[at] == node;
        assert forall|k: int|
            0 <= k < edges.len() && (#[trigger] edges[k]).input_node == node implies placed.contains(
            edges[k].output_node,
        ) by {
            assert(runs_before(order, edges[k].output_node, edges[k].input_node));
            let (i, j) = choose|i: int, j: int|
                0 <= i < j < order.len() && order[i] == edges[k].output_node && order[j]
                    == edges[k].input_node;
            assert(j == upto - 1);
            assert(placed.contains(order[i]));
        }
        assert(is_ready(nodes[at], placed, edges));
    }
}

/// Where some node is left and none of the nodes that are left is ready, the
/// edges leave no linear order.
proof fn lemma_stuck(
    nodes: Seq<FrameNode>,
    edges: Seq<Edge>,
    placed: Seq<FrameNode>,
    order: Seq<FrameNode>,
)
    requires
        nodes.no_duplicates(),
        placed.len() < nodes.len(),
        forall|i: int|
            0 <= i < nodes.len() ==> placed.contains(#[trigger] nodes[i]) || !is_ready(
                nodes[i],
                placed,
                edges,
            ),
    ensures
        !is_linear_order(order, nodes, edges),
{
    if is_linear_order(order, nodes, edges) {
        lemma_prefix_is_placed(nodes, edges, placed, order, order.len() as int);
        assert forall|node: FrameNode| nodes.to_set().contains(node) implies placed.to_set().contains(
            node,
        ) by {
            assert(order.contains(node));
            let i = choose|i: int| 0 <= i < order.len() && order[i] == node;
            assert(placed.contains(order[i]));
        }
        seq_to_set_is_finite(nodes);
        seq_to_set_is_finite(placed);
        lemma_len_subset(nodes.to_set(), placed.to_set());
        nodes.unique_seq_to_set();
        placed.lemma_cardinality_of_set();
    }
}

/// As many distinct nodes as the graph has, all of them of the graph, are
/// all the nodes of the graph.
proof fn lemma_all_placed(nodes: Seq<FrameNode>, placed: Seq<FrameNode>)
    requires
        nodes.no_duplicates(),
        placed.no_duplicates(),
        placed.len() == nodes.len(),
        forall|i: int| 0 <= i < placed.len() ==> nodes.contains(#[trigger] placed[i]),
    ensures
        forall|node: FrameNode| #[trigger] placed.contains(node) <==> nodes.contains(node),
{
    assert(placed.to_set().subset_of(nodes.to_set()));
    seq_to_set_is_finite(nodes);
    seq_to_set_is_finite(placed);
    nodes.unique_seq_to_set();
    placed.unique_seq_to_set();
    lemma_subset_equality(placed.to_set(), nodes.to_set());
    assert forall|node: FrameNode| #[trigger] placed.contains(node) <==> nodes.contains(node) by {
        assert(placed.to_set().contains(node) <==> nodes.to_set().contains(node));
    }
}

/// `chain` holds the two ends of `edge` at places `at` and `at + 1`.
pub open spec fn links(chain: Seq<FrameNode>, at: int, edge: Edge) -> bool {
    0 <= at < chain.len() - 1 && chain[at] == edge.output_node && chain[at + 1] == edge.input_node
}

/// `chain` holds the two ends of `edge` next to each other, in that order.
pub open spec fn chain_has_edge(chain: Seq<FrameNode>, edge: Edge) -> bool {
    exists|at: int| #[trigger] links(chain, at, edge)
}

/// Each node of `order` was ready when the nodes before it had been placed.
pub open spec fn placed_when_ready(order: Seq<FrameNode>, edges: Seq<Edge>) -> bool {
    forall|j: int| 0 <= j < order.len() ==> is_ready(#[trigger] order[j], order.take(j), edges)
}

/// The edges of a graph once `edge` was added: an edge that the graph has
/// already is not added again.
pub open spec fn with_edge(edges: Seq<Edge>, edge: Edge) -> Seq<Edge> {
    if edges.contains(edge) {
        edges
    } else {
        edges.push(edge)
    }
}

/// The edges of a graph once each node of `chain` was tied to the next one,
/// from the first pair to the last.
pub open spec fn with_chain(edges: Seq<Edge>, chain: Seq<FrameNode>) -> Seq<Edge>
    decreases chain.len(),
{
    if chain.len() < 2 {
        edges
    } else {
        with_edge(
            with_chain(edges, chain.drop_last()),
            Edge { output_node: chain[chain.len() - 2], input_node: chain.last() },
        )
    }
}

/// The first node of `chain` that is not among `nodes`.
pub open spec fn first_missing(nodes: Seq<FrameNode>, chain: Seq<FrameNode>) -> Option<FrameNode>
    decreases chain.len(),
{
    if chain.len() == 0 {
        None
    } else if first_missing(nodes, chain.drop_last()).is_some() {
        first_missing(nodes, chain.drop_last())
    } else if nodes.contains(chain.last()) {
        None
    } else {
        Some(chain.last())
    }
}

/// Nothing is missing if and only if every node of the chain is there; and
/// what is missing is of the chain and not among the nodes.
pub proof fn lemma_first_missing(nodes: Seq<FrameNode>, chain: Seq<FrameNode>)
    ensures
        first_missing(nodes, chain).is_none() <==> forall|i: int|
            0 <= i < chain.len() ==> nodes.contains(#[trigger] chain[i]),
        first_missing(nodes, chain) matches Some(node) ==> chain.contains(node) && !nodes.contains(
            node,
        ),
    decreases chain.len(),
{
    if chain.len() > 0 {
        let rest = chain.drop_last();
        lemma_first_missing(nodes, rest);
        if first_missing(nodes, rest).is_some() {
            let node = first_missing(nodes, rest).unwrap();
            let i = choose|i: int| 0 <= i < rest.len() && rest[i] == node;
            assert(chain[i] == node);
            if forall|i: int| 0 <= i < chain.len() ==> nodes.contains(#[trigger] chain[i]) {
                assert forall|i: int| 0 <= i < rest.len() implies nodes.contains(
                    #[trigger] rest[i],
                ) by {
                    assert(rest[i] == chain[i]);
                }
            }
        } else {
            assert forall|i: int| 0 <= i < chain.len() && nodes.contains(
                chain.last(),
            ) implies nodes.contains(#[trigger] chain[i]) by {
                if i < rest.len() {
                    assert(rest[i] == chain[i]);
                }
            }
            assert(chain[chain.len() - 1] == chain.last());
        }
    }
}

/// What is missing from the beginning of a chain is missing from the chain.
proof fn lemma_first_missing_of_prefix(nodes: Seq<FrameNode>, chain: Seq<FrameNode>, upto: int)
    requires
        0 <= upto <= chain.len(),
        first_missing(nodes, chain.take(upto)).is_some(),
    ensures
        first_missing(nodes, chain) == first_missing(nodes, chain.take(upto)),
    decreases chain.len() - upto,
{
    if upto < chain.len() {
        assert(chain.take(upto + 1).drop_last() =~= chain.take(upto));
        lemma_first_missing_of_prefix(nodes, chain, upto + 1);
    } else {
        assert(chain.take(upto) =~= chain);
    }
}

/// Tying a chain in adds the edges between its neighbours and no others.
pub proof fn lemma_with_chain(edges: Seq<Edge>, chain: Seq<FrameNode>, edge: Edge)
    ensures
        with_chain(edges, chain).contains(edge) <==> edges.contains(edge) || chain_has_edge(
            chain,
            edge,
        ),
    decreases chain.len(),
{
    if chain.len() < 2 {
        assert forall|at: int| !#[trigger] links(chain, at, edge) by {}
    } else {
        let rest = chain.drop_last();
        let last = Edge { output_node: chain[chain.len() - 2], input_node: chain.last() };
        lemma_with_chain(edges, rest, edge);
        lemma_push_contains(with_chain(edges, rest), last, edge);
        assert(rest =~= chain.take(chain.len() - 1));
        assert(chain =~= chain.take(chain.len() as int));
        lemma_chain_grows(chain, chain.len() - 2, edge);
    }
}

/// A chain that is one node longer has one more edge.
proof fn lemma_chain_grows(chain: Seq<FrameNode>, i: int, edge: Edge)
    requires
        0 <= i < chain.len() - 1,
    ensures
        chain_has_edge(chain.take(i + 2), edge) <==> chain_has_edge(chain.take(i + 1), edge) || edge
            == (Edge { output_node: chain[i], input_node: chain[i + 1] }),
{
    let shorter = chain.take(i + 1);
    let longer = chain.take(i + 2);
    if chain_has_edge(longer, edge) {
        let at = choose|at: int| #[trigger] links(longer, at, edge);
        if at < i {
            assert(links(shorter, at, edge));
        }
    }
    if chain_has_edge(shorter, edge) {
        let at = choose|at: int| #[trigger] links(shorter, at, edge);
        assert(links(longer, at, edge));
    }
    if edge == (Edge { output_node: chain[i], input_node: chain[i + 1] }) {
        assert(links(longer, i, edge));
    }
}

/// What a sequence holds once something was pushed.
proof fn lemma_push_contains<A>(before: Seq<A>, pushed: A, any: A)
    ensures
        before.push(pushed).contains(any) <==> before.contains(any) || any == pushed,
{
    let after = before.push(pushed);
    if after.contains(any) {
        let i = choose|i: int| 0 <= i < after.len() && after[i] == any;
        if i < before.len() {
            assert(before[i] == any);
        }
    }
    if before.contains(any) {
        let i = choose|i: int| 0 <= i < before.len() && before[i] == any;
        assert(after[i] == any);
    }
    if any == pushed {
        assert(after[before.len() as int] == any);
    }
}

/// Placing the next node keeps the order one in which each node was placed
/// in its turn.
proof fn lemma_place_next(
    before: Seq<FrameNode>,
    node: FrameNode,
    nodes: Seq<FrameNode>,
    edges: Seq<Edge>,
)
    requires
        placed_in_turn(before, nodes, edges),
        is_next(node, nodes, before, edges),
    ensures
        placed_in_turn(before.push(node), nodes, edges),
{
    let after = before.push(node);
    assert forall|j: int| 0 <= j < after.len() implies is_next(
        #[trigger] after[j],
        nodes,
        after.take(j),
        edges,
    ) by {
        if j < before.len() {
            assert(after.take(j) =~= before.take(j));
            assert(after[j] == before[j]);
        } else {
            assert(after.take(j) =~= before);
        }
    }
}

/// A node that was placed in its turn was ready when it was placed.
proof fn lemma_in_turn_is_ready(order: Seq<FrameNode>, nodes: Seq<FrameNode>, edges: Seq<Edge>)
    requires
        placed_in_turn(order, nodes, edges),
    ensures
        placed_when_ready(order, edges),
{
    assert forall|j: int| 0 <= j < order.len() implies is_ready(
        #[trigger] order[j],
        order.take(j),
        edges,
    ) by {
        assert(is_next(order[j], nodes, order.take(j), edges));
    }
}

/// An order that holds as many distinct nodes as the graph has, each placed
/// when it was ready, is a linear order of the graph.
proof fn lemma_placed_is_linear_order(nodes: Seq<FrameNode>, edges: Seq<Edge>, order: Seq<FrameNode>)
    requires
        nodes.no_duplicates(),
        order.no_duplicates(),
        order.len() == nodes.len(),
        forall|i: int| 0 <= i < order.len() ==> nodes.contains(#[trigger] order[i]),
        forall|k: int| 0 <= k < edges.len() ==> nodes.contains((#[trigger] edges[k]).input_node),
        placed_when_ready(order, edges),
    ensures
        is_linear_order(order, nodes, edges),
{
    lemma_all_placed(nodes, order);
    assert forall|k: int| 0 <= k < edges.len() implies runs_before(
        order,
        (#[trigger] edges[k]).output_node,
        edges[k].input_node,
    ) by {
        assert(nodes.contains(edges[k].input_node));
        assert(order.contains(edges[k].input_node));
        let j = choose|j: int| 0 <= j < order.len() && order[j] == edges[k].input_node;
        assert(is_ready(order[j], order.take(j), edges));
        assert(order.take(j).contains(edges[k].output_node));
        let i = choose|i: int|
            0 <= i < order.take(j).len() && order.take(j)[i] == edges[k].output_node;
        assert(0 <= i < j < order.len() && order[i] == edges[k].output_node && order[j]
            == edges[k].input_node);
    }
}

/// Whether `node` is among `nodes`.
fn contains_node(nodes: &Vec<FrameNode>, node: FrameNode) -> (found: bool)
    ensures
        found == nodes@.contains(node),
{
    let mut i: usize = 0;
    while i < nodes.len()
        invariant
            i <= nodes.len(),
            forall|j: int| 0 <= j < i ==> nodes@[j] != node,
        decreases nodes.len() - i,
    {
        if nodes[i] == node {
            return true;
        }
        i += 1;
    }
    false
}

/// Whether `edge` is among `edges`.
fn contains_edge(edges: &Vec<Edge>, edge: Edge) -> (found: bool)
    ensures
        found == edges@.contains(edge),
{
    let mut i: usize = 0;
    while i < edges.len()
        invariant
            i <= edges.len(),
            forall|j: int| 0 <= j < i ==> edges@[j] != edge,
        decreases edges.len() - i,
    {
        if edges[i] == edge {
            return true;
        }
        i += 1;
    }
    false
}

impl FrameGraph {
    /// No node and no edge is held twice, and every edge joins two nodes of
    /// the graph.
    pub open spec fn well_formed(&self) -> bool {
        &&& self.nodes().no_duplicates()
        &&& self.edges().no_duplicates()
        &&& forall|k: int|
            0 <= k < self.edges().len() ==> self.nodes().contains(
                (#[trigger] self.edges()[k]).output_node,
            ) && self.nodes().contains(self.edges()[k].input_node)
    }

    /// The nodes, in the order in which they were added.
    pub closed spec fn nodes(&self) -> Seq<FrameNode> {
        self.nodes@
    }

    /// The edges, in the order in which they were added.
    pub closed spec fn edges(&self) -> Seq<Edge> {
        self.edges@
    }

    /// A graph without nodes.
    pub fn new() -> (graph: Self)
        ensures
            graph.well_formed(),
            graph.nodes() == Seq::<FrameNode>::empty(),
            graph.edges() == Seq::<Edge>::empty(),
    {
        FrameGraph { nodes: Vec::new(), edges: Vec::new() }
    }

    /// Whether the graph has the node.
    pub fn has_node(&self, node: FrameNode) -> (found: bool)
        ensures
            found == self.nodes().contains(node),
    {
        contains_node(&self.nodes, node)
    }

    /// Whether the graph says that `output_node` runs before `input_node`.
    pub fn has_node_edge(&self, output_node: FrameNode, input_node: FrameNode) -> (found: bool)
        ensures
            found == self.edges().contains(Edge { output_node, input_node }),
    {
        contains_edge(&self.edges, Edge { output_node, input_node })
    }

    /// Adds a node. A node that the graph has already is not added again.
    pub fn add_node(&mut self, node: FrameNode)
        requires
            old(self).well_formed(),
        ensures
            final(self).well_formed(),
            final(self).nodes() == if old(self).nodes().contains(node) {
                old(self).nodes()
            } else {
                old(self).nodes().push(node)
            },
            final(self).edges() == old(self).edges(),
    {
        if !contains_node(&self.nodes, node) {
            let ghost before = self.nodes@;
            self.nodes.push(node);
            proof {
                assert forall|k: int| 0 <= k < self.edges@.len() implies self.nodes@.contains(
                    (#[trigger] self.edges@[k]).output_node,
                ) && self.nodes@.contains(self.edges@[k].input_node) by {
                    let i = choose|i: int|
                        0 <= i < before.len() && before[i] == self.edges@[k].output_node;
                    assert(self.nodes@[i] == self.edges@[k].output_node);
                    let j = choose|j: int|
                        0 <= j < before.len() && before[j] == self.edges@[k].input_node;
                    assert(self.nodes@[j] == self.edges@[k].input_node);
                }
            }
        }
    }

    /// Says that `output_node` runs before `input_node`. Both have to be
    /// nodes of the graph, and the edge has to be new.
    pub fn try_add_node_edge(&mut self, output_node: FrameNode, input_node: FrameNode) -> (result:
        Result<(), FrameGraphError>)
        requires
            old(self).well_formed(),
        ensures
            final(self).well_formed(),
            final(self).nodes() == old(self).nodes(),
            result == if !old(self).nodes().contains(output_node) {
                Err::<(), FrameGraphError>(FrameGraphError::InvalidNode(output_node))
            } else if !old(self).nodes().contains(input_node) {
                Err(FrameGraphError::InvalidNode(input_node))
            } else if old(self).edges().contains(Edge { output_node, input_node }) {
                Err(FrameGraphError::EdgeAlreadyExists(Edge { output_node, input_node }))
            } else {
                Ok(())
            },
            final(self).edges() == if result.is_ok() {
                old(self).edges().push(Edge { output_node, input_node })
            } else {
                old(self).edges()
            },
    {
        if !contains_node(&self.nodes, output_node) {
            return Err(FrameGraphError::InvalidNode(output_node));
        }
        if !contains_node(&self.nodes, input_node) {
            return Err(FrameGraphError::InvalidNode(input_node));
        }
        let edge = Edge { output_node, input_node };
        if contains_edge(&self.edges, edge) {
            return Err(FrameGraphError::EdgeAlreadyExists(edge));
        }
        self.edges.push(edge);
        Ok(())
    }

    /// Says that the nodes of `chain` run one after the other, in the order
    /// in which `chain` holds them. Edges that the graph has already are
    /// passed over. Where `chain` names a node that the graph does not have,
    /// the first such node is returned and the graph is left as it was.
    pub fn add_node_edges(&mut self, chain: &Vec<FrameNode>) -> (result: Result<
        (),
        FrameGraphError,
    >)
        requires
            old(self).well_formed(),
        ensures
            final(self).well_formed(),
            final(self).nodes() == old(self).nodes(),
            result == match first_missing(old(self).nodes(), chain@) {
                Some(node) => Err::<(), FrameGraphError>(FrameGraphError::InvalidNode(node)),
                None => Ok(()),
            },
            final(self).edges() == if result.is_ok() {
                with_chain(old(self).edges(), chain@)
            } else {
                old(self).edges()
            },
    {
        let mut i: usize = 0;
        while i < chain.len()
            invariant
                i <= chain.len(),
                *self == *old(self),
                self.well_formed(),
                first_missing(self.nodes(), chain@.take(i as int)).is_none(),
            decreases chain.len() - i,
        {
            proof {
                assert(chain@.take(i + 1).drop_last() =~= chain@.take(i as int));
            }
            if !self.has_node(chain[i]) {
                proof {
                    lemma_first_missing_of_prefix(self.nodes(), chain@, i + 1);
                }
                return Err(FrameGraphError::InvalidNode(chain[i]));
            }
            i += 1;
        }
        proof {
            assert(chain@.take(chain@.len() as int) =~= chain@);
        }
        if chain.len() < 2 {
            return Ok(());
        }
        let mut i: usize = 0;
        proof {
            lemma_first_missing(self.nodes(), chain@);
        }
        while i < chain.len() - 1
            invariant
                chain.len() >= 2,
                i <= chain.len() - 1,
                self.well_formed(),
                self.nodes() == old(self).nodes(),
                forall|j: int| 0 <= j < chain@.len() ==> self.nodes().contains(#[trigger] chain@[j]),
                self.edges() == with_chain(old(self).edges(), chain@.take(i + 1)),
            decreases chain.len() - 1 - i,
        {
            proof {
                assert(self.nodes().contains(chain@[i as int]));
                assert(self.nodes().contains(chain@[i + 1]));
                assert(chain@.take(i + 2).drop_last() =~= chain@.take(i + 1));
            }
            let _ = self.try_add_node_edge(chain[i], chain[i + 1]);
            i += 1;
        }
        Ok(())
    }

    /// Whether every node that has to run before `node` is among `placed`.
    fn ready(&self, node: FrameNode, placed: &Vec<FrameNode>) -> (ready: bool)
        ensures
            ready == is_ready(node, placed@, self.edges()),
    {
        let mut k: usize = 0;
        while k < self.edges.len()
            invariant
                k <= self.edges.len(),
                forall|j: int|
                    0 <= j < k && (#[trigger] self.edges@[j]).input_node == node
                        ==> placed@.contains(self.edges@[j].output_node),
            decreases self.edges.len() - k,
        {
            let edge = self.edges[k];
            if edge.input_node == node && !contains_node(placed, edge.output_node) {
                return false;
            }
            k += 1;
        }
        true
    }

    /// The first node that is not among `placed` though every node that has
    /// to run before it is.
    fn next_ready(&self, placed: &Vec<FrameNode>) -> (next: Option<FrameNode>)
        ensures
            match next {
                Some(node) => is_next(node, self.nodes@, placed@, self.edges@),
                None => forall|i: int|
                    0 <= i < self.nodes@.len() ==> placed@.contains(#[trigger] self.nodes@[i])
                        || !is_ready(self.nodes@[i], placed@, self.edges@),
            },
    {
        let mut i: usize = 0;
        while i < self.nodes.len()
            invariant
                i <= self.nodes.len(),
                forall|j: int|
                    0 <= j < i ==> placed@.contains(#[trigger] self.nodes@[j]) || !is_ready(
                        self.nodes@[j],
                        placed@,
                        self.edges@,
                    ),
            decreases self.nodes.len() - i,
        {
            let node = self.nodes[i];
            if !contains_node(placed, node) && self.ready(node, placed) {
                assert(self.nodes@[i as int] == node);
                return Some(node);
            }
            i += 1;
        }
        None
    }

    /// Resolves the graph into the order in which its nodes run: each node
    /// once, and every edge kept to. Where the edges leave a choice, the node
    /// that was added first runs first. There is no such order where the
    /// edges run in a circle, and only then.
    pub fn linear_order(&self) -> (order: Option<Vec<FrameNode>>)
        requires
            self.well_formed(),
        ensures
            match order {
                Some(order) => {
                    &&& is_linear_order(order@, self.nodes(), self.edges())
                    &&& placed_in_turn(order@, self.nodes(), self.edges())
                },
                None => forall|any: Seq<FrameNode>|
                    !#[trigger] is_linear_order(any, self.nodes(), self.edges()),
            },
    {
        let mut order: Vec<FrameNode> = Vec::new();
        while order.len() < self.nodes.len()
            invariant
                self.nodes@.no_duplicates(),
                order@.len() <= self.nodes@.len(),
                order@.no_duplicates(),
                forall|i: int| 0 <= i < order@.len() ==> self.nodes@.contains(#[trigger] order@[i]),
                placed_in_turn(order@, self.nodes@, self.edges@),
            decreases self.nodes@.len() - order@.len(),
        {
            match self.next_ready(&order) {
                None => {
                    proof {
                        assert forall|any: Seq<FrameNode>|
                            !#[trigger] is_linear_order(any, self.nodes(), self.edges()) by {
                            lemma_stuck(self.nodes@, self.edges@, order@, any);
                        }
                    }
                    return None;
                },
                Some(node) => {
                    proof {
                        lemma_place_next(order@, node, self.nodes@, self.edges@);
                    }
                    order.push(node);
                },
            }
        }
        proof {
            lemma_in_turn_is_ready(order@, self.nodes@, self.edges@);
            lemma_placed_is_linear_order(self.nodes@, self.edges@, order@);
        }
        Some(order)
    }
}

} // verus!
