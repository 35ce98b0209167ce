//! Cluster bookkeeping: which nodes there are and which node an operation
//! is handed to.

use vstd::prelude::*;
use crate::random::random_index;

verus! {

/// The nodes of a cluster and the qubits each of them offers.
pub struct NodeManager {
    pub node_addresses: Vec<String>,
    pub qubits_per_node: usize,
}

impl NodeManager {
    pub fn new(addresses: Vec<String>, qubits_per_node: usize) -> (manager: Self)
        ensures
            manager.node_addresses == addresses,
            manager.qubits_per_node == qubits_per_node,
    {
        NodeManager { node_addresses: addresses, qubits_per_node }
    }

    /// The node that operation number `operation` of a circuit is handed to.
    /// Operations go round the nodes in address order; a cluster without
    /// nodes takes none.
    pub fn assigned_node(&self, operation: usize) -> (node: Option<usize>)
        ensures
            node == if self.node_addresses@.len() == 0 {
                None::<usize>
            } else {
                Some((operation as int % self.node_addresses@.len() as int) as usize)
            },
    {
        let count = self.node_addresses.len();
        if count == 0 {
            None
        } else {
            Some(operation % count)
        }
    }
}

/// How tasks are spread over the nodes and whether a failed node's tasks
/// are reassigned.
pub struct TaskScheduler {
    pub load_balancing: String,
    pub failover: bool,
}

impl TaskScheduler {
    /// A round-robin scheduler with failover switched on.
    pub fn new() -> (scheduler: Self)
        ensures
            scheduler.load_balancing@ == "round-robin"@,
            scheduler.failover,
    {
        TaskScheduler { load_balancing: String::from_str("round-robin"), failover: true }
    }
}

/// How the results of the nodes are combined.
pub struct ResultAggregator {
    pub aggregation_method: String,
}

/// The method name under which one node's result is taken for all.
pub open spec fn consensus_method() -> Seq<char> {
    "quantum_consensus"@
}

impl ResultAggregator {
    /// An aggregator that combines by consensus.
    pub fn new() -> (aggregator: Self)
        ensures
            aggregator.aggregation_method@ == consensus_method(),
    {
        ResultAggregator { aggregation_method: String::from_str("quantum_consensus") }
    }

    /// Whether the aggregator combines by consensus.
    pub open spec fn uses_consensus(&self) -> bool {
        self.aggregation_method@ == consensus_method()
    }

    /// The result that consensus settles on when the draw falls on node
    /// `pick`: that node's result, or nothing when there is no such node.
    pub fn consensus_at<T: Copy>(results: &Vec<T>, pick: usize) -> (aggregate: Option<T>)
        ensures
            aggregate == if pick < results@.len() {
                Some(results@[pick as int])
            } else {
                None::<T>
            },
    {
        if pick < results.len() {
            Some(results[pick])
        } else {
            None
        }
    }

    /// Combines the results of the nodes into one.
    ///
    /// Under the consensus method the result of one node, drawn from `rng`,
    /// stands for all; without results there is nothing to draw from and
    /// nothing is returned. Under any other method the results are combined
    /// by `average`.
    pub fn aggregate_results<T: Copy, F: Fn(&Vec<T>) -> T>(
        &self,
        results: &Vec<T>,
        average: F,
        rng: &mut rand::rngs::StdRng,
    ) -> (aggregate: Option<T>)
        requires
            call_requires(average, (results,)),
        ensures
            self.uses_consensus() ==> (aggregate is Some <==> results@.len() > 0),
            self.uses_consensus() ==> (aggregate matches Some(value) ==> results@.contains(value)),
            !self.uses_consensus() ==> (aggregate matches Some(value) && call_ensures(
                average,
                (results,),
                value,
            )),
    {
        let consensus = String::from_str("quantum_consensus");
        if self.aggregation_method == consensus {
            if results.len() == 0 {
                return None;
            }
            let pick = random_index(rng, results.len());
            Self::consensus_at(results, pick)
        } else {
            Some(average(results))
        }
    }
}

} // verus!
