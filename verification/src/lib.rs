//! Capacity questions about a cluster, answered in exact integer arithmetic.
//!
//! Resource quantities are read from their textual encodings into whole
//! sub-units (millicores of compute, bytes of memory), folded into totals for
//! the cluster, for each node and for each namespace, and a proposed demand is
//! judged against what is left.
//!
//! Only what is declared counts: the requests and limits of containers, and
//! the capacity of nodes.  Nothing is measured, nothing is scheduled, and
//! nothing in the cluster is changed.
//!
//! # Amounts
//!
//! Every amount is a whole number of sub-units.  A quantity is rounded toward
//! zero when it is read, and what a container, a node or a sum of them holds
//! never leaves the range from zero to `decimal::MAX_AMOUNT`: a sum that would
//! leave it is held at the bound.  What is available is a difference, and is
//! below zero where more is requested than there is.
//!
//! # Modules
//!
//! - `decimal`, `quantity`: from text to amounts.
//! - `inventory`: the listings that are read, and sums over them.
//! - `capacity`, `namespaces`, `pods`: the four queries.
//! - `fit`, `replicas`: the two checks that judge a demand.
//! - `operation`: each of the six operations as a series of steps, with
//!   the fetching of listings left to the caller.
//! - `ranking`, `matching`, `text`, `error`: what the others share.
pub mod capacity;
pub mod decimal;
pub mod error;
pub mod fit;
pub mod inventory;
pub mod matching;
pub mod namespaces;
pub mod operation;
pub mod pods;
pub mod quantity;
pub mod ranking;
pub mod replicas;
pub mod text;

pub use capacity::{
    get_cluster_capacity, get_node_breakdown, ClusterCapacityResponse, NodeBreakdownResponse,
    NodeInfo,
};
pub use error::{InsightsError, Listing};
pub use fit::{check_resource_fit, CheckResourceFitParams, CheckResourceFitResponse, Utilization};
pub use inventory::{ContainerResources, NamespaceDescriptor, NodeDescriptor, PodDescriptor};
pub use namespaces::{get_namespace_usage, NamespaceUsage, NamespaceUsageResponse};
pub use operation::{next_step, Answer, Operation, Progress, Step};
pub use pods::{get_pod_resource_stats, PodResourceInfo, PodResourceStatsResponse};
pub use quantity::{quantity_to_bytes, quantity_to_mb, quantity_to_millicores};
pub use replicas::{
    check_replica_capacity, CheckReplicaCapacityParams, CheckReplicaCapacityResponse,
};
