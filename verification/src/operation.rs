//! The six operations, each as a series of steps.
//!
//! An operation reads the inventory through listings that only its caller
//! can fetch.  So it is run step by step: `next_step` says what to fetch
//! next, or how the operation ends; the caller fetches, records what came
//! back in the `Progress`, and asks again.  Nothing is fetched for a request
//! that is wrong in itself, and nothing more once a listing has failed.
use crate::capacity::{
    capacity_of, get_cluster_capacity, get_node_breakdown, lemma_breakdown_is_determined,
    lemma_capacity_is_determined, ClusterCapacityResponse, NodeBreakdownResponse,
};
use crate::error::{refused, InsightsError, Listing};
use crate::fit::{
    evaluate_fit, invalid_demand, lemma_verdict_is_determined, validate_demand,
    CheckResourceFitParams, CheckResourceFitResponse,
};
use crate::inventory::{NamespaceDescriptor, NodeDescriptor, PodDescriptor};
use crate::namespaces::{get_namespace_usage, lemma_usage_is_determined, NamespaceUsageResponse};
use crate::pods::{get_pod_resource_stats, lemma_stats_are_determined, PodResourceStatsResponse};
use crate::replicas::{
    demand_of, evaluate_replicas, find_replicas, invalid_request,
    lemma_replica_verdict_is_determined, replicas_listed, validate_request,
    CheckReplicaCapacityParams, CheckReplicaCapacityResponse,
};
use vstd::prelude::*;
use vstd::string::StringExecFns;

verus! {

/// An operation as it is asked for.
#[derive(Debug, PartialEq, Eq)]
pub enum Operation {
    GetClusterCapacity,
    CheckResourceFit(CheckResourceFitParams),
    GetNodeBreakdown,
    GetNamespaceUsage,
    GetPodResourceStats,
    CheckReplicaCapacity(CheckReplicaCapacityParams),
}

/// What an operation gives where it succeeds.
#[derive(Debug, PartialEq, Eq)]
pub enum Answer {
    ClusterCapacity(ClusterCapacityResponse),
    ResourceFit(CheckResourceFitResponse),
    NodeBreakdown(NodeBreakdownResponse),
    NamespaceUsage(NamespaceUsageResponse),
    PodResourceStats(PodResourceStatsResponse),
    ReplicaCapacity(CheckReplicaCapacityResponse),
}

/// What has come back for an operation so far: the listings that were
/// fetched, and the failure if one of them failed.
#[derive(Debug, PartialEq, Eq)]
pub struct Progress {
    pub nodes: Option<Vec<NodeDescriptor>>,
    pub pods: Option<Vec<PodDescriptor>>,
    pub namespaces: Option<Vec<NamespaceDescriptor>>,
    pub namespace_pods: Option<Vec<PodDescriptor>>,
    pub failure: Option<InsightsError>,
}

/// What is to be done next for an operation.
#[derive(Debug, PartialEq, Eq)]
pub enum Step {
    /// Fetch this listing and record what comes back.
    Fetch(Listing),
    /// The operation is over, with this result.
    Finish(Result<Answer, InsightsError>),
}

impl Progress {
    /// The listing to fetch next where the cluster's capacity is wanted:
    /// the nodes, then the pods, then nothing.
    pub open spec fn awaits_capacity(self) -> Option<Listing> {
        if self.nodes is None {
            Some(Listing::Nodes)
        } else if self.pods is None {
            Some(Listing::Pods)
        } else {
            None
        }
    }

    /// Nothing fetched yet.
    pub fn new() -> (r: Self)
        ensures
            r.nodes is None,
            r.pods is None,
            r.namespaces is None,
            r.namespace_pods is None,
            r.failure is None,
    {
        Progress { nodes: None, pods: None, namespaces: None, namespace_pods: None, failure: None }
    }

    /// Records that the inventory could not be reached.
    pub fn record_unreachable(&mut self, reason: String)
        ensures
            *final(self) == (Progress {
                failure: Some(InsightsError::ClientUnavailable { reason }),
                ..*old(self)
            }),
    {
        self.failure = Some(InsightsError::ClientUnavailable { reason });
    }

    /// Records what came back for the listing of the nodes.
    pub fn record_nodes(&mut self, outcome: Result<Vec<NodeDescriptor>, String>)
        ensures
            *final(self) == (match outcome {
                Ok(nodes) => Progress { nodes: Some(nodes), ..*old(self) },
                Err(reason) => Progress {
                    failure: Some(InsightsError::ListingFailed { listing: Listing::Nodes, reason }),
                    ..*old(self)
                },
            }),
    {
        match outcome {
            Ok(nodes) => {
                self.nodes = Some(nodes);
            },
            Err(reason) => {
                self.failure = Some(
                    InsightsError::ListingFailed { listing: Listing::Nodes, reason },
                );
            },
        }
    }

    /// Records what came back for the listing of all pods.
    pub fn record_pods(&mut self, outcome: Result<Vec<PodDescriptor>, String>)
        ensures
            *final(self) == (match outcome {
                Ok(pods) => Progress { pods: Some(pods), ..*old(self) },
                Err(reason) => Progress {
                    failure: Some(InsightsError::ListingFailed { listing: Listing::Pods, reason }),
                    ..*old(self)
                },
            }),
    {
        match outcome {
            Ok(pods) => {
                self.pods = Some(pods);
            },
            Err(reason) => {
                self.failure = Some(
                    InsightsError::ListingFailed { listing: Listing::Pods, reason },
                );
            },
        }
    }

    /// Records what came back for the listing of the namespaces.
    pub fn record_namespaces(&mut self, outcome: Result<Vec<NamespaceDescriptor>, String>)
        ensures
            *final(self) == (match outcome {
                Ok(namespaces) => Progress { namespaces: Some(namespaces), ..*old(self) },
                Err(reason) => Progress {
                    failure: Some(
                        InsightsError::ListingFailed { listing: Listing::Namespaces, reason },
                    ),
                    ..*old(self)
                },
            }),
    {
        match outcome {
            Ok(namespaces) => {
                self.namespaces = Some(namespaces);
            },
            Err(reason) => {
                self.failure = Some(
                    InsightsError::ListingFailed { listing: Listing::Namespaces, reason },
                );
            },
        }
    }

    /// Records what came back for the listing of the pods of one
    /// namespace.
    pub fn record_namespace_pods(
        &mut self,
        namespace: String,
        outcome: Result<Vec<PodDescriptor>, String>,
    )
        ensures
            *final(self) == (match outcome {
                Ok(pods) => Progress { namespace_pods: Some(pods), ..*old(self) },
                Err(reason) => Progress {
                    failure: Some(
                        InsightsError::ListingFailed {
                            listing: Listing::PodsIn(namespace),
                            reason,
                        },
                    ),
                    ..*old(self)
                },
            }),
    {
        match outcome {
            Ok(pods) => {
                self.namespace_pods = Some(pods);
            },
            Err(reason) => {
                self.failure = Some(
                    InsightsError::ListingFailed { listing: Listing::PodsIn(namespace), reason },
                );
            },
        }
    }
}

impl Operation {
    /// What is wrong with the request before any inventory is looked at.
    pub open spec fn invalid(self) -> Option<InsightsError> {
        match self {
            Operation::CheckResourceFit(params) => invalid_demand(
                params.cpu_millicores as int,
                params.memory_bytes as int,
            ),
            Operation::CheckReplicaCapacity(params) => invalid_request(params),
            _ => None,
        }
    }

    /// Whether the operation asks for replicas of an application of which
    /// the listing of its namespace, once fetched, shows no pod.
    pub open spec fn unmatched(self, p: Progress) -> bool {
        match self {
            Operation::CheckReplicaCapacity(params) => match p.namespace_pods {
                Some(listed) => replicas_listed(listed@, params.app_name@) == 0,
                None => false,
            },
            _ => false,
        }
    }

    /// The error with which the operation ends at this point, if it ends
    /// with one: what is wrong with the request comes first, then a failure
    /// of the inventory, then an application without pods.
    pub open spec fn refusal(self, p: Progress) -> Option<InsightsError> {
        if self.invalid() is Some {
            self.invalid()
        } else if p.failure is Some {
            p.failure
        } else if self.unmatched(p) {
            match self {
                Operation::CheckReplicaCapacity(params) => Some(
                    InsightsError::NoMatchingPods {
                        app_name: params.app_name,
                        namespace: params.namespace,
                    },
                ),
                _ => None,
            }
        } else {
            None
        }
    }

    /// The listing that the operation needs next, if it needs one more.
    pub open spec fn awaits(self, p: Progress) -> Option<Listing> {
        match self {
            Operation::GetClusterCapacity => p.awaits_capacity(),
            Operation::CheckResourceFit(_) => p.awaits_capacity(),
            Operation::GetNodeBreakdown => p.awaits_capacity(),
            Operation::GetNamespaceUsage => if p.namespaces is None {
                Some(Listing::Namespaces)
            } else if p.pods is None {
                Some(Listing::Pods)
            } else {
                None
            },
            Operation::GetPodResourceStats => if p.pods is None {
                Some(Listing::Pods)
            } else {
                None
            },
            Operation::CheckReplicaCapacity(params) => if p.namespace_pods is None {
                Some(Listing::PodsIn(params.namespace))
            } else {
                p.awaits_capacity()
            },
        }
    }

    /// Whether `a` is the answer of the operation on the listings that
    /// were fetched.
    pub open spec fn answered_by(self, p: Progress, a: Answer) -> bool {
        match (self, a) {
            (Operation::GetClusterCapacity, Answer::ClusterCapacity(r)) => r.describes(
                p.nodes->0@,
                p.pods->0@,
            ),
            (Operation::CheckResourceFit(params), Answer::ResourceFit(r)) => r.answers(
                capacity_of(p.nodes->0@, p.pods->0@),
                params.cpu_millicores as int,
                params.memory_bytes as int,
            ),
            (Operation::GetNodeBreakdown, Answer::NodeBreakdown(r)) => r.describes(
                p.nodes->0@,
                p.pods->0@,
            ),
            (Operation::GetNamespaceUsage, Answer::NamespaceUsage(r)) => r.describes(
                p.namespaces->0@,
                p.pods->0@,
            ),
            (Operation::GetPodResourceStats, Answer::PodResourceStats(r)) => r.describes(
                p.pods->0@,
            ),
            (Operation::CheckReplicaCapacity(params), Answer::ReplicaCapacity(r)) => r.answers(
                demand_of(params, p.namespace_pods->0@),
                capacity_of(p.nodes->0@, p.pods->0@),
            ),
            _ => false,
        }
    }

    /// The words that open the message of an operation that failed for
    /// another reason than its request.
    pub open spec fn failure_prefix(self) -> Seq<char> {
        match self {
            Operation::GetClusterCapacity => "Failed to get cluster capacity: "@,
            Operation::CheckResourceFit(_) => "Failed to check resource fit: "@,
            Operation::GetNodeBreakdown => "Failed to get node breakdown: "@,
            Operation::GetNamespaceUsage => "Failed to get namespace usage: "@,
            Operation::GetPodResourceStats => "Failed to get pod resource stats: "@,
            Operation::CheckReplicaCapacity(_) => "Failed to check replica capacity: "@,
        }
    }

    /// The message with which the operation reports an error: the error's
    /// own message where the request was wrong in itself, and that message
    /// behind the name of the operation where anything else went wrong.
    pub open spec fn failure_text(self, e: InsightsError) -> Seq<char> {
        if e.is_invalid_input() {
            e.text()
        } else {
            self.failure_prefix() + e.text()
        }
    }

    /// Says what is wrong with the request, if anything is.
    pub fn validate(&self) -> (r: Result<(), InsightsError>)
        ensures
            r == refused(self.invalid()),
    {
        match self {
            Operation::CheckResourceFit(params) => validate_demand(params),
            Operation::CheckReplicaCapacity(params) => validate_request(params),
            _ => Ok(()),
        }
    }

    /// Writes the message with which the operation reports an error.
    pub fn failure_message(&self, e: &InsightsError) -> (r: String)
        ensures
            r@ == self.failure_text(*e),
    {
        match e {
            InsightsError::NegativeCpu => e.message(),
            InsightsError::NegativeMemory => e.message(),
            InsightsError::NonPositiveReplicaCount => e.message(),
            InsightsError::EmptyAppName => e.message(),
            InsightsError::EmptyNamespace => e.message(),
            _ => {
                let mut r = match self {
                    Operation::GetClusterCapacity => String::from_str(
                        "Failed to get cluster capacity: ",
                    ),
                    Operation::CheckResourceFit(_) => String::from_str(
                        "Failed to check resource fit: ",
                    ),
                    Operation::GetNodeBreakdown => String::from_str(
                        "Failed to get node breakdown: ",
                    ),
                    Operation::GetNamespaceUsage => String::from_str(
                        "Failed to get namespace usage: ",
                    ),
                    Operation::GetPodResourceStats => String::from_str(
                        "Failed to get pod resource stats: ",
                    ),
                    Operation::CheckReplicaCapacity(_) => String::from_str(
                        "Failed to check replica capacity: ",
                    ),
                };
                let text = e.message();
                r.append(text.as_str());
                r
            },
        }
    }
}

/// The step that finishes with the capacity of the cluster, or fetches
/// what is still missing for it.
fn capacity_step(p: &Progress) -> (r: Result<ClusterCapacityResponse, Listing>)
    ensures
        r is Err <==> p.awaits_capacity() is Some,
        r is Err ==> p.awaits_capacity() == Some(r->Err_0),
        r is Ok ==> r->Ok_0.describes(p.nodes->0@, p.pods->0@),
{
    match &p.nodes {
        None => Err(Listing::Nodes),
        Some(nodes) => match &p.pods {
            None => Err(Listing::Pods),
            Some(pods) => Ok(get_cluster_capacity(nodes, pods)),
        },
    }
}

impl Answer {
    /// Whether two answers say the same.
    pub open spec fn same_as(self, other: Answer) -> bool {
        match (self, other) {
            (Answer::ClusterCapacity(a), Answer::ClusterCapacity(b)) => a.same_as(b),
            (Answer::ResourceFit(a), Answer::ResourceFit(b)) => a.same_as(b),
            (Answer::NodeBreakdown(a), Answer::NodeBreakdown(b)) => a.same_as(b),
            (Answer::NamespaceUsage(a), Answer::NamespaceUsage(b)) => a.same_as(b),
            (Answer::PodResourceStats(a), Answer::PodResourceStats(b)) => a.same_as(b),
            (Answer::ReplicaCapacity(a), Answer::ReplicaCapacity(b)) => a.same_as(b),
            _ => false,
        }
    }
}

impl Step {
    /// Whether two steps say the same.
    pub open spec fn same_as(self, other: Step) -> bool {
        match (self, other) {
            (Step::Fetch(a), Step::Fetch(b)) => a == b,
            (Step::Finish(Err(a)), Step::Finish(Err(b))) => a == b,
            (Step::Finish(Ok(a)), Step::Finish(Ok(b))) => a.same_as(b),
            _ => false,
        }
    }

    /// Whether the step is the one that the operation takes next, given
    /// what has come back so far.  The operation ends with an error as soon
    /// as there is one; else it fetches what it still needs; else it ends
    /// with its answer.
    pub open spec fn follows(self, operation: Operation, progress: Progress) -> bool {
        match operation.refusal(progress) {
            Some(e) => self == Step::Finish(Err(e)),
            None => match operation.awaits(progress) {
                Some(listing) => self == Step::Fetch(listing),
                None => self matches Step::Finish(Ok(a)) && operation.answered_by(progress, a),
            },
        }
    }
}

/// Asked twice at the same point, an operation takes the same step: the
/// same listing to fetch, the same error, or answers that say the same.
pub proof fn lemma_step_is_determined(operation: Operation, progress: Progress, a: Step, b: Step)
    requires
        a.follows(operation, progress),
        b.follows(operation, progress),
    ensures
        a.same_as(b),
{
    if operation.refusal(progress) is None && operation.awaits(progress) is None {
        let x = a->Finish_0->Ok_0;
        let y = b->Finish_0->Ok_0;
        match (operation, x, y) {
            (
                Operation::GetClusterCapacity,
                Answer::ClusterCapacity(r),
                Answer::ClusterCapacity(s),
            ) => {
                lemma_capacity_is_determined(r, s, progress.nodes->0@, progress.pods->0@);
            },
            (Operation::CheckResourceFit(params), Answer::ResourceFit(r), Answer::ResourceFit(s)) => {
                lemma_verdict_is_determined(
                    r,
                    s,
                    capacity_of(progress.nodes->0@, progress.pods->0@),
                    params.cpu_millicores as int,
                    params.memory_bytes as int,
                );
            },
            (Operation::GetNodeBreakdown, Answer::NodeBreakdown(r), Answer::NodeBreakdown(s)) => {
                lemma_breakdown_is_determined(r, s, progress.nodes->0@, progress.pods->0@);
            },
            (Operation::GetNamespaceUsage, Answer::NamespaceUsage(r), Answer::NamespaceUsage(s)) => {
                lemma_usage_is_determined(r, s, progress.namespaces->0@, progress.pods->0@);
            },
            (
                Operation::GetPodResourceStats,
                Answer::PodResourceStats(r),
                Answer::PodResourceStats(s),
            ) => {
                lemma_stats_are_determined(r, s, progress.pods->0@);
            },
            (
                Operation::CheckReplicaCapacity(params),
                Answer::ReplicaCapacity(r),
                Answer::ReplicaCapacity(s),
            ) => {
                lemma_replica_verdict_is_determined(
                    r,
                    s,
                    demand_of(params, progress.namespace_pods->0@),
                    capacity_of(progress.nodes->0@, progress.pods->0@),
                );
            },
            _ => {},
        }
    }
}

/// A request that is wrong in itself ends the operation at once, whatever
/// has or has not been fetched: nothing is fetched for it.
pub proof fn lemma_invalid_request_fetches_nothing(
    operation: Operation,
    progress: Progress,
    step: Step,
)
    requires
        step.follows(operation, progress),
        operation.invalid() is Some,
    ensures
        step == Step::Finish(Err(operation.invalid()->0)),
{
}

/// Once a listing has failed, the operation of a sound request ends with
/// that failure: nothing more is fetched, and no answer is made up of what
/// came back before.
pub proof fn lemma_failure_ends_the_operation(operation: Operation, progress: Progress, step: Step)
    requires
        step.follows(operation, progress),
        operation.invalid() is None,
        progress.failure is Some,
    ensures
        step == Step::Finish(Err(progress.failure->0)),
{
}

/// What is to be done next for the operation, given what has come back so
/// far.
pub fn next_step(operation: &Operation, progress: &Progress) -> (step: Step)
    ensures
        step.follows(*operation, *progress),
{
    match operation.validate() {
        Err(e) => {
            return Step::Finish(Err(e));
        },
        Ok(_) => {},
    }
    match &progress.failure {
        Some(failure) => {
            return Step::Finish(Err(failure.duplicate()));
        },
        None => {},
    }
    match operation {
        Operation::GetClusterCapacity => match capacity_step(progress) {
            Err(listing) => Step::Fetch(listing),
            Ok(capacity) => Step::Finish(Ok(Answer::ClusterCapacity(capacity))),
        },
        Operation::CheckResourceFit(params) => match capacity_step(progress) {
            Err(listing) => Step::Fetch(listing),
            Ok(capacity) => Step::Finish(
                Ok(
                    Answer::ResourceFit(
                        evaluate_fit(&capacity, params.cpu_millicores, params.memory_bytes),
                    ),
                ),
            ),
        },
        Operation::GetNodeBreakdown => match &progress.nodes {
            None => Step::Fetch(Listing::Nodes),
            Some(nodes) => match &progress.pods {
                None => Step::Fetch(Listing::Pods),
                Some(pods) => Step::Finish(
                    Ok(Answer::NodeBreakdown(get_node_breakdown(nodes, pods))),
                ),
            },
        },
        Operation::GetNamespaceUsage => match &progress.namespaces {
            None => Step::Fetch(Listing::Namespaces),
            Some(namespaces) => match &progress.pods {
                None => Step::Fetch(Listing::Pods),
                Some(pods) => Step::Finish(
                    Ok(Answer::NamespaceUsage(get_namespace_usage(namespaces, pods))),
                ),
            },
        },
        Operation::GetPodResourceStats => match &progress.pods {
            None => Step::Fetch(Listing::Pods),
            Some(pods) => Step::Finish(Ok(Answer::PodResourceStats(get_pod_resource_stats(pods)))),
        },
        Operation::CheckReplicaCapacity(params) => match &progress.namespace_pods {
            None => Step::Fetch(Listing::PodsIn(params.namespace.clone())),
            Some(listed) => {
                let (first, matching) = find_replicas(listed, &params.app_name);
                if matching == 0 {
                    Step::Finish(
                        Err(
                            InsightsError::NoMatchingPods {
                                app_name: params.app_name.clone(),
                                namespace: params.namespace.clone(),
                            },
                        ),
                    )
                } else {
                    match capacity_step(progress) {
                        Err(listing) => Step::Fetch(listing),
                        Ok(capacity) => Step::Finish(
                            Ok(
                                Answer::ReplicaCapacity(
                                    evaluate_replicas(params, &listed[first], matching, &capacity),
                                ),
                            ),
                        ),
                    }
                }
            },
        },
    }
}

} // verus!
