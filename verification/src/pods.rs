//! The pods that request the most compute.
use crate::capacity::name_or_empty;
use crate::decimal::{least, saturate};
use crate::inventory::{Declared, PodDescriptor, Scale};
use crate::ranking::{is_ranking, lemma_ranking_exists, rank_top, ranking_of, ranks_before};
use crate::text::{nat_text, push_nat};
use vstd::prelude::*;
use vstd::string::StringExecFns;

verus! {

/// How many pods the statistics show at most.
pub const TOP_PODS: usize = 20;

/// What one pod declares over all its containers.  Compute is in millicores
/// and memory in whole mebibytes, each container's amount rounded down
/// before the amounts are added.
#[derive(Debug, PartialEq, Eq)]
pub struct PodResourceInfo {
    pub name: String,
    pub namespace: String,
    pub cpu_requests_millicores: i64,
    pub memory_requests_mb: i64,
    pub cpu_limits_millicores: i64,
    pub memory_limits_mb: i64,
    pub node: String,
}

/// The pods that request the most compute, the largest request first, and
/// how many pods there are in all.
#[derive(Debug, PartialEq, Eq)]
pub struct PodResourceStatsResponse {
    pub top_pods: Vec<PodResourceInfo>,
    pub total_pods: usize,
    pub sorted_by: String,
    pub explanation: String,
}

/// The namespace that is listed, or `default` where none is.
pub open spec fn namespace_or_default(namespace: Option<String>) -> Seq<char> {
    match namespace {
        Some(n) => n@,
        None => "default"@,
    }
}

/// The node that is listed, or `unscheduled` where none is.
pub open spec fn node_or_unscheduled(node: Option<String>) -> Seq<char> {
    match node {
        Some(n) => n@,
        None => "unscheduled"@,
    }
}

/// The key by which pods are ranked: the compute that each requests.
pub open spec fn request_keys(pods: Seq<PodDescriptor>) -> Seq<i64> {
    Seq::new(pods.len(), |i: int| saturate(pods[i].total(Declared::CpuRequest, Scale::Coarse)) as i64)
}

/// The sentence that goes with the statistics.
pub open spec fn stats_explanation(total: nat) -> Seq<char> {
    "Showing top 20 pods (out of "@ + nat_text(total)
        + ") by CPU requests. Each pod shows CPU/memory requests and limits, along with the node it's scheduled on."@
}

impl PodResourceInfo {
    /// Whether the record is the profile of the given pod.
    pub open spec fn profiles(&self, pod: PodDescriptor) -> bool {
        &&& self.name@ == name_or_empty(pod.name)
        &&& self.namespace@ == namespace_or_default(pod.namespace)
        &&& self.cpu_requests_millicores == saturate(
            pod.total(Declared::CpuRequest, Scale::Coarse),
        )
        &&& self.memory_requests_mb == saturate(pod.total(Declared::MemoryRequest, Scale::Coarse))
        &&& self.cpu_limits_millicores == saturate(pod.total(Declared::CpuLimit, Scale::Coarse))
        &&& self.memory_limits_mb == saturate(pod.total(Declared::MemoryLimit, Scale::Coarse))
        &&& self.node@ == node_or_unscheduled(pod.node_name)
    }
}

impl PodResourceStatsResponse {
    /// Whether the record is the statistics of the given pods: the
    /// profiles of the first twenty of their ranking, or of all where there
    /// are fewer, and the number of all.
    pub open spec fn describes(&self, pods: Seq<PodDescriptor>) -> bool {
        &&& self.total_pods == pods.len()
        &&& self.top_pods@.len() == least(TOP_PODS as int, pods.len() as int)
        &&& forall|i: int|
            0 <= i < self.top_pods@.len() ==> (#[trigger] self.top_pods@[i]).profiles(
                pods[ranking_of(request_keys(pods))[i] as int],
            )
        &&& self.sorted_by@ == "CPU requests (descending)"@
        &&& self.explanation@ == stats_explanation(pods.len())
    }

    /// Whether no record of the list requests less compute than one behind
    /// it.
    pub open spec fn is_descending(&self) -> bool {
        forall|i: int, j: int|
            0 <= i < j < self.top_pods@.len() ==> (#[trigger] self.top_pods@[i]).cpu_requests_millicores
                >= (#[trigger] self.top_pods@[j]).cpu_requests_millicores
    }
}

/// The text that is listed, or `fallback` where none is.
pub fn text_or(listed: &Option<String>, fallback: &str) -> (r: String)
    ensures
        r@ == (match *listed {
            Some(t) => t@,
            None => fallback@,
        }),
{
    match listed {
        Some(t) => t.clone(),
        None => String::from_str(fallback),
    }
}

/// The profile of one pod.
pub fn pod_profile(pod: &PodDescriptor) -> (r: PodResourceInfo)
    ensures
        r.profiles(*pod),
{
    proof {
        reveal_strlit("");
        assert(""@ =~= Seq::<char>::empty());
    }
    PodResourceInfo {
        name: text_or(&pod.name, ""),
        namespace: text_or(&pod.namespace, "default"),
        cpu_requests_millicores: pod.read_total(Declared::CpuRequest, Scale::Coarse),
        memory_requests_mb: pod.read_total(Declared::MemoryRequest, Scale::Coarse),
        cpu_limits_millicores: pod.read_total(Declared::CpuLimit, Scale::Coarse),
        memory_limits_mb: pod.read_total(Declared::MemoryLimit, Scale::Coarse),
        node: text_or(&pod.node_name, "unscheduled"),
    }
}

/// The statistics of the pods: the profiles of the twenty that request the
/// most compute, ranked, with the number of all pods beside them.
pub fn get_pod_resource_stats(pods: &Vec<PodDescriptor>) -> (r: PodResourceStatsResponse)
    ensures
        r.describes(pods@),
        r.is_descending(),
        r.top_pods@.len() <= TOP_PODS,
        r.total_pods == pods@.len(),
{
    let mut keys: Vec<i64> = Vec::new();
    let mut i: usize = 0;
    while i < pods.len()
        invariant
            i <= pods.len(),
            keys@.len() == i,
            forall|j: int|
                0 <= j < i ==> #[trigger] keys@[j] == saturate(
                    pods@[j].total(Declared::CpuRequest, Scale::Coarse),
                ),
        decreases pods.len() - i,
    {
        let key = pods[i].read_total(Declared::CpuRequest, Scale::Coarse);
        keys.push(key);
        i += 1;
    }
    assert(keys@ =~= request_keys(pods@));
    let order = rank_top(&keys, TOP_PODS);
    let ghost all = ranking_of(keys@);
    let mut top: Vec<PodResourceInfo> = Vec::new();
    let mut k: usize = 0;
    while k < order.len()
        invariant
            k <= order.len() <= pods.len(),
            top@.len() == k,
            keys@ == request_keys(pods@),
            all == ranking_of(keys@),
            is_ranking(keys@, all),
            order@ == all.take(order@.len() as int),
            forall|j: int| 0 <= j < k ==> (#[trigger] top@[j]).profiles(pods@[all[j] as int]),
        decreases order.len() - k,
    {
        assert(order@[k as int] == all[k as int]);
        let profile = pod_profile(&pods[order[k]]);
        top.push(profile);
        k += 1;
    }
    proof {
        assert forall|a: int, b: int| 0 <= a < b < top@.len() implies (#[trigger] top@[a]).cpu_requests_millicores
            >= (#[trigger] top@[b]).cpu_requests_millicores by {
            assert(ranks_before(keys@, all[a] as int, all[b] as int));
        }
    }
    let mut explanation = String::new();
    explanation.append("Showing top 20 pods (out of ");
    push_nat(&mut explanation, pods.len() as u128);
    explanation.append(
        ") by CPU requests. Each pod shows CPU/memory requests and limits, along with the node it's scheduled on.",
    );
    proof {
        assert(explanation@ =~= stats_explanation(pods@.len()));
    }
    PodResourceStatsResponse {
        top_pods: top,
        total_pods: pods.len(),
        sorted_by: String::from_str("CPU requests (descending)"),
        explanation,
    }
}

impl PodResourceInfo {
    /// Whether two records say the same.
    pub open spec fn same_as(&self, other: Self) -> bool {
        &&& self.name@ == other.name@
        &&& self.namespace@ == other.namespace@
        &&& self.cpu_requests_millicores == other.cpu_requests_millicores
        &&& self.memory_requests_mb == other.memory_requests_mb
        &&& self.cpu_limits_millicores == other.cpu_limits_millicores
        &&& self.memory_limits_mb == other.memory_limits_mb
        &&& self.node@ == other.node@
    }
}

impl PodResourceStatsResponse {
    /// Whether two records say the same.
    pub open spec fn same_as(&self, other: Self) -> bool {
        &&& self.top_pods@.len() == other.top_pods@.len()
        &&& forall|i: int|
            0 <= i < self.top_pods@.len() ==> (#[trigger] self.top_pods@[i]).same_as(
                other.top_pods@[i],
            )
        &&& self.total_pods == other.total_pods
        &&& self.sorted_by@ == other.sorted_by@
        &&& self.explanation@ == other.explanation@
    }
}

/// Asked twice of the same pods, the statistics are the same.
pub proof fn lemma_stats_are_determined(
    a: PodResourceStatsResponse,
    b: PodResourceStatsResponse,
    pods: Seq<PodDescriptor>,
)
    requires
        a.describes(pods),
        b.describes(pods),
    ensures
        a.same_as(b),
{
    let order = ranking_of(request_keys(pods));
    assert forall|i: int| 0 <= i < a.top_pods@.len() implies (#[trigger] a.top_pods@[i]).same_as(
        b.top_pods@[i],
    ) by {
        assert(a.top_pods@[i].profiles(pods[order[i] as int]));
        assert(b.top_pods@[i].profiles(pods[order[i] as int]));
    }
}

/// The statistics show twenty pods at most, whatever the number of pods
/// that they count.
pub proof fn lemma_stats_show_twenty_at_most(r: PodResourceStatsResponse, pods: Seq<PodDescriptor>)
    requires
        r.describes(pods),
    ensures
        r.top_pods@.len() <= 20,
        r.top_pods@.len() <= pods.len(),
        r.total_pods == pods.len(),
{
}

/// The pods that the statistics show are in descending order of the
/// compute that they request.
pub proof fn lemma_stats_are_ranked(r: PodResourceStatsResponse, pods: Seq<PodDescriptor>)
    requires
        r.describes(pods),
    ensures
        r.is_descending(),
{
    let keys = request_keys(pods);
    let order = ranking_of(keys);
    lemma_ranking_exists(keys);
    assert forall|i: int, j: int| 0 <= i < j < r.top_pods@.len() implies (#[trigger] r.top_pods@[i]).cpu_requests_millicores
        >= (#[trigger] r.top_pods@[j]).cpu_requests_millicores by {
        assert(r.top_pods@[i].profiles(pods[order[i] as int]));
        assert(r.top_pods@[j].profiles(pods[order[j] as int]));
        assert(ranks_before(keys, order[i] as int, order[j] as int));
    }
}

} // verus!
