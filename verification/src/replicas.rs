//! Whether the cluster has room for more replicas of an application.
//!
//! What one replica costs is read off one pod that runs already: the first
//! pod of the namespace, in the order of the listing, that has the
//! application name in its own.  The verdict is as good as that pod is typical.
use crate::capacity::{
    capacity_of, get_cluster_capacity, name_or_empty, Capacity, ClusterCapacityResponse,
};
use crate::decimal::{saturate, MAX_AMOUNT};
use crate::error::{refused, InsightsError};
use crate::fit::{fits_within, Utilization};
use crate::inventory::{
    count_of, lemma_count_of_step, Declared, NodeDescriptor, PodDescriptor, Scale,
};
use crate::matching::{contains_text, text_contains};
use crate::pods::text_or;
use crate::text::{
    cores_text, fixed_text, gigabytes_text, int_text, nat_text, percent_text, push_cores,
    push_fixed, push_gigabytes, push_int, push_nat, push_percent,
};
use vstd::arithmetic::div_mod::{lemma_fundamental_div_mod, lemma_fundamental_div_mod_converse};
use vstd::prelude::*;
use vstd::string::StringExecFns;

verus! {

/// A request to judge whether `replica_count` more replicas of the
/// application `app_name` fit, the application living in `namespace`.
#[derive(Debug, PartialEq, Eq)]
pub struct CheckReplicaCapacityParams {
    pub app_name: String,
    pub namespace: String,
    pub replica_count: i32,
}

/// The verdict on more replicas.  Compute is in millicores and memory in
/// bytes.
#[derive(Debug, PartialEq, Eq)]
pub struct CheckReplicaCapacityResponse {
    pub fits: bool,
    pub reference_pod: String,
    pub cpu_per_replica_millicores: i64,
    pub memory_per_replica_bytes: i64,
    pub total_cpu_required_millicores: i64,
    pub total_memory_required_bytes: i64,
    pub available_cpu_millicores: i64,
    pub available_memory_bytes: i64,
    pub current_pod_count: usize,
    pub projected_cpu_utilization: Utilization,
    pub projected_memory_utilization: Utilization,
    pub explanation: String,
}

/// What is wrong with a request before any inventory is looked at.
pub open spec fn invalid_request(params: CheckReplicaCapacityParams) -> Option<InsightsError> {
    if params.replica_count <= 0 {
        Some(InsightsError::NonPositiveReplicaCount)
    } else if params.app_name@.len() == 0 {
        Some(InsightsError::EmptyAppName)
    } else if params.namespace@.len() == 0 {
        Some(InsightsError::EmptyNamespace)
    } else {
        None
    }
}

/// The error with which a request is turned down, given the pods of its
/// namespace: what is wrong with the request itself, or else that no pod of
/// the application is listed.
pub open spec fn refusal_of(
    params: CheckReplicaCapacityParams,
    listed: Seq<PodDescriptor>,
) -> Option<InsightsError> {
    if invalid_request(params) is Some {
        invalid_request(params)
    } else if replicas_listed(listed, params.app_name@) == 0 {
        Some(
            InsightsError::NoMatchingPods {
                app_name: params.app_name,
                namespace: params.namespace,
            },
        )
    } else {
        None
    }
}

/// Whether the pod has a name, and the application name in it.
pub open spec fn is_replica_of(pod: PodDescriptor, app_name: Seq<char>) -> bool {
    match pod.name {
        Some(n) => contains_text(n@, app_name),
        None => false,
    }
}

/// The first position at or after `from` at which a pod of the application
/// is listed, or the length of the listing if there is none.
pub open spec fn next_replica(pods: Seq<PodDescriptor>, app_name: Seq<char>, from: int) -> int
    decreases pods.len() - from,
{
    if 0 <= from < pods.len() && !is_replica_of(pods[from], app_name) {
        next_replica(pods, app_name, from + 1)
    } else {
        from
    }
}

/// How many pods of the application are listed.
pub open spec fn replicas_listed(pods: Seq<PodDescriptor>, app_name: Seq<char>) -> int {
    count_of(pods, |p: PodDescriptor| is_replica_of(p, app_name))
}

/// What `count` replicas need of a resource of which one needs `each`.
pub open spec fn needed_for(each: int, count: int) -> int {
    saturate(each * count)
}

/// How many whole replicas what is available pays for, zero where a replica
/// costs nothing.
pub open spec fn affordable(available: int, each: int) -> int {
    if each > 0 {
        available / each
    } else {
        0
    }
}

/// A demand for more replicas, worked out from the reference pod.
pub struct ReplicaDemand {
    pub app_name: Seq<char>,
    pub namespace: Seq<char>,
    pub replica_count: int,
    pub reference_pod: Seq<char>,
    pub cpu_each: int,
    pub memory_each: int,
    pub matching: nat,
}

impl ReplicaDemand {
    /// The compute that all the replicas need.
    pub open spec fn cpu(self) -> int {
        needed_for(self.cpu_each, self.replica_count)
    }

    /// The memory that all the replicas need.
    pub open spec fn memory(self) -> int {
        needed_for(self.memory_each, self.replica_count)
    }

    /// The first lines of the explanation: the verdict in a sentence.
    pub open spec fn heading(self, fits: bool) -> Seq<char> {
        if fits {
            "\u{2713} Capacity CHECK PASSED: You can add "@ + int_text(self.replica_count)
                + " more replicas of '"@ + self.app_name + "' in namespace '"@ + self.namespace
                + "'.\n\n"@
        } else {
            "\u{2717} Capacity CHECK FAILED: Cannot add "@ + int_text(self.replica_count)
                + " replicas of '"@ + self.app_name + "' in namespace '"@ + self.namespace
                + "'.\n\n"@
        }
    }

    /// The lines of the explanation that state what one replica costs and
    /// what all of them cost.
    pub open spec fn cost(self) -> Seq<char> {
        "Reference pod: "@ + self.reference_pod + "\n- CPU per replica: "@ + cores_text(
            self.cpu_each,
            3,
        ) + " cores\n- Memory per replica: "@ + gigabytes_text(self.memory_each, 3)
            + " GB\n\nTotal required for "@ + int_text(self.replica_count)
            + " replicas:\n- CPU: "@ + cores_text(self.cpu(), 3) + " cores\n- Memory: "@
            + gigabytes_text(self.memory(), 3) + " GB\n\n"@
    }

    /// The lines of the explanation that state what the cluster has left.
    pub open spec fn availability(self, c: Capacity) -> Seq<char> {
        "Cluster availability:\n- Available CPU: "@ + cores_text(c.available_cpu(), 3)
            + " cores (enough for "@ + enough_for_text(c.available_cpu(), self.cpu_each)
            + " replicas)\n- Available Memory: "@ + gigabytes_text(c.available_memory(), 3)
            + " GB (enough for "@ + enough_for_text(c.available_memory(), self.memory_each)
            + " replicas)\n\n"@
    }

    /// The lines of the explanation that state how much of the cluster
    /// would be in use, and how much is in use now.
    pub open spec fn projection(self, c: Capacity) -> Seq<char> {
        "Projected utilization after adding replicas:\n- CPU: "@ + percent_text(
            c.allocated_cpu + self.cpu(),
            c.total_cpu,
        ) + "% (current: "@ + percent_text(c.allocated_cpu, c.total_cpu) + "%)\n- Memory: "@
            + percent_text(c.allocated_memory + self.memory(), c.total_memory) + "% (current: "@
            + percent_text(c.allocated_memory, c.total_memory) + "%)\n\n"@
    }

    /// What the explanation says of compute where it is short.
    pub open spec fn cpu_issue(self, c: Capacity) -> Seq<char> {
        "CPU shortage: Need "@ + cores_text(self.cpu(), 3) + " cores but only "@ + cores_text(
            c.available_cpu(),
            3,
        ) + " available (shortfall: "@ + cores_text(self.cpu() - c.available_cpu(), 3)
            + " cores). Maximum possible replicas based on CPU: "@ + int_text(
            affordable(c.available_cpu(), self.cpu_each),
        )
    }

    /// What the explanation says of memory where it is short.
    pub open spec fn memory_issue(self, c: Capacity) -> Seq<char> {
        "Memory shortage: Need "@ + gigabytes_text(self.memory(), 3) + " GB but only "@
            + gigabytes_text(c.available_memory(), 3) + " GB available (shortfall: "@
            + gigabytes_text(self.memory() - c.available_memory(), 3)
            + " GB). Maximum possible replicas based on memory: "@ + int_text(
            affordable(c.available_memory(), self.memory_each),
        )
    }

    /// The lines of the explanation that name each resource that is short.
    pub open spec fn issues(self, c: Capacity) -> Seq<char> {
        let cpu_short = c.available_cpu() < self.cpu();
        let memory_short = c.available_memory() < self.memory();
        "Issues:\n"@ + (if cpu_short {
            self.cpu_issue(c)
        } else {
            Seq::empty()
        }) + (if cpu_short && memory_short {
            "\n"@
        } else {
            Seq::empty()
        }) + (if memory_short {
            self.memory_issue(c)
        } else {
            Seq::empty()
        }) + "\n\n"@
    }

    /// The last line of the explanation: how many pods of the application
    /// run already.
    pub open spec fn census(self) -> Seq<char> {
        "Current pods matching '"@ + self.app_name + "': "@ + nat_text(self.matching)
    }

    /// The explanation of the verdict on the demand against a capacity.
    pub open spec fn explanation(self, c: Capacity) -> Seq<char> {
        if fits_within(c, self.cpu(), self.memory()) {
            self.heading(true) + self.cost() + self.availability(c) + self.projection(c)
                + self.census()
        } else {
            self.heading(false) + self.cost() + self.issues(c) + self.census()
        }
    }
}

/// The number of replicas that what is available is enough for, as the
/// explanation of a passed check writes it: rounded to a whole number.
pub open spec fn enough_for_text(available: int, each: int) -> Seq<char> {
    if each > 0 {
        fixed_text(available, each as nat, 0)
    } else {
        fixed_text(0, 1, 0)
    }
}

/// The demand that a request makes where `reference` is the pod that it is
/// read off, and `matching` pods of the application run already.
pub open spec fn demand_from(
    params: CheckReplicaCapacityParams,
    reference: PodDescriptor,
    matching: nat,
) -> ReplicaDemand {
    ReplicaDemand {
        app_name: params.app_name@,
        namespace: params.namespace@,
        replica_count: params.replica_count as int,
        reference_pod: name_or_empty(reference.name),
        cpu_each: saturate(reference.total(Declared::CpuRequest, Scale::Fine)),
        memory_each: saturate(reference.total(Declared::MemoryRequest, Scale::Fine)),
        matching,
    }
}

/// The demand that a request makes, given the pods of its namespace.  It is
/// read off the first of them that is a pod of the application.
pub open spec fn demand_of(params: CheckReplicaCapacityParams, listed: Seq<PodDescriptor>) -> ReplicaDemand {
    demand_from(
        params,
        listed[next_replica(listed, params.app_name@, 0)],
        replicas_listed(listed, params.app_name@) as nat,
    )
}

impl CheckReplicaCapacityResponse {
    /// Whether the verdict is the one on the given demand against the given
    /// capacity.
    pub open spec fn answers(&self, d: ReplicaDemand, c: Capacity) -> bool {
        &&& self.fits == fits_within(c, d.cpu(), d.memory())
        &&& self.reference_pod@ == d.reference_pod
        &&& self.cpu_per_replica_millicores == d.cpu_each
        &&& self.memory_per_replica_bytes == d.memory_each
        &&& self.total_cpu_required_millicores == d.cpu()
        &&& self.total_memory_required_bytes == d.memory()
        &&& self.available_cpu_millicores == c.available_cpu()
        &&& self.available_memory_bytes == c.available_memory()
        &&& self.current_pod_count == d.matching
        &&& self.projected_cpu_utilization.used == c.allocated_cpu + d.cpu()
        &&& self.projected_cpu_utilization.total == c.total_cpu
        &&& self.projected_memory_utilization.used == c.allocated_memory + d.memory()
        &&& self.projected_memory_utilization.total == c.total_memory
        &&& self.explanation@ == d.explanation(c)
    }
}

impl CheckReplicaCapacityResponse {
    /// Whether two verdicts say the same.
    pub open spec fn same_as(&self, other: Self) -> bool {
        &&& self.fits == other.fits
        &&& self.reference_pod@ == other.reference_pod@
        &&& self.cpu_per_replica_millicores == other.cpu_per_replica_millicores
        &&& self.memory_per_replica_bytes == other.memory_per_replica_bytes
        &&& self.total_cpu_required_millicores == other.total_cpu_required_millicores
        &&& self.total_memory_required_bytes == other.total_memory_required_bytes
        &&& self.available_cpu_millicores == other.available_cpu_millicores
        &&& self.available_memory_bytes == other.available_memory_bytes
        &&& self.current_pod_count == other.current_pod_count
        &&& self.projected_cpu_utilization == other.projected_cpu_utilization
        &&& self.projected_memory_utilization == other.projected_memory_utilization
        &&& self.explanation@ == other.explanation@
    }
}

/// Asked twice of the same demand and capacity, the verdict on more
/// replicas is the same.
pub proof fn lemma_replica_verdict_is_determined(
    a: CheckReplicaCapacityResponse,
    b: CheckReplicaCapacityResponse,
    d: ReplicaDemand,
    c: Capacity,
)
    requires
        a.answers(d, c),
        b.answers(d, c),
    ensures
        a.same_as(b),
{
}

/// Says what is wrong with a request, if anything is: the number of
/// replicas is looked at first, then the application name, then the
/// namespace.
pub fn validate_request(params: &CheckReplicaCapacityParams) -> (r: Result<(), InsightsError>)
    ensures
        r == refused(invalid_request(*params)),
{
    if params.replica_count <= 0 {
        Err(InsightsError::NonPositiveReplicaCount)
    } else if params.app_name.as_str().is_empty() {
        Err(InsightsError::EmptyAppName)
    } else if params.namespace.as_str().is_empty() {
        Err(InsightsError::EmptyNamespace)
    } else {
        Ok(())
    }
}

/// Whether the pod has a name, and the application name in it.
pub fn pod_is_replica_of(pod: &PodDescriptor, app_name: &String) -> (b: bool)
    ensures
        b == is_replica_of(*pod, app_name@),
{
    match &pod.name {
        Some(n) => text_contains(n.as_str(), app_name.as_str()),
        None => false,
    }
}

/// Finds the pods of the application among those listed: where the first
/// of them stands, and how many there are.
pub fn find_replicas(listed: &Vec<PodDescriptor>, app_name: &String) -> (r: (usize, usize))
    ensures
        r.0 == next_replica(listed@, app_name@, 0),
        r.1 == replicas_listed(listed@, app_name@),
        r.0 <= listed@.len(),
        r.0 < listed@.len() <==> r.1 > 0,
{
    let ghost of_app = |p: PodDescriptor| is_replica_of(p, app_name@);
    let mut first: usize = listed.len();
    let mut count: usize = 0;
    let mut i: usize = 0;
    while i < listed.len()
        invariant
            i <= listed.len(),
            of_app == |p: PodDescriptor| is_replica_of(p, app_name@),
            count == count_of(listed@.take(i as int), of_app),
            count <= i,
            count == 0 ==> first == listed.len() && next_replica(listed@, app_name@, 0)
                == next_replica(listed@, app_name@, i as int),
            count > 0 ==> first < i && first == next_replica(listed@, app_name@, 0),
        decreases listed.len() - i,
    {
        proof {
            lemma_count_of_step(listed@, of_app, i as int);
        }
        if pod_is_replica_of(&listed[i], app_name) {
            if count == 0 {
                first = i;
            }
            count += 1;
        }
        i += 1;
    }
    proof {
        assert(listed@.take(i as int) =~= listed@);
    }
    (first, count)
}

/// What `count` replicas need of a resource of which one needs `each`.
pub fn needed(each: i64, count: i32) -> (r: i64)
    ensures
        r == needed_for(each as int, count as int),
{
    proof {
        assert(-0x8000_0000_0000_0000 * 0x8000_0000 <= each * count <= 0x8000_0000_0000_0000
            * 0x8000_0000) by (nonlinear_arith)
            requires
                -0x8000_0000_0000_0000 <= each <= 0x8000_0000_0000_0000,
                -0x8000_0000 <= count <= 0x8000_0000,
        ;
    }
    let product: i128 = each as i128 * count as i128;
    if product < 0 {
        0
    } else if product > MAX_AMOUNT as i128 {
        MAX_AMOUNT
    } else {
        product as i64
    }
}

/// How many whole replicas what is available pays for.
pub fn afford(available: i64, each: i64) -> (r: i64)
    ensures
        r == affordable(available as int, each as int),
{
    if each <= 0 {
        0
    } else if available >= 0 {
        available / each
    } else {
        let owed: i128 = -(available as i128);
        let d: i128 = each as i128;
        let q: i128 = owed / d;
        let rest: i128 = owed % d;
        proof {
            lemma_fundamental_div_mod(owed as int, d as int);
            assert(d * q == q * d) by (nonlinear_arith);
            assert(q <= owed - rest) by (nonlinear_arith)
                requires
                    owed == d * q + rest,
                    d >= 1,
                    q >= 0,
            ;
            if rest == 0 {
                assert(available == (-q) * d + 0) by (nonlinear_arith)
                    requires
                        -available == q * d + rest,
                        rest == 0,
                ;
                lemma_fundamental_div_mod_converse(available as int, d as int, -q, 0);
            } else {
                assert(available == (-q - 1) * d + (d - rest)) by (nonlinear_arith)
                    requires
                        -available == q * d + rest,
                ;
                lemma_fundamental_div_mod_converse(
                    available as int,
                    d as int,
                    -q - 1,
                    d - rest,
                );
            }
        }
        if rest == 0 {
            (-q) as i64
        } else {
            (-q - 1) as i64
        }
    }
}

/// The amounts of a demand, as they are computed.
struct Costs {
    cpu_each: i64,
    memory_each: i64,
    cpu: i64,
    memory: i64,
}

impl Costs {
    /// Whether these are the amounts of the demand `d`.
    spec fn of(&self, d: ReplicaDemand) -> bool {
        &&& self.cpu_each == d.cpu_each
        &&& self.memory_each == d.memory_each
        &&& self.cpu == d.cpu()
        &&& self.memory == d.memory()
        &&& 0 <= self.cpu_each
        &&& 0 <= self.memory_each
        &&& 0 <= self.cpu
        &&& 0 <= self.memory
    }
}

/// Writes the first lines of an explanation.
fn push_heading(
    out: &mut String,
    params: &CheckReplicaCapacityParams,
    fits: bool,
    Ghost(d): Ghost<ReplicaDemand>,
)
    requires
        d.app_name == params.app_name@,
        d.namespace == params.namespace@,
        d.replica_count == params.replica_count,
    ensures
        final(out)@ == old(out)@ + d.heading(fits),
{
    if fits {
        out.append("\u{2713} Capacity CHECK PASSED: You can add ");
        push_int(out, params.replica_count as i128);
        out.append(" more replicas of '");
    } else {
        out.append("\u{2717} Capacity CHECK FAILED: Cannot add ");
        push_int(out, params.replica_count as i128);
        out.append(" replicas of '");
    }
    out.append(params.app_name.as_str());
    out.append("' in namespace '");
    out.append(params.namespace.as_str());
    out.append("'.\n\n");
    proof {
        assert(final(out)@ =~= old(out)@ + d.heading(fits));
    }
}

/// Writes the lines that state what one replica costs and what all cost.
fn push_cost(
    out: &mut String,
    reference_pod: &String,
    replica_count: i32,
    costs: &Costs,
    Ghost(d): Ghost<ReplicaDemand>,
)
    requires
        costs.of(d),
        d.reference_pod == reference_pod@,
        d.replica_count == replica_count,
    ensures
        final(out)@ == old(out)@ + d.cost(),
{
    out.append("Reference pod: ");
    out.append(reference_pod.as_str());
    out.append("\n- CPU per replica: ");
    push_cores(out, costs.cpu_each as i128, 3);
    out.append(" cores\n- Memory per replica: ");
    push_gigabytes(out, costs.memory_each as i128, 3);
    out.append(" GB\n\nTotal required for ");
    push_int(out, replica_count as i128);
    out.append(" replicas:\n- CPU: ");
    push_cores(out, costs.cpu as i128, 3);
    out.append(" cores\n- Memory: ");
    push_gigabytes(out, costs.memory as i128, 3);
    out.append(" GB\n\n");
    proof {
        assert(final(out)@ =~= old(out)@ + d.cost());
    }
}

/// Writes the number of replicas that what is available is enough for.
fn push_enough_for(out: &mut String, available: i64, each: i64)
    ensures
        final(out)@ == old(out)@ + enough_for_text(available as int, each as int),
{
    if each > 0 {
        push_fixed(out, available as i128, each, 0);
    } else {
        push_fixed(out, 0, 1, 0);
    }
}

/// Writes the lines that state what the cluster has left.
fn push_availability(
    out: &mut String,
    capacity: &ClusterCapacityResponse,
    costs: &Costs,
    Ghost(d): Ghost<ReplicaDemand>,
)
    requires
        costs.of(d),
        capacity.consistent(),
    ensures
        final(out)@ == old(out)@ + d.availability(capacity.amounts()),
{
    out.append("Cluster availability:\n- Available CPU: ");
    push_cores(out, capacity.available_cpu_millicores as i128, 3);
    out.append(" cores (enough for ");
    push_enough_for(out, capacity.available_cpu_millicores, costs.cpu_each);
    out.append(" replicas)\n- Available Memory: ");
    push_gigabytes(out, capacity.available_memory_bytes as i128, 3);
    out.append(" GB (enough for ");
    push_enough_for(out, capacity.available_memory_bytes, costs.memory_each);
    out.append(" replicas)\n\n");
    proof {
        assert(final(out)@ =~= old(out)@ + d.availability(capacity.amounts()));
    }
}

/// Writes the lines that state how much of the cluster would be in use.
fn push_projection(
    out: &mut String,
    capacity: &ClusterCapacityResponse,
    costs: &Costs,
    Ghost(d): Ghost<ReplicaDemand>,
)
    requires
        costs.of(d),
        capacity.consistent(),
    ensures
        final(out)@ == old(out)@ + d.projection(capacity.amounts()),
{
    out.append("Projected utilization after adding replicas:\n- CPU: ");
    push_percent(
        out,
        capacity.allocated_cpu_millicores as i128 + costs.cpu as i128,
        capacity.total_cpu_millicores,
    );
    out.append("% (current: ");
    push_percent(out, capacity.allocated_cpu_millicores as i128, capacity.total_cpu_millicores);
    out.append("%)\n- Memory: ");
    push_percent(
        out,
        capacity.allocated_memory_bytes as i128 + costs.memory as i128,
        capacity.total_memory_bytes,
    );
    out.append("% (current: ");
    push_percent(out, capacity.allocated_memory_bytes as i128, capacity.total_memory_bytes);
    out.append("%)\n\n");
    proof {
        assert(final(out)@ =~= old(out)@ + d.projection(capacity.amounts()));
    }
}

/// Writes what an explanation says of compute where it is short.
fn push_cpu_issue(
    out: &mut String,
    capacity: &ClusterCapacityResponse,
    costs: &Costs,
    Ghost(d): Ghost<ReplicaDemand>,
)
    requires
        costs.of(d),
        capacity.consistent(),
    ensures
        final(out)@ == old(out)@ + d.cpu_issue(capacity.amounts()),
{
    let available = capacity.available_cpu_millicores;
    out.append("CPU shortage: Need ");
    push_cores(out, costs.cpu as i128, 3);
    out.append(" cores but only ");
    push_cores(out, available as i128, 3);
    out.append(" available (shortfall: ");
    push_cores(out, costs.cpu as i128 - available as i128, 3);
    out.append(" cores). Maximum possible replicas based on CPU: ");
    push_int(out, afford(available, costs.cpu_each) as i128);
    proof {
        assert(final(out)@ =~= old(out)@ + d.cpu_issue(capacity.amounts()));
    }
}

/// Writes what an explanation says of memory where it is short.
fn push_memory_issue(
    out: &mut String,
    capacity: &ClusterCapacityResponse,
    costs: &Costs,
    Ghost(d): Ghost<ReplicaDemand>,
)
    requires
        costs.of(d),
        capacity.consistent(),
    ensures
        final(out)@ == old(out)@ + d.memory_issue(capacity.amounts()),
{
    let available = capacity.available_memory_bytes;
    out.append("Memory shortage: Need ");
    push_gigabytes(out, costs.memory as i128, 3);
    out.append(" GB but only ");
    push_gigabytes(out, available as i128, 3);
    out.append(" GB available (shortfall: ");
    push_gigabytes(out, costs.memory as i128 - available as i128, 3);
    out.append(" GB). Maximum possible replicas based on memory: ");
    push_int(out, afford(available, costs.memory_each) as i128);
    proof {
        assert(final(out)@ =~= old(out)@ + d.memory_issue(capacity.amounts()));
    }
}

/// Writes the lines that name each resource that is short.
fn push_issues(
    out: &mut String,
    capacity: &ClusterCapacityResponse,
    costs: &Costs,
    Ghost(d): Ghost<ReplicaDemand>,
)
    requires
        costs.of(d),
        capacity.consistent(),
    ensures
        final(out)@ == old(out)@ + d.issues(capacity.amounts()),
{
    let cpu_short = capacity.available_cpu_millicores < costs.cpu;
    let memory_short = capacity.available_memory_bytes < costs.memory;
    out.append("Issues:\n");
    if cpu_short {
        push_cpu_issue(out, capacity, costs, Ghost(d));
    }
    if cpu_short && memory_short {
        out.append("\n");
    }
    if memory_short {
        push_memory_issue(out, capacity, costs, Ghost(d));
    }
    out.append("\n\n");
    proof {
        assert(final(out)@ =~= old(out)@ + d.issues(capacity.amounts()));
    }
}

/// Writes the last line of an explanation.
fn push_census(out: &mut String, app_name: &String, matching: usize, Ghost(d): Ghost<ReplicaDemand>)
    requires
        d.app_name == app_name@,
        d.matching == matching,
    ensures
        final(out)@ == old(out)@ + d.census(),
{
    out.append("Current pods matching '");
    out.append(app_name.as_str());
    out.append("': ");
    push_nat(out, matching as u128);
    proof {
        assert(final(out)@ =~= old(out)@ + d.census());
    }
}

/// Judges a request against a capacity, with `reference` as the pod that
/// the cost of a replica is read off and `matching` as the number of pods of
/// the application that run already.
pub fn evaluate_replicas(
    params: &CheckReplicaCapacityParams,
    reference: &PodDescriptor,
    matching: usize,
    capacity: &ClusterCapacityResponse,
) -> (r: CheckReplicaCapacityResponse)
    requires
        capacity.consistent(),
    ensures
        r.answers(demand_from(*params, *reference, matching as nat), capacity.amounts()),
{
    let ghost d = demand_from(*params, *reference, matching as nat);
    let ghost c = capacity.amounts();
    let reference_pod = text_or(&reference.name, "");
    proof {
        reveal_strlit("");
        assert(""@ =~= Seq::<char>::empty());
    }
    let cpu_each = reference.read_total(Declared::CpuRequest, Scale::Fine);
    let memory_each = reference.read_total(Declared::MemoryRequest, Scale::Fine);
    let costs = Costs {
        cpu_each,
        memory_each,
        cpu: needed(cpu_each, params.replica_count),
        memory: needed(memory_each, params.replica_count),
    };
    let fits = capacity.available_cpu_millicores >= costs.cpu && capacity.available_memory_bytes
        >= costs.memory;
    let mut explanation = String::new();
    push_heading(&mut explanation, params, fits, Ghost(d));
    push_cost(&mut explanation, &reference_pod, params.replica_count, &costs, Ghost(d));
    if fits {
        push_availability(&mut explanation, capacity, &costs, Ghost(d));
        push_projection(&mut explanation, capacity, &costs, Ghost(d));
    } else {
        push_issues(&mut explanation, capacity, &costs, Ghost(d));
    }
    push_census(&mut explanation, &params.app_name, matching, Ghost(d));
    proof {
        assert(explanation@ =~= d.explanation(c));
    }
    CheckReplicaCapacityResponse {
        fits,
        reference_pod,
        cpu_per_replica_millicores: cpu_each,
        memory_per_replica_bytes: memory_each,
        total_cpu_required_millicores: costs.cpu,
        total_memory_required_bytes: costs.memory,
        available_cpu_millicores: capacity.available_cpu_millicores,
        available_memory_bytes: capacity.available_memory_bytes,
        current_pod_count: matching,
        projected_cpu_utilization: Utilization {
            used: capacity.allocated_cpu_millicores as u64 + costs.cpu as u64,
            total: capacity.total_cpu_millicores as u64,
        },
        projected_memory_utilization: Utilization {
            used: capacity.allocated_memory_bytes as u64 + costs.memory as u64,
            total: capacity.total_memory_bytes as u64,
        },
        explanation,
    }
}

/// Whether the cluster of the given inventory has room for more replicas
/// of an application.  `listed` are the pods of the request's namespace, in
/// the order in which the inventory lists them.
///
/// A request that is wrong in itself is refused whatever the inventory
/// holds.  A request for an application of which no pod is listed is refused
/// too.  Every other request gets its verdict.
pub fn check_replica_capacity(
    params: &CheckReplicaCapacityParams,
    listed: &Vec<PodDescriptor>,
    nodes: &Vec<NodeDescriptor>,
    pods: &Vec<PodDescriptor>,
) -> (r: Result<CheckReplicaCapacityResponse, InsightsError>)
    ensures
        r is Err <==> refusal_of(*params, listed@) is Some,
        r is Err ==> refusal_of(*params, listed@) == Some(r->Err_0),
        r is Ok ==> r->Ok_0.answers(demand_of(*params, listed@), capacity_of(nodes@, pods@)),
{
    match validate_request(params) {
        Err(e) => Err(e),
        Ok(_) => {
            let (first, matching) = find_replicas(listed, &params.app_name);
            if matching == 0 {
                Err(
                    InsightsError::NoMatchingPods {
                        app_name: params.app_name.clone(),
                        namespace: params.namespace.clone(),
                    },
                )
            } else {
                let capacity = get_cluster_capacity(nodes, pods);
                Ok(evaluate_replicas(params, &listed[first], matching, &capacity))
            }
        },
    }
}

} // verus!
