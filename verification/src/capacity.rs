//! What the cluster has, what is spoken for, and what is left: for the
//! cluster as a whole and node by node.
use crate::decimal::{saturate, MAX_AMOUNT};
use crate::inventory::{
    add_amounts, bytes_declared, count_of, lemma_count_of_step, lemma_sum_of_step,
    millicores_declared, read_compute, read_memory, sum_of, Declared, NodeDescriptor,
    PodDescriptor, Scale,
};
use crate::text::{
    cores_text, gigabytes_text, nat_text, percent_text, push_cores, push_gigabytes, push_nat,
    push_percent,
};
use vstd::prelude::*;
use vstd::string::StringExecFns;

verus! {

/// The capacity of a cluster at one moment.  Compute is in millicores and
/// memory in bytes.  What is available is what is left of the total once the
/// requests are taken off; it is below zero where more is requested than
/// there is.
#[derive(Debug, PartialEq, Eq)]
pub struct ClusterCapacityResponse {
    pub total_cpu_millicores: i64,
    pub total_memory_bytes: i64,
    pub allocated_cpu_millicores: i64,
    pub allocated_memory_bytes: i64,
    pub available_cpu_millicores: i64,
    pub available_memory_bytes: i64,
    pub node_count: usize,
    pub explanation: String,
}

/// The compute that the nodes declare together, in millicores.
pub open spec fn cpu_capacity(nodes: Seq<NodeDescriptor>) -> int {
    sum_of(nodes, |n: NodeDescriptor| millicores_declared(n.cpu_capacity))
}

/// The memory that the nodes declare together, in bytes.
pub open spec fn memory_capacity(nodes: Seq<NodeDescriptor>) -> int {
    sum_of(nodes, |n: NodeDescriptor| bytes_declared(n.memory_capacity))
}

/// What the containers of all the pods declare together.
pub open spec fn declared_by(pods: Seq<PodDescriptor>, what: Declared) -> int {
    sum_of(pods, |p: PodDescriptor| p.total(what, Scale::Fine))
}

/// The amounts of a capacity: what there is of each resource and what of it
/// is requested, compute in millicores and memory in bytes.
pub struct Capacity {
    pub total_cpu: int,
    pub total_memory: int,
    pub allocated_cpu: int,
    pub allocated_memory: int,
}

impl Capacity {
    /// The compute that is left.  It is below zero where more is requested
    /// than there is.
    pub open spec fn available_cpu(self) -> int {
        self.total_cpu - self.allocated_cpu
    }

    /// The memory that is left.
    pub open spec fn available_memory(self) -> int {
        self.total_memory - self.allocated_memory
    }

    /// Whether nothing of the capacity is below zero or above `MAX_AMOUNT`.
    pub open spec fn in_range(self) -> bool {
        &&& 0 <= self.total_cpu <= MAX_AMOUNT
        &&& 0 <= self.total_memory <= MAX_AMOUNT
        &&& 0 <= self.allocated_cpu <= MAX_AMOUNT
        &&& 0 <= self.allocated_memory <= MAX_AMOUNT
    }
}

/// The capacity of the given nodes under the requests of the given pods.
pub open spec fn capacity_of(nodes: Seq<NodeDescriptor>, pods: Seq<PodDescriptor>) -> Capacity {
    Capacity {
        total_cpu: saturate(cpu_capacity(nodes)),
        total_memory: saturate(memory_capacity(nodes)),
        allocated_cpu: saturate(declared_by(pods, Declared::CpuRequest)),
        allocated_memory: saturate(declared_by(pods, Declared::MemoryRequest)),
    }
}

/// The sentence that goes with a cluster's capacity.
pub open spec fn capacity_explanation(node_count: nat, c: Capacity) -> Seq<char> {
    "Cluster has "@ + nat_text(node_count) + " nodes. Total capacity: "@ + cores_text(
        c.total_cpu,
        2,
    ) + " CPU cores, "@ + gigabytes_text(c.total_memory, 2) + " GB memory. Allocated (requests): "@
        + cores_text(c.allocated_cpu, 2) + " CPU cores ("@ + percent_text(
        c.allocated_cpu,
        c.total_cpu,
    ) + "%), "@ + gigabytes_text(c.allocated_memory, 2) + " GB memory ("@ + percent_text(
        c.allocated_memory,
        c.total_memory,
    ) + "%). Available: "@ + cores_text(c.available_cpu(), 2) + " CPU cores, "@ + gigabytes_text(
        c.available_memory(),
        2,
    ) + " GB memory."@
}

impl ClusterCapacityResponse {
    /// The amounts that the record holds.
    pub open spec fn amounts(&self) -> Capacity {
        Capacity {
            total_cpu: self.total_cpu_millicores as int,
            total_memory: self.total_memory_bytes as int,
            allocated_cpu: self.allocated_cpu_millicores as int,
            allocated_memory: self.allocated_memory_bytes as int,
        }
    }

    /// Whether the amounts of the record go together: nothing is below zero
    /// but what is available, and that is the total less what is allocated.
    pub open spec fn consistent(&self) -> bool {
        &&& self.amounts().in_range()
        &&& self.available_cpu_millicores == self.amounts().available_cpu()
        &&& self.available_memory_bytes == self.amounts().available_memory()
    }

    /// Whether the record is the capacity of the given nodes under the
    /// requests of the given pods.
    pub open spec fn describes(&self, nodes: Seq<NodeDescriptor>, pods: Seq<PodDescriptor>) -> bool {
        &&& self.amounts() == capacity_of(nodes, pods)
        &&& self.consistent()
        &&& self.node_count == nodes.len()
        &&& self.explanation@ == capacity_explanation(nodes.len(), self.amounts())
    }
}

/// Adds up the capacity that the nodes declare: compute, then memory.
pub fn total_capacity(nodes: &Vec<NodeDescriptor>) -> (r: (i64, i64))
    ensures
        r.0 == saturate(cpu_capacity(nodes@)),
        r.1 == saturate(memory_capacity(nodes@)),
        0 <= r.0,
        0 <= r.1,
{
    let ghost fc = |n: NodeDescriptor| millicores_declared(n.cpu_capacity);
    let ghost fm = |n: NodeDescriptor| bytes_declared(n.memory_capacity);
    let mut cpu: i64 = 0;
    let mut memory: i64 = 0;
    let mut i: usize = 0;
    while i < nodes.len()
        invariant
            i <= nodes.len(),
            fc == |n: NodeDescriptor| millicores_declared(n.cpu_capacity),
            fm == |n: NodeDescriptor| bytes_declared(n.memory_capacity),
            0 <= sum_of(nodes@.take(i as int), fc),
            0 <= sum_of(nodes@.take(i as int), fm),
            cpu == saturate(sum_of(nodes@.take(i as int), fc)),
            memory == saturate(sum_of(nodes@.take(i as int), fm)),
        decreases nodes.len() - i,
    {
        let c = read_compute(&nodes[i].cpu_capacity);
        let m = read_memory(&nodes[i].memory_capacity, Scale::Fine);
        proof {
            lemma_sum_of_step(nodes@, fc, i as int);
            lemma_sum_of_step(nodes@, fm, i as int);
        }
        cpu = add_amounts(cpu, c);
        memory = add_amounts(memory, m);
        i += 1;
    }
    proof {
        assert(nodes@.take(i as int) =~= nodes@);
    }
    (cpu, memory)
}

/// Adds up what the containers of all the pods declare.
pub fn total_declared(pods: &Vec<PodDescriptor>, what: Declared) -> (r: i64)
    ensures
        r == saturate(declared_by(pods@, what)),
        0 <= r,
{
    let ghost f = |p: PodDescriptor| p.total(what, Scale::Fine);
    let mut acc: i64 = 0;
    let mut i: usize = 0;
    while i < pods.len()
        invariant
            i <= pods.len(),
            f == |p: PodDescriptor| p.total(what, Scale::Fine),
            0 <= sum_of(pods@.take(i as int), f),
            acc == saturate(sum_of(pods@.take(i as int), f)),
        decreases pods.len() - i,
    {
        let x = pods[i].read_total(what, Scale::Fine);
        proof {
            lemma_sum_of_step(pods@, f, i as int);
        }
        acc = add_amounts(acc, x);
        i += 1;
    }
    proof {
        assert(pods@.take(i as int) =~= pods@);
    }
    acc
}

/// Writes the sentence that goes with a cluster's capacity.
fn explain_capacity(
    node_count: usize,
    total_cpu: i64,
    total_memory: i64,
    allocated_cpu: i64,
    allocated_memory: i64,
) -> (text: String)
    requires
        0 <= total_cpu,
        0 <= total_memory,
        0 <= allocated_cpu,
        0 <= allocated_memory,
    ensures
        text@ == capacity_explanation(
            node_count as nat,
            (Capacity {
                total_cpu: total_cpu as int,
                total_memory: total_memory as int,
                allocated_cpu: allocated_cpu as int,
                allocated_memory: allocated_memory as int,
            }),
        ),
{
    let mut text = String::new();
    text.append("Cluster has ");
    push_nat(&mut text, node_count as u128);
    text.append(" nodes. Total capacity: ");
    push_cores(&mut text, total_cpu as i128, 2);
    text.append(" CPU cores, ");
    push_gigabytes(&mut text, total_memory as i128, 2);
    text.append(" GB memory. Allocated (requests): ");
    push_cores(&mut text, allocated_cpu as i128, 2);
    text.append(" CPU cores (");
    push_percent(&mut text, allocated_cpu as i128, total_cpu);
    text.append("%), ");
    push_gigabytes(&mut text, allocated_memory as i128, 2);
    text.append(" GB memory (");
    push_percent(&mut text, allocated_memory as i128, total_memory);
    text.append("%). Available: ");
    push_cores(&mut text, (total_cpu - allocated_cpu) as i128, 2);
    text.append(" CPU cores, ");
    push_gigabytes(&mut text, (total_memory - allocated_memory) as i128, 2);
    text.append(" GB memory.");
    proof {
        assert(text@ =~= capacity_explanation(
            node_count as nat,
            Capacity {
                total_cpu: total_cpu as int,
                total_memory: total_memory as int,
                allocated_cpu: allocated_cpu as int,
                allocated_memory: allocated_memory as int,
            },
        ));
    }
    text
}

/// The capacity of the cluster: what its nodes declare, what the containers
/// of its pods request, and the difference.  A pod counts wherever it runs,
/// and also where it has not been scheduled.
pub fn get_cluster_capacity(nodes: &Vec<NodeDescriptor>, pods: &Vec<PodDescriptor>) -> (r:
    ClusterCapacityResponse)
    ensures
        r.describes(nodes@, pods@),
{
    let (total_cpu, total_memory) = total_capacity(nodes);
    let allocated_cpu = total_declared(pods, Declared::CpuRequest);
    let allocated_memory = total_declared(pods, Declared::MemoryRequest);
    let explanation = explain_capacity(
        nodes.len(),
        total_cpu,
        total_memory,
        allocated_cpu,
        allocated_memory,
    );
    ClusterCapacityResponse {
        total_cpu_millicores: total_cpu,
        total_memory_bytes: total_memory,
        allocated_cpu_millicores: allocated_cpu,
        allocated_memory_bytes: allocated_memory,
        available_cpu_millicores: total_cpu - allocated_cpu,
        available_memory_bytes: total_memory - allocated_memory,
        node_count: nodes.len(),
        explanation,
    }
}

/// One node's share of the capacity: what it declares, what the pods that
/// run on it request, and the difference.
#[derive(Debug, PartialEq, Eq)]
pub struct NodeInfo {
    pub name: String,
    pub total_cpu_millicores: i64,
    pub total_memory_bytes: i64,
    pub allocated_cpu_millicores: i64,
    pub allocated_memory_bytes: i64,
    pub available_cpu_millicores: i64,
    pub available_memory_bytes: i64,
    pub pod_count: usize,
}

/// The capacity of the cluster node by node, in the order of the listing.
#[derive(Debug, PartialEq, Eq)]
pub struct NodeBreakdownResponse {
    pub nodes: Vec<NodeInfo>,
    pub total_nodes: usize,
    pub explanation: String,
}

/// The name that is listed, or the empty name where none is.
pub open spec fn name_or_empty(name: Option<String>) -> Seq<char> {
    match name {
        Some(n) => n@,
        None => Seq::empty(),
    }
}

/// Whether the pod has been assigned to the node of that name.  A pod that
/// has not been scheduled runs on no node, whatever the node is called.
pub open spec fn runs_on(pod: PodDescriptor, node: Seq<char>) -> bool {
    match pod.node_name {
        Some(n) => n@ == node,
        None => false,
    }
}

/// What the containers of the pods on one node declare together.
pub open spec fn declared_on(pods: Seq<PodDescriptor>, node: Seq<char>, what: Declared) -> int {
    sum_of(
        pods,
        |p: PodDescriptor|
            if runs_on(p, node) {
                p.total(what, Scale::Fine)
            } else {
                0
            },
    )
}

/// How many of the pods run on one node.
pub open spec fn pods_on(pods: Seq<PodDescriptor>, node: Seq<char>) -> int {
    count_of(pods, |p: PodDescriptor| runs_on(p, node))
}

/// The sentence that goes with a breakdown by node.
pub open spec fn breakdown_explanation(node_count: nat) -> Seq<char> {
    "Cluster has "@ + nat_text(node_count)
        + " nodes. Each node shows total capacity, allocated resources (requests), available resources, and pod count."@
}

impl NodeInfo {
    /// Whether the record is the share of the given node under the requests
    /// of the given pods.
    pub open spec fn describes(&self, node: NodeDescriptor, pods: Seq<PodDescriptor>) -> bool {
        &&& self.name@ == name_or_empty(node.name)
        &&& self.total_cpu_millicores == millicores_declared(node.cpu_capacity)
        &&& self.total_memory_bytes == bytes_declared(node.memory_capacity)
        &&& self.allocated_cpu_millicores == saturate(
            declared_on(pods, self.name@, Declared::CpuRequest),
        )
        &&& self.allocated_memory_bytes == saturate(
            declared_on(pods, self.name@, Declared::MemoryRequest),
        )
        &&& self.available_cpu_millicores == self.total_cpu_millicores
            - self.allocated_cpu_millicores
        &&& self.available_memory_bytes == self.total_memory_bytes - self.allocated_memory_bytes
        &&& self.pod_count == pods_on(pods, self.name@)
    }
}

impl NodeBreakdownResponse {
    /// Whether the record is the breakdown of the given nodes under the
    /// requests of the given pods: one share for each node, in the order
    /// of the listing.
    pub open spec fn describes(&self, nodes: Seq<NodeDescriptor>, pods: Seq<PodDescriptor>) -> bool {
        &&& self.nodes@.len() == nodes.len()
        &&& forall|i: int|
            0 <= i < nodes.len() ==> (#[trigger] self.nodes@[i]).describes(nodes[i], pods)
        &&& self.total_nodes == nodes.len()
        &&& self.explanation@ == breakdown_explanation(nodes.len())
    }
}

/// Whether the pod has been assigned to the node of that name.
pub fn pod_runs_on(pod: &PodDescriptor, node: &String) -> (b: bool)
    ensures
        b == runs_on(*pod, node@),
{
    match &pod.node_name {
        Some(n) => *n == *node,
        None => false,
    }
}

/// One node's share of the capacity.
pub fn node_info(node: &NodeDescriptor, pods: &Vec<PodDescriptor>) -> (r: NodeInfo)
    ensures
        r.describes(*node, pods@),
{
    let name = match &node.name {
        Some(n) => n.clone(),
        None => String::new(),
    };
    let total_cpu = read_compute(&node.cpu_capacity);
    let total_memory = read_memory(&node.memory_capacity, Scale::Fine);
    let ghost on = |p: PodDescriptor| runs_on(p, name@);
    let ghost fc = |p: PodDescriptor|
        if runs_on(p, name@) {
            p.total(Declared::CpuRequest, Scale::Fine)
        } else {
            0
        };
    let ghost fm = |p: PodDescriptor|
        if runs_on(p, name@) {
            p.total(Declared::MemoryRequest, Scale::Fine)
        } else {
            0
        };
    let mut cpu: i64 = 0;
    let mut memory: i64 = 0;
    let mut count: usize = 0;
    let mut i: usize = 0;
    while i < pods.len()
        invariant
            i <= pods.len(),
            on == |p: PodDescriptor| runs_on(p, name@),
            fc == |p: PodDescriptor|
                if runs_on(p, name@) {
                    p.total(Declared::CpuRequest, Scale::Fine)
                } else {
                    0
                },
            fm == |p: PodDescriptor|
                if runs_on(p, name@) {
                    p.total(Declared::MemoryRequest, Scale::Fine)
                } else {
                    0
                },
            0 <= sum_of(pods@.take(i as int), fc),
            0 <= sum_of(pods@.take(i as int), fm),
            cpu == saturate(sum_of(pods@.take(i as int), fc)),
            memory == saturate(sum_of(pods@.take(i as int), fm)),
            count == count_of(pods@.take(i as int), on),
            count <= i,
        decreases pods.len() - i,
    {
        proof {
            lemma_sum_of_step(pods@, fc, i as int);
            lemma_sum_of_step(pods@, fm, i as int);
            lemma_count_of_step(pods@, on, i as int);
        }
        if pod_runs_on(&pods[i], &name) {
            let c = pods[i].read_total(Declared::CpuRequest, Scale::Fine);
            let m = pods[i].read_total(Declared::MemoryRequest, Scale::Fine);
            cpu = add_amounts(cpu, c);
            memory = add_amounts(memory, m);
            count += 1;
        }
        i += 1;
    }
    proof {
        assert(pods@.take(i as int) =~= pods@);
    }
    NodeInfo {
        name,
        total_cpu_millicores: total_cpu,
        total_memory_bytes: total_memory,
        allocated_cpu_millicores: cpu,
        allocated_memory_bytes: memory,
        available_cpu_millicores: total_cpu - cpu,
        available_memory_bytes: total_memory - memory,
        pod_count: count,
    }
}

/// The capacity of the cluster node by node.  A pod counts for the node
/// whose name is the pod's node name, letter for letter; a pod that has not
/// been scheduled counts for none.
pub fn get_node_breakdown(nodes: &Vec<NodeDescriptor>, pods: &Vec<PodDescriptor>) -> (r:
    NodeBreakdownResponse)
    ensures
        r.describes(nodes@, pods@),
{
    let mut infos: Vec<NodeInfo> = Vec::new();
    let mut i: usize = 0;
    while i < nodes.len()
        invariant
            i <= nodes.len(),
            infos@.len() == i,
            forall|j: int| 0 <= j < i ==> (#[trigger] infos@[j]).describes(nodes@[j], pods@),
        decreases nodes.len() - i,
    {
        let info = node_info(&nodes[i], pods);
        infos.push(info);
        i += 1;
    }
    let mut explanation = String::new();
    explanation.append("Cluster has ");
    push_nat(&mut explanation, infos.len() as u128);
    explanation.append(
        " nodes. Each node shows total capacity, allocated resources (requests), available resources, and pod count.",
    );
    proof {
        assert(explanation@ =~= breakdown_explanation(nodes@.len()));
    }
    NodeBreakdownResponse { total_nodes: infos.len(), nodes: infos, explanation }
}

impl ClusterCapacityResponse {
    /// Whether two records say the same.
    pub open spec fn same_as(&self, other: Self) -> bool {
        &&& self.amounts() == other.amounts()
        &&& self.available_cpu_millicores == other.available_cpu_millicores
        &&& self.available_memory_bytes == other.available_memory_bytes
        &&& self.node_count == other.node_count
        &&& self.explanation@ == other.explanation@
    }
}

impl NodeInfo {
    /// Whether two records say the same.
    pub open spec fn same_as(&self, other: Self) -> bool {
        &&& self.name@ == other.name@
        &&& self.total_cpu_millicores == other.total_cpu_millicores
        &&& self.total_memory_bytes == other.total_memory_bytes
        &&& self.allocated_cpu_millicores == other.allocated_cpu_millicores
        &&& self.allocated_memory_bytes == other.allocated_memory_bytes
        &&& self.available_cpu_millicores == other.available_cpu_millicores
        &&& self.available_memory_bytes == other.available_memory_bytes
        &&& self.pod_count == other.pod_count
    }
}

impl NodeBreakdownResponse {
    /// Whether two records say the same.
    pub open spec fn same_as(&self, other: Self) -> bool {
        &&& self.nodes@.len() == other.nodes@.len()
        &&& forall|i: int|
            0 <= i < self.nodes@.len() ==> (#[trigger] self.nodes@[i]).same_as(other.nodes@[i])
        &&& self.total_nodes == other.total_nodes
        &&& self.explanation@ == other.explanation@
    }
}

/// Asked twice of the same inventory, the capacity of the cluster is the
/// same.
pub proof fn lemma_capacity_is_determined(
    a: ClusterCapacityResponse,
    b: ClusterCapacityResponse,
    nodes: Seq<NodeDescriptor>,
    pods: Seq<PodDescriptor>,
)
    requires
        a.describes(nodes, pods),
        b.describes(nodes, pods),
    ensures
        a.same_as(b),
{
}

/// Asked twice of the same inventory, the breakdown by node is the same.
pub proof fn lemma_breakdown_is_determined(
    a: NodeBreakdownResponse,
    b: NodeBreakdownResponse,
    nodes: Seq<NodeDescriptor>,
    pods: Seq<PodDescriptor>,
)
    requires
        a.describes(nodes, pods),
        b.describes(nodes, pods),
    ensures
        a.same_as(b),
{
    assert forall|i: int| 0 <= i < a.nodes@.len() implies (#[trigger] a.nodes@[i]).same_as(
        b.nodes@[i],
    ) by {
        assert(a.nodes@[i].describes(nodes[i], pods));
        assert(b.nodes@[i].describes(nodes[i], pods));
    }
}

/// A pod that has not been scheduled adds what it declares to what the
/// cluster counts, and to what no node counts: the amounts of the nodes need
/// not add up to the amounts of the cluster.
pub proof fn lemma_unscheduled_pod_counts_for_no_node(
    pods: Seq<PodDescriptor>,
    pod: PodDescriptor,
    node: Seq<char>,
    what: Declared,
)
    requires
        pod.node_name is None,
    ensures
        declared_by(pods.push(pod), what) == declared_by(pods, what) + pod.total(
            what,
            Scale::Fine,
        ),
        declared_on(pods.push(pod), node, what) == declared_on(pods, node, what),
        pods_on(pods.push(pod), node) == pods_on(pods, node),
{
    assert(pods.push(pod).drop_last() =~= pods);
}

/// In the capacity of a cluster, what is available of a resource is the
/// total less what is allocated, also where that is less than nothing.
pub proof fn lemma_available_is_what_is_left(
    r: ClusterCapacityResponse,
    nodes: Seq<NodeDescriptor>,
    pods: Seq<PodDescriptor>,
)
    requires
        r.describes(nodes, pods),
    ensures
        r.available_cpu_millicores == r.total_cpu_millicores - r.allocated_cpu_millicores,
        r.available_memory_bytes == r.total_memory_bytes - r.allocated_memory_bytes,
{
}

/// In the share of every node, what is available of a resource is the
/// total less what is allocated, also where that is less than nothing.
pub proof fn lemma_available_on_every_node(
    r: NodeBreakdownResponse,
    nodes: Seq<NodeDescriptor>,
    pods: Seq<PodDescriptor>,
    i: int,
)
    requires
        r.describes(nodes, pods),
        0 <= i < nodes.len(),
    ensures
        r.nodes@[i].available_cpu_millicores == r.nodes@[i].total_cpu_millicores
            - r.nodes@[i].allocated_cpu_millicores,
        r.nodes@[i].available_memory_bytes == r.nodes@[i].total_memory_bytes
            - r.nodes@[i].allocated_memory_bytes,
{
    assert(r.nodes@[i].describes(nodes[i], pods));
}

} // verus!
