//! Whether a demand fits into what the cluster has left.
use crate::capacity::{capacity_of, get_cluster_capacity, Capacity, ClusterCapacityResponse};
use crate::error::{refused, InsightsError};
use crate::inventory::{NodeDescriptor, PodDescriptor};
use crate::text::{
    cores_text, gigabytes_text, percent_text, push_cores, push_gigabytes, push_percent,
};
use vstd::prelude::*;
use vstd::string::StringExecFns;

verus! {

/// A share of a whole, kept as the two amounts.  As a percentage it is
/// `used * 100 / total`; where the whole is zero it is zero percent.
#[derive(Debug, PartialEq, Eq)]
pub struct Utilization {
    pub used: u64,
    pub total: u64,
}

impl Utilization {
    /// The share in millionths of a percent, rounded down; zero where the
    /// whole is zero.
    pub open spec fn millionths_of_percent(self) -> int {
        if self.total > 0 {
            (self.used * 100_000_000) / (self.total as int)
        } else {
            0
        }
    }

    /// The share in millionths of a percent.
    pub fn percent_millionths(&self) -> (r: u128)
        ensures
            r == self.millionths_of_percent(),
    {
        if self.total > 0 {
            (self.used as u128 * 100_000_000) / (self.total as u128)
        } else {
            0
        }
    }
}

/// A demand for compute, in millicores, and for memory, in bytes.
#[derive(Debug, PartialEq, Eq)]
pub struct CheckResourceFitParams {
    pub cpu_millicores: i64,
    pub memory_bytes: i64,
}

/// The verdict on a demand: whether it fits, what was available when it was
/// judged, and how much of the cluster would be in use with it admitted.
#[derive(Debug, PartialEq, Eq)]
pub struct CheckResourceFitResponse {
    pub fits: bool,
    pub available_cpu_millicores: i64,
    pub available_memory_bytes: i64,
    pub cpu_utilization: Utilization,
    pub memory_utilization: Utilization,
    pub explanation: String,
}

/// Whether a demand fits into what a capacity has left: it does where
/// neither resource is short.
pub open spec fn fits_within(c: Capacity, cpu: int, memory: int) -> bool {
    c.available_cpu() >= cpu && c.available_memory() >= memory
}

/// What is wrong with a demand before any inventory is looked at.
pub open spec fn invalid_demand(cpu: int, memory: int) -> Option<InsightsError> {
    if cpu < 0 {
        Some(InsightsError::NegativeCpu)
    } else if memory < 0 {
        Some(InsightsError::NegativeMemory)
    } else {
        None
    }
}

/// The part of a verdict's explanation that states the demand and what is
/// available.
pub open spec fn demand_text(
    available_cpu: int,
    available_memory: int,
    cpu: int,
    memory: int,
) -> Seq<char> {
    "Requested: "@ + cores_text(cpu, 2) + " CPU cores, "@ + gigabytes_text(memory, 2)
        + " GB memory. Available: "@ + cores_text(available_cpu, 2) + " CPU cores, "@
        + gigabytes_text(available_memory, 2) + " GB memory. "@
}

/// What the explanation says of compute where it is short, and nothing
/// where it is not.
pub open spec fn cpu_shortage_text(available: int, demand: int) -> Seq<char> {
    if available < demand {
        "CPU shortage: "@ + cores_text(demand - available, 2) + " cores needed but only "@
            + cores_text(available, 2) + " available. "@
    } else {
        Seq::empty()
    }
}

/// What the explanation says of memory where it is short, and nothing
/// where it is not.
pub open spec fn memory_shortage_text(available: int, demand: int) -> Seq<char> {
    if available < demand {
        "Memory shortage: "@ + gigabytes_text(demand - available, 2) + " GB needed but only "@
            + gigabytes_text(available, 2) + " GB available."@
    } else {
        Seq::empty()
    }
}

/// The explanation of a verdict.
pub open spec fn fit_explanation(c: Capacity, cpu: int, memory: int) -> Seq<char> {
    if fits_within(c, cpu, memory) {
        "Resources FIT in cluster. "@ + demand_text(
            c.available_cpu(),
            c.available_memory(),
            cpu,
            memory,
        ) + "After allocation, cluster would be at "@ + percent_text(
            c.allocated_cpu + cpu,
            c.total_cpu,
        ) + "% CPU and "@ + percent_text(c.allocated_memory + memory, c.total_memory)
            + "% memory utilization."@
    } else {
        "Resources DO NOT FIT in cluster. "@ + demand_text(
            c.available_cpu(),
            c.available_memory(),
            cpu,
            memory,
        ) + cpu_shortage_text(c.available_cpu(), cpu) + memory_shortage_text(
            c.available_memory(),
            memory,
        )
    }
}

impl CheckResourceFitResponse {
    /// Whether the verdict is the one on the given demand against the given
    /// capacity.
    pub open spec fn answers(&self, c: Capacity, cpu: int, memory: int) -> bool {
        &&& self.fits == fits_within(c, cpu, memory)
        &&& self.available_cpu_millicores == c.available_cpu()
        &&& self.available_memory_bytes == c.available_memory()
        &&& self.cpu_utilization.used == c.allocated_cpu + cpu
        &&& self.cpu_utilization.total == c.total_cpu
        &&& self.memory_utilization.used == c.allocated_memory + memory
        &&& self.memory_utilization.total == c.total_memory
        &&& self.explanation@ == fit_explanation(c, cpu, memory)
    }
}

/// Writes the part of an explanation that states the demand and what is
/// available.
fn push_demand(
    out: &mut String,
    available_cpu: i64,
    available_memory: i64,
    cpu: i64,
    memory: i64,
)
    ensures
        final(out)@ == old(out)@ + demand_text(
            available_cpu as int,
            available_memory as int,
            cpu as int,
            memory as int,
        ),
{
    out.append("Requested: ");
    push_cores(out, cpu as i128, 2);
    out.append(" CPU cores, ");
    push_gigabytes(out, memory as i128, 2);
    out.append(" GB memory. Available: ");
    push_cores(out, available_cpu as i128, 2);
    out.append(" CPU cores, ");
    push_gigabytes(out, available_memory as i128, 2);
    out.append(" GB memory. ");
    proof {
        assert(final(out)@ =~= old(out)@ + demand_text(
            available_cpu as int,
            available_memory as int,
            cpu as int,
            memory as int,
        ));
    }
}

/// Writes what an explanation says of compute where it is short.
fn push_cpu_shortage(out: &mut String, available: i64, demand: i64)
    ensures
        final(out)@ == old(out)@ + cpu_shortage_text(available as int, demand as int),
{
    if available < demand {
        out.append("CPU shortage: ");
        push_cores(out, demand as i128 - available as i128, 2);
        out.append(" cores needed but only ");
        push_cores(out, available as i128, 2);
        out.append(" available. ");
    }
    proof {
        assert(final(out)@ =~= old(out)@ + cpu_shortage_text(available as int, demand as int));
    }
}

/// Writes what an explanation says of memory where it is short.
fn push_memory_shortage(out: &mut String, available: i64, demand: i64)
    ensures
        final(out)@ == old(out)@ + memory_shortage_text(available as int, demand as int),
{
    if available < demand {
        out.append("Memory shortage: ");
        push_gigabytes(out, demand as i128 - available as i128, 2);
        out.append(" GB needed but only ");
        push_gigabytes(out, available as i128, 2);
        out.append(" GB available.");
    }
    proof {
        assert(final(out)@ =~= old(out)@ + memory_shortage_text(available as int, demand as int));
    }
}

/// Judges a demand against a capacity.
pub fn evaluate_fit(capacity: &ClusterCapacityResponse, cpu: i64, memory: i64) -> (r:
    CheckResourceFitResponse)
    requires
        capacity.consistent(),
        0 <= cpu,
        0 <= memory,
    ensures
        r.answers(capacity.amounts(), cpu as int, memory as int),
{
    let available_cpu = capacity.available_cpu_millicores;
    let available_memory = capacity.available_memory_bytes;
    let fits = available_cpu >= cpu && available_memory >= memory;
    let cpu_used: u64 = capacity.allocated_cpu_millicores as u64 + cpu as u64;
    let memory_used: u64 = capacity.allocated_memory_bytes as u64 + memory as u64;
    let mut explanation = String::new();
    if fits {
        explanation.append("Resources FIT in cluster. ");
        push_demand(&mut explanation, available_cpu, available_memory, cpu, memory);
        explanation.append("After allocation, cluster would be at ");
        push_percent(&mut explanation, cpu_used as i128, capacity.total_cpu_millicores);
        explanation.append("% CPU and ");
        push_percent(&mut explanation, memory_used as i128, capacity.total_memory_bytes);
        explanation.append("% memory utilization.");
    } else {
        explanation.append("Resources DO NOT FIT in cluster. ");
        push_demand(&mut explanation, available_cpu, available_memory, cpu, memory);
        push_cpu_shortage(&mut explanation, available_cpu, cpu);
        push_memory_shortage(&mut explanation, available_memory, memory);
    }
    proof {
        assert(explanation@ =~= fit_explanation(capacity.amounts(), cpu as int, memory as int));
    }
    CheckResourceFitResponse {
        fits,
        available_cpu_millicores: available_cpu,
        available_memory_bytes: available_memory,
        cpu_utilization: Utilization {
            used: cpu_used,
            total: capacity.total_cpu_millicores as u64,
        },
        memory_utilization: Utilization {
            used: memory_used,
            total: capacity.total_memory_bytes as u64,
        },
        explanation,
    }
}

/// Says what is wrong with a demand, if anything is: compute is looked at
/// first.
pub fn validate_demand(params: &CheckResourceFitParams) -> (r: Result<(), InsightsError>)
    ensures
        r == refused(invalid_demand(params.cpu_millicores as int, params.memory_bytes as int)),
{
    if params.cpu_millicores < 0 {
        Err(InsightsError::NegativeCpu)
    } else if params.memory_bytes < 0 {
        Err(InsightsError::NegativeMemory)
    } else {
        Ok(())
    }
}

/// Whether a demand fits into the cluster of the given inventory.  A demand
/// below zero is refused; any other demand gets its verdict.
pub fn check_resource_fit(
    nodes: &Vec<NodeDescriptor>,
    pods: &Vec<PodDescriptor>,
    params: &CheckResourceFitParams,
) -> (r: Result<CheckResourceFitResponse, InsightsError>)
    ensures
        r is Err <==> invalid_demand(params.cpu_millicores as int, params.memory_bytes as int)
            is Some,
        r is Err ==> invalid_demand(params.cpu_millicores as int, params.memory_bytes as int)
            == Some(r->Err_0),
        r is Ok ==> r->Ok_0.answers(
            capacity_of(nodes@, pods@),
            params.cpu_millicores as int,
            params.memory_bytes as int,
        ),
{
    match validate_demand(params) {
        Err(e) => Err(e),
        Ok(_) => {
            let capacity = get_cluster_capacity(nodes, pods);
            Ok(evaluate_fit(&capacity, params.cpu_millicores, params.memory_bytes))
        },
    }
}

impl CheckResourceFitResponse {
    /// Whether two verdicts say the same.
    pub open spec fn same_as(&self, other: Self) -> bool {
        &&& self.fits == other.fits
        &&& self.available_cpu_millicores == other.available_cpu_millicores
        &&& self.available_memory_bytes == other.available_memory_bytes
        &&& self.cpu_utilization == other.cpu_utilization
        &&& self.memory_utilization == other.memory_utilization
        &&& self.explanation@ == other.explanation@
    }
}

/// Asked twice of the same capacity, the verdict on a demand is the same.
pub proof fn lemma_verdict_is_determined(
    a: CheckResourceFitResponse,
    b: CheckResourceFitResponse,
    c: Capacity,
    cpu: int,
    memory: int,
)
    requires
        a.answers(c, cpu, memory),
        b.answers(c, cpu, memory),
    ensures
        a.same_as(b),
{
}

/// A demand fits exactly where neither resource is short: what is
/// available of each is at least what is asked of it.
pub proof fn lemma_fits_unless_short(r: CheckResourceFitResponse, c: Capacity, cpu: int, memory: int)
    requires
        r.answers(c, cpu, memory),
    ensures
        r.fits <==> (r.available_cpu_millicores >= cpu && r.available_memory_bytes >= memory),
        r.available_cpu_millicores == c.total_cpu - c.allocated_cpu,
        r.available_memory_bytes == c.total_memory - c.allocated_memory,
{
}

} // verus!
