//! The inventory that the queries read: nodes, pods and namespaces as they
//! are listed, with the resource fields still in their textual encodings.
use crate::decimal::{least, saturate, MAX_AMOUNT};
use crate::quantity::{
    bytes_of, mebibytes_in, millicores_of, quantity_to_bytes, quantity_to_mb,
    quantity_to_millicores,
};
use vstd::prelude::*;

verus! {

/// What one container declares: the least it needs of each resource (its
/// requests) and the most it may use (its limits).  A field that is absent
/// declares nothing.
#[derive(Debug, PartialEq, Eq)]
pub struct ContainerResources {
    pub cpu_request: Option<String>,
    pub memory_request: Option<String>,
    pub cpu_limit: Option<String>,
    pub memory_limit: Option<String>,
}

/// A pod as listed.  A pod that has not been scheduled has no node name.
#[derive(Debug, PartialEq, Eq)]
pub struct PodDescriptor {
    pub name: Option<String>,
    pub namespace: Option<String>,
    pub node_name: Option<String>,
    pub containers: Vec<ContainerResources>,
}

/// A node as listed, with the capacity that it declares.
#[derive(Debug, PartialEq, Eq)]
pub struct NodeDescriptor {
    pub name: Option<String>,
    pub cpu_capacity: Option<String>,
    pub memory_capacity: Option<String>,
}

/// A namespace as listed.
#[derive(Debug, PartialEq, Eq)]
pub struct NamespaceDescriptor {
    pub name: Option<String>,
}

/// One of the four amounts that a container declares.
#[derive(Clone, Copy, Debug, PartialEq, Eq, Structural)]
pub enum Declared {
    CpuRequest,
    MemoryRequest,
    CpuLimit,
    MemoryLimit,
}

/// The sub-units in which an amount is counted.  Compute is counted in
/// millicores either way; memory in bytes where amounts are added up for
/// capacity, and in whole mebibytes where pods are ranked and shown.
#[derive(Clone, Copy, Debug, PartialEq, Eq, Structural)]
pub enum Scale {
    Fine,
    Coarse,
}

/// The sum of `f` over `items`.
pub open spec fn sum_of<A>(items: Seq<A>, f: spec_fn(A) -> int) -> int
    decreases items.len(),
{
    if items.len() == 0 {
        0
    } else {
        sum_of(items.drop_last(), f) + f(items.last())
    }
}

/// How many of `items` satisfy `p`.
pub open spec fn count_of<A>(items: Seq<A>, p: spec_fn(A) -> bool) -> int {
    sum_of(
        items,
        |a: A|
            if p(a) {
                1int
            } else {
                0int
            },
    )
}

/// The sum over one item more is the sum so far and what the item adds.
pub proof fn lemma_sum_of_step<A>(items: Seq<A>, f: spec_fn(A) -> int, i: int)
    requires
        0 <= i < items.len(),
    ensures
        sum_of(items.take(i + 1), f) == sum_of(items.take(i), f) + f(items[i]),
{
    assert(items.take(i + 1).drop_last() =~= items.take(i));
}

/// The count over one item more is the count so far, and one more where the
/// item counts; a count is never more than the number of items.
pub proof fn lemma_count_of_step<A>(items: Seq<A>, p: spec_fn(A) -> bool, i: int)
    requires
        0 <= i < items.len(),
    ensures
        count_of(items.take(i + 1), p) == count_of(items.take(i), p) + (if p(items[i]) {
            1int
        } else {
            0int
        }),
        0 <= count_of(items.take(i), p) <= i,
    decreases i,
{
    lemma_sum_of_step(
        items,
        |a: A|
            if p(a) {
                1int
            } else {
                0int
            },
        i,
    );
    if i > 0 {
        lemma_count_of_step(items, p, i - 1);
        assert(items.take(i - 1 + 1) == items.take(i));
    } else {
        assert(items.take(0).len() == 0);
    }
}

/// Where no item adds anything, the sum is nothing.
pub proof fn lemma_sum_of_nothing<A>(items: Seq<A>, f: spec_fn(A) -> int)
    requires
        forall|i: int| 0 <= i < items.len() ==> f(#[trigger] items[i]) == 0,
    ensures
        sum_of(items, f) == 0,
    decreases items.len(),
{
    if items.len() > 0 {
        let front = items.drop_last();
        assert forall|i: int| 0 <= i < front.len() implies f(#[trigger] front[i]) == 0 by {
            assert(front[i] == items[i]);
        }
        lemma_sum_of_nothing(front, f);
        assert(items.last() == items[items.len() - 1]);
    }
}

/// Where no item counts, the count is nothing.
pub proof fn lemma_count_of_nothing<A>(items: Seq<A>, p: spec_fn(A) -> bool)
    requires
        forall|i: int| 0 <= i < items.len() ==> !p(#[trigger] items[i]),
    ensures
        count_of(items, p) == 0,
{
    lemma_sum_of_nothing(
        items,
        |a: A|
            if p(a) {
                1int
            } else {
                0int
            },
    );
}

/// The millicores that an optional compute encoding denotes.
pub open spec fn millicores_declared(q: Option<String>) -> int {
    match q {
        Some(raw) => millicores_of(raw@),
        None => 0,
    }
}

/// The bytes that an optional memory encoding denotes.
pub open spec fn bytes_declared(q: Option<String>) -> int {
    match q {
        Some(raw) => bytes_of(raw@),
        None => 0,
    }
}

/// The memory that an optional encoding denotes: in bytes on the fine
/// scale, in whole mebibytes on the coarse one.
pub open spec fn memory_declared(q: Option<String>, scale: Scale) -> int {
    match scale {
        Scale::Fine => bytes_declared(q),
        Scale::Coarse => mebibytes_in(bytes_declared(q)),
    }
}

impl ContainerResources {
    /// The amount that the container declares, on the given scale.
    pub open spec fn amount(&self, what: Declared, scale: Scale) -> int {
        match what {
            Declared::CpuRequest => millicores_declared(self.cpu_request),
            Declared::CpuLimit => millicores_declared(self.cpu_limit),
            Declared::MemoryRequest => memory_declared(self.memory_request, scale),
            Declared::MemoryLimit => memory_declared(self.memory_limit, scale),
        }
    }

    /// Reads the amount that the container declares, on the given scale.
    pub fn read(&self, what: Declared, scale: Scale) -> (r: i64)
        ensures
            r == self.amount(what, scale),
            0 <= r <= MAX_AMOUNT,
    {
        match what {
            Declared::CpuRequest => read_compute(&self.cpu_request),
            Declared::CpuLimit => read_compute(&self.cpu_limit),
            Declared::MemoryRequest => read_memory(&self.memory_request, scale),
            Declared::MemoryLimit => read_memory(&self.memory_limit, scale),
        }
    }
}

/// Reads an optional compute encoding as millicores.
pub fn read_compute(q: &Option<String>) -> (r: i64)
    ensures
        r == millicores_declared(*q),
        0 <= r <= MAX_AMOUNT,
{
    match q {
        Some(raw) => quantity_to_millicores(raw.as_str()),
        None => 0,
    }
}

/// Reads an optional memory encoding, as bytes on the fine scale and as
/// whole mebibytes on the coarse one.
pub fn read_memory(q: &Option<String>, scale: Scale) -> (r: i64)
    ensures
        r == memory_declared(*q, scale),
        0 <= r <= MAX_AMOUNT,
{
    match q {
        Some(raw) => match scale {
            Scale::Fine => quantity_to_bytes(raw.as_str()),
            Scale::Coarse => quantity_to_mb(raw.as_str()),
        },
        None => 0,
    }
}

/// The sum of two amounts, held to `MAX_AMOUNT`.
pub fn add_amounts(a: i64, b: i64) -> (r: i64)
    requires
        0 <= a,
        0 <= b,
    ensures
        r == least(MAX_AMOUNT as int, a + b),
{
    if a > MAX_AMOUNT - b {
        MAX_AMOUNT
    } else {
        a + b
    }
}

impl PodDescriptor {
    /// What the pod's containers declare together, on the given scale.
    pub open spec fn total(&self, what: Declared, scale: Scale) -> int {
        sum_of(self.containers@, |c: ContainerResources| c.amount(what, scale))
    }

    /// Adds up what the pod's containers declare, held to `MAX_AMOUNT`.
    pub fn read_total(&self, what: Declared, scale: Scale) -> (r: i64)
        ensures
            r == saturate(self.total(what, scale)),
            0 <= self.total(what, scale),
    {
        let ghost f = |c: ContainerResources| c.amount(what, scale);
        let mut acc: i64 = 0;
        let mut i: usize = 0;
        while i < self.containers.len()
            invariant
                i <= self.containers.len(),
                f == |c: ContainerResources| c.amount(what, scale),
                0 <= sum_of(self.containers@.take(i as int), f),
                acc == saturate(sum_of(self.containers@.take(i as int), f)),
            decreases self.containers.len() - i,
        {
            let x = self.containers[i].read(what, scale);
            proof {
                lemma_sum_of_step(self.containers@, f, i as int);
            }
            acc = add_amounts(acc, x);
            i += 1;
        }
        proof {
            assert(self.containers@.take(i as int) =~= self.containers@);
        }
        acc
    }
}

} // verus!
