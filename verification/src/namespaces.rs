//! What the pods of each namespace request and may use.
use crate::capacity::name_or_empty;
use crate::decimal::saturate;
use crate::inventory::{
    add_amounts, count_of, lemma_count_of_nothing, lemma_count_of_step, lemma_sum_of_nothing,
    lemma_sum_of_step, sum_of, Declared, NamespaceDescriptor, PodDescriptor, Scale,
};
use crate::pods::{namespace_or_default, text_or};
use crate::ranking::{
    is_ranking, lemma_ranking_exists, names, rank, ranking_of, ranks_before,
};
use crate::text::{nat_text, push_nat};
use vstd::prelude::*;
use vstd::string::StringExecFns;

verus! {

/// What the pods of one namespace declare together.  Compute is in
/// millicores and memory in bytes.
#[derive(Debug, PartialEq, Eq)]
pub struct NamespaceUsage {
    pub namespace: String,
    pub cpu_requests_millicores: i64,
    pub memory_requests_bytes: i64,
    pub cpu_limits_millicores: i64,
    pub memory_limits_bytes: i64,
    pub pod_count: usize,
}

/// The usage of every namespace, the largest compute request first.
#[derive(Debug, PartialEq, Eq)]
pub struct NamespaceUsageResponse {
    pub namespaces: Vec<NamespaceUsage>,
    pub total_namespaces: usize,
    pub explanation: String,
}

/// Whether the pod belongs to the namespace of that name.  A pod that names
/// no namespace belongs to `default`.
pub open spec fn lives_in(pod: PodDescriptor, namespace: Seq<char>) -> bool {
    namespace_or_default(pod.namespace) == namespace
}

/// What the containers of the pods of one namespace declare together.
pub open spec fn declared_in(pods: Seq<PodDescriptor>, namespace: Seq<char>, what: Declared) -> int {
    sum_of(
        pods,
        |p: PodDescriptor|
            if lives_in(p, namespace) {
                p.total(what, Scale::Fine)
            } else {
                0
            },
    )
}

/// How many of the pods belong to one namespace.
pub open spec fn pods_in(pods: Seq<PodDescriptor>, namespace: Seq<char>) -> int {
    count_of(pods, |p: PodDescriptor| lives_in(p, namespace))
}

/// Every namespace name that the inventory mentions, in the order in which
/// it does: the names of the namespaces as listed, then the namespace of each
/// pod.
pub open spec fn mentioned(namespaces: Seq<NamespaceDescriptor>, pods: Seq<PodDescriptor>) -> Seq<
    Seq<char>,
> {
    Seq::new(
        namespaces.len() + pods.len(),
        |i: int|
            if i < namespaces.len() {
                name_or_empty(namespaces[i].name)
            } else {
                namespace_or_default(pods[i - namespaces.len()].namespace)
            },
    )
}

/// The items of `s` without repetitions, each where it first occurs.
pub open spec fn first_occurrences<A>(s: Seq<A>) -> Seq<A>
    decreases s.len(),
{
    if s.len() == 0 {
        s
    } else {
        let before = first_occurrences(s.drop_last());
        if before.contains(s.last()) {
            before
        } else {
            before.push(s.last())
        }
    }
}

/// The namespaces of the inventory: each name that it mentions, once.
pub open spec fn known_namespaces(namespaces: Seq<NamespaceDescriptor>, pods: Seq<PodDescriptor>) -> Seq<
    Seq<char>,
> {
    first_occurrences(mentioned(namespaces, pods))
}

/// The key by which namespaces are ranked: the compute that the pods of each
/// request.
pub open spec fn usage_keys(namespaces: Seq<Seq<char>>, pods: Seq<PodDescriptor>) -> Seq<i64> {
    Seq::new(
        namespaces.len(),
        |i: int| saturate(declared_in(pods, namespaces[i], Declared::CpuRequest)) as i64,
    )
}

/// The sentence that goes with the usage by namespace.
pub open spec fn usage_explanation(total: nat) -> Seq<char> {
    "Cluster has "@ + nat_text(total)
        + " namespaces. Resource usage shows CPU/memory requests and limits for each namespace, sorted by CPU requests (descending)."@
}

/// Whether one of the records is for the namespace of that name.
pub open spec fn has_record(records: Seq<NamespaceUsage>, namespace: Seq<char>) -> bool {
    exists|i: int| 0 <= i < records.len() && (#[trigger] records[i]).namespace@ == namespace
}

/// The texts of a list of strings.
pub open spec fn texts(v: Seq<String>) -> Seq<Seq<char>> {
    Seq::new(v.len(), |i: int| v[i]@)
}

impl NamespaceUsage {
    /// Whether the record is the usage of the namespace of that name under
    /// the given pods.
    pub open spec fn describes(&self, namespace: Seq<char>, pods: Seq<PodDescriptor>) -> bool {
        &&& self.namespace@ == namespace
        &&& self.cpu_requests_millicores == saturate(
            declared_in(pods, namespace, Declared::CpuRequest),
        )
        &&& self.memory_requests_bytes == saturate(
            declared_in(pods, namespace, Declared::MemoryRequest),
        )
        &&& self.cpu_limits_millicores == saturate(declared_in(pods, namespace, Declared::CpuLimit))
        &&& self.memory_limits_bytes == saturate(
            declared_in(pods, namespace, Declared::MemoryLimit),
        )
        &&& self.pod_count == pods_in(pods, namespace)
    }

    /// A second record with the same contents.
    pub fn duplicate(&self) -> (r: Self)
        ensures
            r == *self,
    {
        NamespaceUsage {
            namespace: self.namespace.clone(),
            cpu_requests_millicores: self.cpu_requests_millicores,
            memory_requests_bytes: self.memory_requests_bytes,
            cpu_limits_millicores: self.cpu_limits_millicores,
            memory_limits_bytes: self.memory_limits_bytes,
            pod_count: self.pod_count,
        }
    }
}

impl NamespaceUsageResponse {
    /// Whether the record is the usage of the namespaces of the given
    /// inventory: one record for each namespace that the inventory
    /// mentions, in the order of their ranking.
    pub open spec fn describes(
        &self,
        namespaces: Seq<NamespaceDescriptor>,
        pods: Seq<PodDescriptor>,
    ) -> bool {
        let known = known_namespaces(namespaces, pods);
        &&& self.namespaces@.len() == known.len()
        &&& self.total_namespaces == known.len()
        &&& forall|i: int|
            0 <= i < self.namespaces@.len() ==> (#[trigger] self.namespaces@[i]).describes(
                known[ranking_of(usage_keys(known, pods))[i] as int],
                pods,
            )
        &&& self.explanation@ == usage_explanation(known.len())
    }

    /// Whether no record of the list requests less compute than one behind
    /// it.
    pub open spec fn is_descending(&self) -> bool {
        forall|i: int, j: int|
            0 <= i < j < self.namespaces@.len() ==> (#[trigger] self.namespaces@[i]).cpu_requests_millicores
                >= (#[trigger] self.namespaces@[j]).cpu_requests_millicores
    }

    /// Whether every namespace of the listing has a record.
    pub open spec fn covers(&self, namespaces: Seq<NamespaceDescriptor>) -> bool {
        forall|k: int|
            0 <= k < namespaces.len() ==> has_record(
                self.namespaces@,
                name_or_empty((#[trigger] namespaces[k]).name),
            )
    }
}

/// Every item of a sequence is among its first occurrences, and nothing
/// else is.
pub proof fn lemma_first_occurrences_same_items<A>(s: Seq<A>)
    ensures
        forall|a: A| first_occurrences(s).contains(a) <==> s.contains(a),
    decreases s.len(),
{
    if s.len() > 0 {
        let front = s.drop_last();
        lemma_first_occurrences_same_items(front);
        let before = first_occurrences(front);
        assert forall|a: A| first_occurrences(s).contains(a) <==> s.contains(a) by {
            if s.contains(a) {
                let i = choose|i: int| 0 <= i < s.len() && s[i] == a;
                if i < s.len() - 1 {
                    assert(front[i] == a);
                    assert(front.contains(a));
                    assert(before.contains(a));
                    if !before.contains(s.last()) {
                        let j = choose|j: int| 0 <= j < before.len() && before[j] == a;
                        assert(before.push(s.last())[j] == a);
                    }
                } else {
                    if !before.contains(s.last()) {
                        assert(before.push(s.last())[before.len() as int] == a);
                    }
                }
            }
            if first_occurrences(s).contains(a) {
                let j = choose|j: int|
                    0 <= j < first_occurrences(s).len() && first_occurrences(s)[j] == a;
                if j < before.len() {
                    assert(before[j] == a);
                    assert(before.contains(a));
                    assert(front.contains(a));
                    let i = choose|i: int| 0 <= i < front.len() && front[i] == a;
                    assert(s[i] == a);
                } else {
                    assert(a == s.last());
                    assert(s[s.len() - 1] == a);
                }
            }
        }
    }
}

/// Whether the pod belongs to the namespace of that name.
pub fn pod_lives_in(pod: &PodDescriptor, namespace: &String) -> (b: bool)
    ensures
        b == lives_in(*pod, namespace@),
{
    let own = text_or(&pod.namespace, "default");
    own == *namespace
}

/// The usage of one namespace.
pub fn namespace_usage(namespace: &String, pods: &Vec<PodDescriptor>) -> (r: NamespaceUsage)
    ensures
        r.describes(namespace@, pods@),
{
    let ghost ns = namespace@;
    let ghost within = |p: PodDescriptor| lives_in(p, ns);
    let ghost f0 = |p: PodDescriptor|
        if lives_in(p, ns) {
            p.total(Declared::CpuRequest, Scale::Fine)
        } else {
            0
        };
    let ghost f1 = |p: PodDescriptor|
        if lives_in(p, ns) {
            p.total(Declared::MemoryRequest, Scale::Fine)
        } else {
            0
        };
    let ghost f2 = |p: PodDescriptor|
        if lives_in(p, ns) {
            p.total(Declared::CpuLimit, Scale::Fine)
        } else {
            0
        };
    let ghost f3 = |p: PodDescriptor|
        if lives_in(p, ns) {
            p.total(Declared::MemoryLimit, Scale::Fine)
        } else {
            0
        };
    let mut cpu_requests: i64 = 0;
    let mut memory_requests: i64 = 0;
    let mut cpu_limits: i64 = 0;
    let mut memory_limits: i64 = 0;
    let mut count: usize = 0;
    let mut i: usize = 0;
    while i < pods.len()
        invariant
            i <= pods.len(),
            ns == namespace@,
            within == |p: PodDescriptor| lives_in(p, ns),
            f0 == |p: PodDescriptor|
                if lives_in(p, ns) {
                    p.total(Declared::CpuRequest, Scale::Fine)
                } else {
                    0
                },
            f1 == |p: PodDescriptor|
                if lives_in(p, ns) {
                    p.total(Declared::MemoryRequest, Scale::Fine)
                } else {
                    0
                },
            f2 == |p: PodDescriptor|
                if lives_in(p, ns) {
                    p.total(Declared::CpuLimit, Scale::Fine)
                } else {
                    0
                },
            f3 == |p: PodDescriptor|
                if lives_in(p, ns) {
                    p.total(Declared::MemoryLimit, Scale::Fine)
                } else {
                    0
                },
            0 <= sum_of(pods@.take(i as int), f0),
            0 <= sum_of(pods@.take(i as int), f1),
            0 <= sum_of(pods@.take(i as int), f2),
            0 <= sum_of(pods@.take(i as int), f3),
            cpu_requests == saturate(sum_of(pods@.take(i as int), f0)),
            memory_requests == saturate(sum_of(pods@.take(i as int), f1)),
            cpu_limits == saturate(sum_of(pods@.take(i as int), f2)),
            memory_limits == saturate(sum_of(pods@.take(i as int), f3)),
            count == count_of(pods@.take(i as int), within),
            count <= i,
        decreases pods.len() - i,
    {
        proof {
            lemma_sum_of_step(pods@, f0, i as int);
            lemma_sum_of_step(pods@, f1, i as int);
            lemma_sum_of_step(pods@, f2, i as int);
            lemma_sum_of_step(pods@, f3, i as int);
            lemma_count_of_step(pods@, within, i as int);
        }
        if pod_lives_in(&pods[i], namespace) {
            let a = pods[i].read_total(Declared::CpuRequest, Scale::Fine);
            let b = pods[i].read_total(Declared::MemoryRequest, Scale::Fine);
            let c = pods[i].read_total(Declared::CpuLimit, Scale::Fine);
            let d = pods[i].read_total(Declared::MemoryLimit, Scale::Fine);
            cpu_requests = add_amounts(cpu_requests, a);
            memory_requests = add_amounts(memory_requests, b);
            cpu_limits = add_amounts(cpu_limits, c);
            memory_limits = add_amounts(memory_limits, d);
            count += 1;
        }
        i += 1;
    }
    proof {
        assert(pods@.take(i as int) =~= pods@);
    }
    NamespaceUsage {
        namespace: namespace.clone(),
        cpu_requests_millicores: cpu_requests,
        memory_requests_bytes: memory_requests,
        cpu_limits_millicores: cpu_limits,
        memory_limits_bytes: memory_limits,
        pod_count: count,
    }
}

/// Whether `name` is among `known`.
fn is_known(known: &Vec<String>, name: &String) -> (b: bool)
    ensures
        b == texts(known@).contains(name@),
{
    let mut i: usize = 0;
    while i < known.len()
        invariant
            i <= known.len(),
            forall|j: int| 0 <= j < i ==> texts(known@)[j] != name@,
        decreases known.len() - i,
    {
        if known[i] == *name {
            assert(texts(known@)[i as int] == name@);
            return true;
        }
        i += 1;
    }
    false
}

/// Adds `name` to `known` unless it is there already.
fn note(known: &mut Vec<String>, name: String)
    ensures
        texts(final(known)@) == (if texts(old(known)@).contains(name@) {
            texts(old(known)@)
        } else {
            texts(old(known)@).push(name@)
        }),
{
    if !is_known(known, &name) {
        known.push(name);
        assert(texts(known@) =~= texts(old(known)@).push(name@));
    }
}

/// The namespaces of the inventory, each once, in the order in which the
/// inventory first mentions them.
pub fn namespaces_of(namespaces: &Vec<NamespaceDescriptor>, pods: &Vec<PodDescriptor>) -> (known:
    Vec<String>)
    ensures
        texts(known@) == known_namespaces(namespaces@, pods@),
{
    let ghost all = mentioned(namespaces@, pods@);
    let mut known: Vec<String> = Vec::new();
    proof {
        reveal_strlit("");
        assert(texts(known@) =~= first_occurrences(all.take(0)));
    }
    let mut i: usize = 0;
    while i < namespaces.len()
        invariant
            i <= namespaces.len(),
            all == mentioned(namespaces@, pods@),
            texts(known@) == first_occurrences(all.take(i as int)),
        decreases namespaces.len() - i,
    {
        let name = text_or(&namespaces[i].name, "");
        proof {
            reveal_strlit("");
            assert(""@ =~= Seq::<char>::empty());
            assert(all.take(i + 1).drop_last() =~= all.take(i as int));
            assert(all.take(i + 1).last() == name@);
        }
        note(&mut known, name);
        i += 1;
    }
    let mut k: usize = 0;
    while k < pods.len()
        invariant
            k <= pods.len(),
            all == mentioned(namespaces@, pods@),
            texts(known@) == first_occurrences(all.take(namespaces.len() + k)),
        decreases pods.len() - k,
    {
        let name = text_or(&pods[k].namespace, "default");
        proof {
            let at = namespaces.len() + k;
            assert(all.take(at + 1).drop_last() =~= all.take(at));
            assert(all.take(at + 1).last() == name@);
        }
        note(&mut known, name);
        k += 1;
    }
    proof {
        assert(all.take(namespaces.len() + pods.len()) =~= all);
    }
    known
}

/// The usage of every namespace of the inventory, the largest compute
/// request first and, among equal requests, the namespace first that the
/// inventory mentions first.  A namespace without pods has a record of
/// zeros.
pub fn get_namespace_usage(namespaces: &Vec<NamespaceDescriptor>, pods: &Vec<PodDescriptor>) -> (r:
    NamespaceUsageResponse)
    ensures
        r.describes(namespaces@, pods@),
        r.is_descending(),
        r.covers(namespaces@),
{
    let known = namespaces_of(namespaces, pods);
    let ghost known_texts = known_namespaces(namespaces@, pods@);
    let mut records: Vec<NamespaceUsage> = Vec::new();
    let mut keys: Vec<i64> = Vec::new();
    let mut t: usize = 0;
    while t < known.len()
        invariant
            t <= known.len(),
            texts(known@) == known_texts,
            records@.len() == t,
            keys@.len() == t,
            forall|j: int| 0 <= j < t ==> (#[trigger] records@[j]).describes(known_texts[j], pods@),
            forall|j: int| 0 <= j < t ==> #[trigger] keys@[j] == records@[j].cpu_requests_millicores,
        decreases known.len() - t,
    {
        let record = namespace_usage(&known[t], pods);
        assert(known_texts[t as int] == known@[t as int]@);
        keys.push(record.cpu_requests_millicores);
        records.push(record);
        t += 1;
    }
    assert(keys@ =~= usage_keys(known_texts, pods@));
    let order = rank(&keys);
    let mut ranked: Vec<NamespaceUsage> = Vec::new();
    let mut i: usize = 0;
    while i < order.len()
        invariant
            i <= order.len(),
            order@.len() == records@.len(),
            is_ranking(keys@, order@),
            keys@.len() == records@.len(),
            ranked@.len() == i,
            forall|j: int| 0 <= j < i ==> #[trigger] ranked@[j] == records@[order@[j] as int],
        decreases order.len() - i,
    {
        let record = records[order[i]].duplicate();
        ranked.push(record);
        i += 1;
    }
    proof {
        assert forall|a: int, b: int| 0 <= a < b < ranked@.len() implies (#[trigger] ranked@[a]).cpu_requests_millicores
            >= (#[trigger] ranked@[b]).cpu_requests_millicores by {
            assert(ranks_before(keys@, order@[a] as int, order@[b] as int));
        }
        lemma_first_occurrences_same_items(mentioned(namespaces@, pods@));
        assert forall|k: int| 0 <= k < namespaces@.len() implies has_record(
            ranked@,
            name_or_empty((#[trigger] namespaces@[k]).name),
        ) by {
            let all = mentioned(namespaces@, pods@);
            let name = name_or_empty(namespaces@[k].name);
            assert(all[k] == name);
            assert(all.contains(name));
            assert(known_texts.contains(name));
            let at = choose|at: int| 0 <= at < known_texts.len() && known_texts[at] == name;
            assert(names(order@, at));
            let i = choose|i: int| 0 <= i < order@.len() && order@[i] == at;
            assert(ranked@[i].namespace@ == name);
        }
    }
    let mut explanation = String::new();
    explanation.append("Cluster has ");
    push_nat(&mut explanation, ranked.len() as u128);
    explanation.append(
        " namespaces. Resource usage shows CPU/memory requests and limits for each namespace, sorted by CPU requests (descending).",
    );
    proof {
        assert(explanation@ =~= usage_explanation(ranked@.len()));
    }
    NamespaceUsageResponse { total_namespaces: ranked.len(), namespaces: ranked, explanation }
}

impl NamespaceUsage {
    /// Whether two records say the same.
    pub open spec fn same_as(&self, other: Self) -> bool {
        &&& self.namespace@ == other.namespace@
        &&& self.cpu_requests_millicores == other.cpu_requests_millicores
        &&& self.memory_requests_bytes == other.memory_requests_bytes
        &&& self.cpu_limits_millicores == other.cpu_limits_millicores
        &&& self.memory_limits_bytes == other.memory_limits_bytes
        &&& self.pod_count == other.pod_count
    }
}

impl NamespaceUsageResponse {
    /// Whether two records say the same.
    pub open spec fn same_as(&self, other: Self) -> bool {
        &&& self.namespaces@.len() == other.namespaces@.len()
        &&& forall|i: int|
            0 <= i < self.namespaces@.len() ==> (#[trigger] self.namespaces@[i]).same_as(
                other.namespaces@[i],
            )
        &&& self.total_namespaces == other.total_namespaces
        &&& self.explanation@ == other.explanation@
    }
}

/// The records of the usage by namespace are in descending order of the
/// compute that the namespaces request.
pub proof fn lemma_usage_is_ranked(
    r: NamespaceUsageResponse,
    namespaces: Seq<NamespaceDescriptor>,
    pods: Seq<PodDescriptor>,
)
    requires
        r.describes(namespaces, pods),
    ensures
        r.is_descending(),
{
    let known = known_namespaces(namespaces, pods);
    let keys = usage_keys(known, pods);
    let order = ranking_of(keys);
    assert(r.namespaces@.len() <= usize::MAX);
    lemma_ranking_exists(keys);
    assert forall|i: int, j: int| 0 <= i < j < r.namespaces@.len() implies (#[trigger] r.namespaces@[i]).cpu_requests_millicores
        >= (#[trigger] r.namespaces@[j]).cpu_requests_millicores by {
        assert(r.namespaces@[i].describes(known[order[i] as int], pods));
        assert(r.namespaces@[j].describes(known[order[j] as int], pods));
        assert(ranks_before(keys, order[i] as int, order[j] as int));
    }
}

/// Every namespace of the listing has a record in the usage by namespace,
/// also one without pods.
pub proof fn lemma_usage_covers_the_listing(
    r: NamespaceUsageResponse,
    namespaces: Seq<NamespaceDescriptor>,
    pods: Seq<PodDescriptor>,
)
    requires
        r.describes(namespaces, pods),
    ensures
        r.covers(namespaces),
{
    let all = mentioned(namespaces, pods);
    let known = known_namespaces(namespaces, pods);
    let keys = usage_keys(known, pods);
    let order = ranking_of(keys);
    assert(r.namespaces@.len() <= usize::MAX);
    lemma_ranking_exists(keys);
    lemma_first_occurrences_same_items(all);
    assert forall|k: int| 0 <= k < namespaces.len() implies has_record(
        r.namespaces@,
        name_or_empty((#[trigger] namespaces[k]).name),
    ) by {
        let name = name_or_empty(namespaces[k].name);
        assert(all[k] == name);
        assert(all.contains(name));
        assert(known.contains(name));
        let at = choose|at: int| 0 <= at < known.len() && known[at] == name;
        assert(names(order, at));
        let i = choose|i: int| 0 <= i < order.len() && order[i] == at;
        assert(r.namespaces@[i].describes(known[order[i] as int], pods));
    }
}

/// The record of a namespace to which no pod belongs holds nothing but
/// zeros.
pub proof fn lemma_namespace_without_pods(
    r: NamespaceUsage,
    namespace: Seq<char>,
    pods: Seq<PodDescriptor>,
)
    requires
        r.describes(namespace, pods),
        forall|i: int| 0 <= i < pods.len() ==> !lives_in(#[trigger] pods[i], namespace),
    ensures
        r.cpu_requests_millicores == 0,
        r.memory_requests_bytes == 0,
        r.cpu_limits_millicores == 0,
        r.memory_limits_bytes == 0,
        r.pod_count == 0,
{
    lemma_sum_of_nothing(
        pods,
        |p: PodDescriptor|
            if lives_in(p, namespace) {
                p.total(Declared::CpuRequest, Scale::Fine)
            } else {
                0
            },
    );
    lemma_sum_of_nothing(
        pods,
        |p: PodDescriptor|
            if lives_in(p, namespace) {
                p.total(Declared::MemoryRequest, Scale::Fine)
            } else {
                0
            },
    );
    lemma_sum_of_nothing(
        pods,
        |p: PodDescriptor|
            if lives_in(p, namespace) {
                p.total(Declared::CpuLimit, Scale::Fine)
            } else {
                0
            },
    );
    lemma_sum_of_nothing(
        pods,
        |p: PodDescriptor|
            if lives_in(p, namespace) {
                p.total(Declared::MemoryLimit, Scale::Fine)
            } else {
                0
            },
    );
    lemma_count_of_nothing(pods, |p: PodDescriptor| lives_in(p, namespace));
}

/// Asked twice of the same inventory, the usage by namespace is the same.
pub proof fn lemma_usage_is_determined(
    a: NamespaceUsageResponse,
    b: NamespaceUsageResponse,
    namespaces: Seq<NamespaceDescriptor>,
    pods: Seq<PodDescriptor>,
)
    requires
        a.describes(namespaces, pods),
        b.describes(namespaces, pods),
    ensures
        a.same_as(b),
{
    let known = known_namespaces(namespaces, pods);
    let order = ranking_of(usage_keys(known, pods));
    assert forall|i: int| 0 <= i < a.namespaces@.len() implies (#[trigger] a.namespaces@[i]).same_as(
        b.namespaces@[i],
    ) by {
        assert(a.namespaces@[i].describes(known[order[i] as int], pods));
        assert(b.namespaces@[i].describes(known[order[i] as int], pods));
    }
}

} // verus!
