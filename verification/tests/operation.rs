use cluster_insights::error::{InsightsError, Listing};
use cluster_insights::fit::CheckResourceFitParams;
use cluster_insights::inventory::{
    ContainerResources, NamespaceDescriptor, NodeDescriptor, PodDescriptor,
};
use cluster_insights::operation::{next_step, Answer, Operation, Progress, Step};
use cluster_insights::replicas::CheckReplicaCapacityParams;

const GIB: i64 = 1 << 30;

fn text(s: &str) -> Option<String> {
    Some(s.to_string())
}

fn nodes() -> Vec<NodeDescriptor> {
    vec![NodeDescriptor { name: text("n1"), cpu_capacity: text("8"), memory_capacity: text("32Gi") }]
}

fn pods() -> Vec<PodDescriptor> {
    vec![PodDescriptor {
        name: text("web-1"),
        namespace: text("default"),
        node_name: text("n1"),
        containers: vec![ContainerResources {
            cpu_request: text("500m"),
            memory_request: text("512Mi"),
            cpu_limit: None,
            memory_limit: None,
        }],
    }]
}

fn namespaces() -> Vec<NamespaceDescriptor> {
    vec![NamespaceDescriptor { name: text("default") }, NamespaceDescriptor { name: text("idle") }]
}

/// Runs an operation against an inventory that answers every listing, and
/// returns the result with the listings in the order in which they were
/// fetched.
fn run(operation: &Operation) -> (Result<Answer, InsightsError>, Vec<String>) {
    run_with(operation, |_| None)
}

/// As `run`, with an inventory that refuses the listings for which `refuse`
/// gives a reason.
fn run_with(
    operation: &Operation,
    refuse: impl Fn(&Listing) -> Option<String>,
) -> (Result<Answer, InsightsError>, Vec<String>) {
    let mut progress = Progress::new();
    let mut fetched = Vec::new();
    for _ in 0..10 {
        match next_step(operation, &progress) {
            Step::Finish(result) => return (result, fetched),
            Step::Fetch(listing) => {
                fetched.push(format!("{:?}", listing));
                let refusal = refuse(&listing);
                match listing {
                    Listing::Nodes => progress.record_nodes(refusal.map_or(Ok(nodes()), Err)),
                    Listing::Pods => progress.record_pods(refusal.map_or(Ok(pods()), Err)),
                    Listing::Namespaces => {
                        progress.record_namespaces(refusal.map_or(Ok(namespaces()), Err))
                    }
                    Listing::PodsIn(namespace) => {
                        progress.record_namespace_pods(namespace, refusal.map_or(Ok(pods()), Err))
                    }
                }
            }
        }
    }
    panic!("the operation did not end");
}

fn replicas(app: &str, namespace: &str, count: i32) -> Operation {
    Operation::CheckReplicaCapacity(CheckReplicaCapacityParams {
        app_name: app.to_string(),
        namespace: namespace.to_string(),
        replica_count: count,
    })
}

#[test]
fn capacity_fetches_nodes_then_pods() {
    let (result, fetched) = run(&Operation::GetClusterCapacity);
    assert_eq!(fetched, ["Nodes", "Pods"]);
    match result {
        Ok(Answer::ClusterCapacity(c)) => {
            assert_eq!(c.available_cpu_millicores, 7500);
            assert_eq!(c.available_memory_bytes, 31 * GIB + GIB / 2);
        }
        other => panic!("{:?}", other),
    }
}

#[test]
fn each_operation_fetches_what_it_reads() {
    let (result, fetched) = run(&Operation::GetNodeBreakdown);
    assert_eq!(fetched, ["Nodes", "Pods"]);
    assert!(matches!(result, Ok(Answer::NodeBreakdown(ref b)) if b.total_nodes == 1));
    let (result, fetched) = run(&Operation::GetNamespaceUsage);
    assert_eq!(fetched, ["Namespaces", "Pods"]);
    assert!(matches!(result, Ok(Answer::NamespaceUsage(ref u)) if u.total_namespaces == 2));
    let (result, fetched) = run(&Operation::GetPodResourceStats);
    assert_eq!(fetched, ["Pods"]);
    assert!(matches!(result, Ok(Answer::PodResourceStats(ref s)) if s.total_pods == 1));
    let fit = Operation::CheckResourceFit(CheckResourceFitParams {
        cpu_millicores: 4000,
        memory_bytes: 40 * GIB,
    });
    let (result, fetched) = run(&fit);
    assert_eq!(fetched, ["Nodes", "Pods"]);
    assert!(matches!(result, Ok(Answer::ResourceFit(ref v)) if !v.fits));
    let (result, fetched) = run(&replicas("web", "default", 10));
    assert_eq!(fetched, ["PodsIn(\"default\")", "Nodes", "Pods"]);
    match result {
        Ok(Answer::ReplicaCapacity(v)) => {
            assert!(v.fits);
            assert_eq!(v.reference_pod, "web-1");
            assert_eq!(v.total_cpu_required_millicores, 5000);
        }
        other => panic!("{:?}", other),
    }
}

#[test]
fn invalid_requests_fetch_nothing() {
    let fit = Operation::CheckResourceFit(CheckResourceFitParams {
        cpu_millicores: -1,
        memory_bytes: 0,
    });
    let (result, fetched) = run(&fit);
    assert!(fetched.is_empty());
    let e = result.unwrap_err();
    assert!(matches!(e, InsightsError::NegativeCpu));
    assert_eq!(fit.failure_message(&e), "CPU cores must be non-negative");
    let fit = Operation::CheckResourceFit(CheckResourceFitParams {
        cpu_millicores: 0,
        memory_bytes: -5,
    });
    let (result, fetched) = run(&fit);
    assert!(fetched.is_empty());
    assert!(matches!(result, Err(InsightsError::NegativeMemory)));
    for (operation, message) in [
        (replicas("web", "default", 0), "Replica count must be positive"),
        (replicas("", "default", 3), "Application name cannot be empty"),
        (replicas("web", "", 3), "Namespace cannot be empty"),
    ] {
        let (result, fetched) = run(&operation);
        assert!(fetched.is_empty());
        assert_eq!(operation.failure_message(&result.unwrap_err()), message);
    }
}

#[test]
fn application_without_pods_ends_before_the_capacity_is_fetched() {
    let operation = replicas("ghost", "default", 5);
    let (result, fetched) = run(&operation);
    assert_eq!(fetched, ["PodsIn(\"default\")"]);
    let e = result.unwrap_err();
    assert!(matches!(e, InsightsError::NoMatchingPods { .. }));
    assert_eq!(
        operation.failure_message(&e),
        "Failed to check replica capacity: No pods found matching 'ghost' in namespace 'default'"
    );
}

#[test]
fn failed_listing_ends_the_operation() {
    let refuse_pods = |l: &Listing| match l {
        Listing::Pods => Some("connection refused".to_string()),
        _ => None,
    };
    let (result, fetched) = run_with(&Operation::GetClusterCapacity, refuse_pods);
    assert_eq!(fetched, ["Nodes", "Pods"]);
    let e = result.unwrap_err();
    assert_eq!(e.message(), "Failed to list pods: connection refused");
    assert_eq!(
        Operation::GetClusterCapacity.failure_message(&e),
        "Failed to get cluster capacity: Failed to list pods: connection refused"
    );
    let refuse_nodes = |l: &Listing| match l {
        Listing::Nodes => Some("forbidden".to_string()),
        _ => None,
    };
    let (result, fetched) = run_with(&Operation::GetNodeBreakdown, refuse_nodes);
    assert_eq!(fetched, ["Nodes"]);
    assert_eq!(
        Operation::GetNodeBreakdown.failure_message(&result.unwrap_err()),
        "Failed to get node breakdown: Failed to list nodes: forbidden"
    );
    let refuse_namespaces = |l: &Listing| match l {
        Listing::Namespaces => Some("timeout".to_string()),
        _ => None,
    };
    let (result, fetched) = run_with(&Operation::GetNamespaceUsage, refuse_namespaces);
    assert_eq!(fetched, ["Namespaces"]);
    assert_eq!(
        Operation::GetNamespaceUsage.failure_message(&result.unwrap_err()),
        "Failed to get namespace usage: Failed to list namespaces: timeout"
    );
    let refuse_scoped = |l: &Listing| match l {
        Listing::PodsIn(_) => Some("no such namespace".to_string()),
        _ => None,
    };
    let operation = replicas("web", "prod", 2);
    let (result, fetched) = run_with(&operation, refuse_scoped);
    assert_eq!(fetched, ["PodsIn(\"prod\")"]);
    assert_eq!(
        operation.failure_message(&result.unwrap_err()),
        "Failed to check replica capacity: Failed to list pods in namespace prod: no such namespace"
    );
    let (result, fetched) = run_with(&Operation::GetPodResourceStats, refuse_pods);
    assert_eq!(fetched, ["Pods"]);
    assert_eq!(
        Operation::GetPodResourceStats.failure_message(&result.unwrap_err()),
        "Failed to get pod resource stats: Failed to list pods: connection refused"
    );
}

#[test]
fn unreachable_inventory_ends_the_operation() {
    let mut progress = Progress::new();
    assert!(matches!(
        next_step(&Operation::GetClusterCapacity, &progress),
        Step::Fetch(Listing::Nodes)
    ));
    progress.record_unreachable("no kubeconfig".to_string());
    match next_step(&Operation::GetClusterCapacity, &progress) {
        Step::Finish(Err(e)) => {
            assert!(matches!(e, InsightsError::ClientUnavailable { .. }));
            assert_eq!(
                Operation::GetClusterCapacity.failure_message(&e),
                "Failed to get cluster capacity: Failed to create Kubernetes client: no kubeconfig"
            );
        }
        other => panic!("{:?}", other),
    }
    let fit = Operation::CheckResourceFit(CheckResourceFitParams {
        cpu_millicores: -1,
        memory_bytes: 0,
    });
    assert!(matches!(next_step(&fit, &progress), Step::Finish(Err(InsightsError::NegativeCpu))));
}

#[test]
fn same_point_same_step() {
    let mut progress = Progress::new();
    progress.record_nodes(Ok(nodes()));
    progress.record_pods(Ok(pods()));
    let a = next_step(&Operation::GetClusterCapacity, &progress);
    let b = next_step(&Operation::GetClusterCapacity, &progress);
    assert_eq!(format!("{:?}", a), format!("{:?}", b));
    progress.record_namespace_pods("default".to_string(), Ok(pods()));
    let operation = replicas("web", "default", 3);
    let a = next_step(&operation, &progress);
    let b = next_step(&operation, &progress);
    assert_eq!(format!("{:?}", a), format!("{:?}", b));
}

/// Runs an operation and returns what a caller gets to read: the answer, or
/// the message of the error.
fn call(operation: Operation) -> Result<Answer, String> {
    let (result, _) = run(&operation);
    result.map_err(|e| operation.failure_message(&e))
}

#[test]
fn test_get_cluster_capacity() {
    match call(Operation::GetClusterCapacity) {
        Ok(answer) => println!("Cluster capacity: {:?}", answer),
        Err(e) => panic!("Error inesperado: {}", e),
    }
}

#[test]
fn test_check_resource_fit() {
    let params = CheckResourceFitParams { cpu_millicores: 1000, memory_bytes: GIB };
    match call(Operation::CheckResourceFit(params)) {
        Ok(answer) => {
            println!("Check resource fit: {:?}", answer);
            assert!(matches!(answer, Answer::ResourceFit(ref v) if v.fits));
        }
        Err(e) => panic!("Error inesperado: {}", e),
    }
}

#[test]
fn test_get_node_breakdown() {
    match call(Operation::GetNodeBreakdown) {
        Ok(answer) => println!("Node breakdown: {:?}", answer),
        Err(e) => panic!("Error inesperado: {}", e),
    }
}

#[test]
fn test_check_replica_capacity() {
    let result = call(replicas("test", "default", 10));
    println!("Check replica capacity: {:?}", result);
    assert_eq!(
        result.unwrap_err(),
        "Failed to check replica capacity: No pods found matching 'test' in namespace 'default'"
    );
}

#[test]
fn repeated_operations_agree() {
    let fit = || {
        Operation::CheckResourceFit(CheckResourceFitParams {
            cpu_millicores: 4000,
            memory_bytes: 40 * GIB,
        })
    };
    assert_eq!(run(&Operation::GetClusterCapacity), run(&Operation::GetClusterCapacity));
    assert_eq!(run(&fit()), run(&fit()));
    assert_eq!(run(&Operation::GetNodeBreakdown), run(&Operation::GetNodeBreakdown));
    assert_eq!(run(&Operation::GetNamespaceUsage), run(&Operation::GetNamespaceUsage));
    assert_eq!(run(&Operation::GetPodResourceStats), run(&Operation::GetPodResourceStats));
    assert_eq!(run(&replicas("web", "default", 4)), run(&replicas("web", "default", 4)));
    assert_eq!(run(&replicas("ghost", "default", 4)), run(&replicas("ghost", "default", 4)));
}
