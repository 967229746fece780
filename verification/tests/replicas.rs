use cluster_insights::error::InsightsError;
use cluster_insights::inventory::{ContainerResources, NodeDescriptor, PodDescriptor};
use cluster_insights::matching::text_contains;
use cluster_insights::replicas::{
    afford, check_replica_capacity, find_replicas, needed, validate_request,
    CheckReplicaCapacityParams,
};

const GIB: i64 = 1 << 30;

fn text(s: &str) -> Option<String> {
    Some(s.to_string())
}

fn pod(name: &str, cpu: &str, memory: &str) -> PodDescriptor {
    PodDescriptor {
        name: text(name),
        namespace: text("default"),
        node_name: text("n1"),
        containers: vec![ContainerResources {
            cpu_request: text(cpu),
            memory_request: text(memory),
            cpu_limit: None,
            memory_limit: None,
        }],
    }
}

fn nodes() -> Vec<NodeDescriptor> {
    vec![NodeDescriptor { name: text("n1"), cpu_capacity: text("8"), memory_capacity: text("32Gi") }]
}

fn request(app: &str, namespace: &str, count: i32) -> CheckReplicaCapacityParams {
    CheckReplicaCapacityParams {
        app_name: app.to_string(),
        namespace: namespace.to_string(),
        replica_count: count,
    }
}

#[test]
fn ten_replicas_fit() {
    let listed = vec![pod("web-7d4f", "100m", "128Mi")];
    let all = vec![pod("other", "500m", "512Mi")];
    let r = check_replica_capacity(&request("web", "default", 10), &listed, &nodes(), &all).unwrap();
    assert!(r.fits);
    assert_eq!(r.reference_pod, "web-7d4f");
    assert_eq!(r.cpu_per_replica_millicores as f64 / 1000.0, 0.1);
    assert_eq!(r.memory_per_replica_bytes as f64 / GIB as f64, 0.125);
    assert_eq!(r.total_cpu_required_millicores as f64 / 1000.0, 1.0);
    assert_eq!(r.total_memory_required_bytes as f64 / GIB as f64, 1.25);
    assert_eq!(r.available_cpu_millicores, 7500);
    assert_eq!(r.available_memory_bytes, 31 * GIB + GIB / 2);
    assert_eq!(r.current_pod_count, 1);
    assert_eq!(r.projected_cpu_utilization.used, 1500);
    assert_eq!(r.projected_cpu_utilization.total, 8000);
    assert_eq!(r.projected_memory_utilization.used as i64, GIB + 3 * GIB / 4);
    assert_eq!(r.projected_cpu_utilization.percent_millionths(), 18_750_000);
    assert_eq!(
        r.explanation,
        "\u{2713} Capacity CHECK PASSED: You can add 10 more replicas of 'web' in namespace 'default'.\n\
         \n\
         Reference pod: web-7d4f\n\
         - CPU per replica: 0.100 cores\n\
         - Memory per replica: 0.125 GB\n\
         \n\
         Total required for 10 replicas:\n\
         - CPU: 1.000 cores\n\
         - Memory: 1.250 GB\n\
         \n\
         Cluster availability:\n\
         - Available CPU: 7.500 cores (enough for 75 replicas)\n\
         - Available Memory: 31.500 GB (enough for 252 replicas)\n\
         \n\
         Projected utilization after adding replicas:\n\
         - CPU: 18.8% (current: 6.2%)\n\
         - Memory: 5.5% (current: 1.6%)\n\
         \n\
         Current pods matching 'web': 1"
    );
}

#[test]
fn no_matching_pod_is_an_error() {
    let listed = vec![pod("web-1", "100m", "128Mi")];
    let e = check_replica_capacity(&request("ghost", "default", 5), &listed, &nodes(), &listed)
        .unwrap_err();
    assert!(matches!(e, InsightsError::NoMatchingPods { .. }));
    assert_eq!(e.message(), "No pods found matching 'ghost' in namespace 'default'");
    let e = check_replica_capacity(&request("ghost", "default", 5), &vec![], &nodes(), &listed)
        .unwrap_err();
    assert!(matches!(e, InsightsError::NoMatchingPods { .. }));
}

#[test]
fn pod_without_a_name_matches_nothing() {
    let mut nameless = pod("x", "1", "1Gi");
    nameless.name = None;
    let listed = vec![nameless];
    let e = check_replica_capacity(&request("x", "default", 1), &listed, &nodes(), &vec![])
        .unwrap_err();
    assert!(matches!(e, InsightsError::NoMatchingPods { .. }));
}

#[test]
fn first_match_is_the_reference() {
    let listed = vec![
        pod("db-0", "2", "4Gi"),
        pod("my-web-a", "200m", "256Mi"),
        pod("web-b", "100m", "128Mi"),
        pod("cache", "1", "1Gi"),
        pod("webby", "300m", "1Gi"),
    ];
    assert_eq!(find_replicas(&listed, &"web".to_string()), (1, 3));
    assert_eq!(find_replicas(&listed, &"db-0".to_string()), (0, 1));
    assert_eq!(find_replicas(&listed, &"nothing".to_string()), (5, 0));
    let r =
        check_replica_capacity(&request("web", "default", 2), &listed, &nodes(), &vec![]).unwrap();
    assert_eq!(r.reference_pod, "my-web-a");
    assert_eq!(r.current_pod_count, 3);
    assert_eq!(r.cpu_per_replica_millicores, 200);
    assert_eq!(r.total_cpu_required_millicores, 400);
    assert_eq!(r.total_memory_required_bytes, GIB / 2);
}

#[test]
fn replicas_do_not_fit() {
    let listed = vec![pod("api-1", "1500m", "12Gi"), pod("api-2", "1500m", "12Gi")];
    let all = vec![pod("other", "500m", "512Mi")];
    let r = check_replica_capacity(&request("api", "prod", 6), &listed, &nodes(), &all).unwrap();
    assert!(!r.fits);
    assert_eq!(r.total_cpu_required_millicores, 9000);
    assert_eq!(r.total_memory_required_bytes, 72 * GIB);
    assert_eq!(
        r.explanation,
        "\u{2717} Capacity CHECK FAILED: Cannot add 6 replicas of 'api' in namespace 'prod'.\n\
         \n\
         Reference pod: api-1\n\
         - CPU per replica: 1.500 cores\n\
         - Memory per replica: 12.000 GB\n\
         \n\
         Total required for 6 replicas:\n\
         - CPU: 9.000 cores\n\
         - Memory: 72.000 GB\n\
         \n\
         Issues:\n\
         CPU shortage: Need 9.000 cores but only 7.500 available (shortfall: 1.500 cores). \
         Maximum possible replicas based on CPU: 5\n\
         Memory shortage: Need 72.000 GB but only 31.500 GB available (shortfall: 40.500 GB). \
         Maximum possible replicas based on memory: 2\n\
         \n\
         Current pods matching 'api': 2"
    );
}

#[test]
fn only_memory_is_short_for_replicas() {
    let listed = vec![pod("api-1", "100m", "12Gi")];
    let r = check_replica_capacity(&request("api", "prod", 3), &listed, &nodes(), &vec![]).unwrap();
    assert!(!r.fits);
    assert!(r.explanation.contains(
        "Issues:\nMemory shortage: Need 36.000 GB but only 32.000 GB available \
         (shortfall: 4.000 GB). Maximum possible replicas based on memory: 2\n\nCurrent"
    ));
    assert!(!r.explanation.contains("CPU shortage"));
}

#[test]
fn reference_without_requests_costs_nothing() {
    let mut free = pod("job", "", "");
    free.containers.clear();
    let r = check_replica_capacity(&request("job", "default", 1000), &vec![free], &nodes(), &vec![])
        .unwrap();
    assert!(r.fits);
    assert_eq!(r.cpu_per_replica_millicores, 0);
    assert_eq!(r.total_memory_required_bytes, 0);
    assert!(r.explanation.contains("- Available CPU: 8.000 cores (enough for 0 replicas)"));
}

#[test]
fn free_replicas_do_not_fit_an_overcommitted_cluster() {
    let mut free = pod("job", "", "");
    free.containers.clear();
    let all = vec![pod("hog", "9", "1Gi")];
    let r = check_replica_capacity(&request("job", "default", 1), &vec![free], &nodes(), &all)
        .unwrap();
    assert!(!r.fits);
    assert!(r.explanation.contains(
        "CPU shortage: Need 0.000 cores but only -1.000 available (shortfall: 1.000 cores). \
         Maximum possible replicas based on CPU: 0\n\n"
    ));
}

#[test]
fn invalid_requests_are_refused_in_order() {
    let listed = vec![pod("web", "1", "1Gi")];
    let check = |app: &str, namespace: &str, count: i32| {
        check_replica_capacity(&request(app, namespace, count), &listed, &nodes(), &listed)
            .unwrap_err()
    };
    assert!(matches!(check("web", "default", 0), InsightsError::NonPositiveReplicaCount));
    assert!(matches!(check("web", "default", -3), InsightsError::NonPositiveReplicaCount));
    assert!(matches!(check("", "", 0), InsightsError::NonPositiveReplicaCount));
    assert!(matches!(check("", "default", 1), InsightsError::EmptyAppName));
    assert!(matches!(check("", "", 1), InsightsError::EmptyAppName));
    assert!(matches!(check("web", "", 1), InsightsError::EmptyNamespace));
    assert_eq!(check("web", "default", 0).message(), "Replica count must be positive");
    assert_eq!(check("", "default", 1).message(), "Application name cannot be empty");
    assert_eq!(check("web", "", 1).message(), "Namespace cannot be empty");
    assert!(validate_request(&request("web", "default", 1)).is_ok());
}

#[test]
fn needed_and_affordable_amounts() {
    assert_eq!(needed(100, 10), 1000);
    assert_eq!(needed(0, 10), 0);
    assert_eq!(needed(i64::MAX, 2), i64::MAX);
    assert_eq!(needed(1 << 40, i32::MAX), i64::MAX);
    assert_eq!(needed(5, -1), 0);
    assert_eq!(afford(7500, 100), 75);
    assert_eq!(afford(7500, 1500), 5);
    assert_eq!(afford(7499, 1500), 4);
    assert_eq!(afford(100, 0), 0);
    assert_eq!(afford(-1, 0), 0);
    assert_eq!(afford(-1, 3), -1);
    assert_eq!(afford(-3, 3), -1);
    assert_eq!(afford(-4, 3), -2);
    assert_eq!(afford(i64::MIN, 1), i64::MIN);
    assert_eq!(afford(i64::MIN, i64::MAX), -2);
    assert_eq!(afford(0, 5), 0);
}

#[test]
fn finding_text() {
    assert!(text_contains("my-web-a", "web"));
    assert!(text_contains("web", "web"));
    assert!(text_contains("web", ""));
    assert!(text_contains("", ""));
    assert!(!text_contains("", "w"));
    assert!(!text_contains("we", "web"));
    assert!(!text_contains("wewewb", "web"));
    assert!(text_contains("wewewebb", "web"));
    assert!(text_contains("naïve-app", "ïve"));
    assert!(!text_contains("Web", "web"));
}
