use cluster_insights::inventory::{ContainerResources, NamespaceDescriptor, PodDescriptor};
use cluster_insights::namespaces::{get_namespace_usage, namespace_usage, namespaces_of};

const GIB: i64 = 1 << 30;

fn text(s: &str) -> Option<String> {
    Some(s.to_string())
}

fn ns(name: &str) -> NamespaceDescriptor {
    NamespaceDescriptor { name: text(name) }
}

fn pod(namespace: Option<&str>, cpu: &str, memory: &str) -> PodDescriptor {
    PodDescriptor {
        name: text("p"),
        namespace: namespace.map(|n| n.to_string()),
        node_name: None,
        containers: vec![ContainerResources {
            cpu_request: text(cpu),
            memory_request: text(memory),
            cpu_limit: text("2"),
            memory_limit: text("4Gi"),
        }],
    }
}

#[test]
fn usage_by_namespace() {
    let namespaces = vec![ns("default"), ns("kube-system"), ns("empty"), ns("apps")];
    let pods = vec![
        pod(Some("apps"), "1", "1Gi"),
        pod(Some("kube-system"), "100m", "128Mi"),
        pod(Some("apps"), "500m", "512Mi"),
        pod(None, "250m", "256Mi"),
    ];
    let r = get_namespace_usage(&namespaces, &pods);
    assert_eq!(r.total_namespaces, 4);
    let names: Vec<&str> = r.namespaces.iter().map(|n| n.namespace.as_str()).collect();
    assert_eq!(names, ["apps", "default", "kube-system", "empty"]);
    let apps = &r.namespaces[0];
    assert_eq!(apps.cpu_requests_millicores, 1500);
    assert_eq!(apps.memory_requests_bytes, GIB + GIB / 2);
    assert_eq!(apps.cpu_limits_millicores, 4000);
    assert_eq!(apps.memory_limits_bytes, 8 * GIB);
    assert_eq!(apps.pod_count, 2);
    let default = &r.namespaces[1];
    assert_eq!(default.cpu_requests_millicores, 250);
    assert_eq!(default.pod_count, 1);
    let empty = &r.namespaces[3];
    assert_eq!(empty.cpu_requests_millicores, 0);
    assert_eq!(empty.memory_requests_bytes, 0);
    assert_eq!(empty.cpu_limits_millicores, 0);
    assert_eq!(empty.memory_limits_bytes, 0);
    assert_eq!(empty.pod_count, 0);
    assert_eq!(
        r.explanation,
        "Cluster has 4 namespaces. Resource usage shows CPU/memory requests and limits for \
         each namespace, sorted by CPU requests (descending)."
    );
}

#[test]
fn every_listed_namespace_appears() {
    let namespaces = vec![ns("a"), ns("b"), ns("c"), ns("d"), ns("e")];
    let pods = vec![pod(Some("c"), "1", "1Gi")];
    let r = get_namespace_usage(&namespaces, &pods);
    for n in ["a", "b", "c", "d", "e"] {
        assert_eq!(r.namespaces.iter().filter(|u| u.namespace == n).count(), 1, "{n}");
    }
    let names: Vec<&str> = r.namespaces.iter().map(|n| n.namespace.as_str()).collect();
    assert_eq!(names, ["c", "a", "b", "d", "e"]);
}

#[test]
fn namespace_that_is_not_listed_appears_through_its_pods() {
    let namespaces = vec![ns("a")];
    let pods = vec![pod(Some("ghost"), "1", "1Gi"), pod(None, "2", "1Gi")];
    let r = get_namespace_usage(&namespaces, &pods);
    let names: Vec<&str> = r.namespaces.iter().map(|n| n.namespace.as_str()).collect();
    assert_eq!(names, ["default", "ghost", "a"]);
    assert_eq!(r.total_namespaces, 3);
}

#[test]
fn namespace_listed_twice_has_one_record() {
    let namespaces = vec![ns("a"), ns("b"), ns("a"), NamespaceDescriptor { name: None }];
    let known = namespaces_of(&namespaces, &vec![]);
    assert_eq!(known, ["a", "b", ""]);
    let r = get_namespace_usage(&namespaces, &vec![]);
    assert_eq!(r.total_namespaces, 3);
}

#[test]
fn usage_of_one_namespace() {
    let pods = vec![pod(Some("x"), "1", "1Gi"), pod(Some("y"), "2", "2Gi"), pod(None, "4", "4Gi")];
    let u = namespace_usage(&"default".to_string(), &pods);
    assert_eq!(u.namespace, "default");
    assert_eq!(u.cpu_requests_millicores, 4000);
    assert_eq!(u.pod_count, 1);
    let u = namespace_usage(&"none".to_string(), &pods);
    assert_eq!(u.cpu_requests_millicores, 0);
    assert_eq!(u.pod_count, 0);
}

#[test]
fn empty_inventory_has_no_namespaces() {
    let r = get_namespace_usage(&vec![], &vec![]);
    assert_eq!(r.total_namespaces, 0);
    assert!(r.namespaces.is_empty());
    assert!(r.explanation.starts_with("Cluster has 0 namespaces."));
}
