use cluster_insights::capacity::{get_cluster_capacity, get_node_breakdown};
use cluster_insights::inventory::{ContainerResources, NodeDescriptor, PodDescriptor};

fn text(s: &str) -> Option<String> {
    Some(s.to_string())
}

fn container(cpu: &str, memory: &str) -> ContainerResources {
    ContainerResources {
        cpu_request: text(cpu),
        memory_request: text(memory),
        cpu_limit: None,
        memory_limit: None,
    }
}

fn pod(name: &str, node: Option<&str>, containers: Vec<ContainerResources>) -> PodDescriptor {
    PodDescriptor {
        name: text(name),
        namespace: text("default"),
        node_name: node.map(|n| n.to_string()),
        containers,
    }
}

fn node(name: &str, cpu: &str, memory: &str) -> NodeDescriptor {
    NodeDescriptor { name: text(name), cpu_capacity: text(cpu), memory_capacity: text(memory) }
}

const GIB: i64 = 1 << 30;

#[test]
fn one_node_one_pod() {
    let nodes = vec![node("n1", "8", "32Gi")];
    let pods = vec![pod("web-1", Some("n1"), vec![container("500m", "512Mi")])];
    let c = get_cluster_capacity(&nodes, &pods);
    assert_eq!(c.total_cpu_millicores as f64 / 1000.0, 8.0);
    assert_eq!(c.total_memory_bytes as f64 / GIB as f64, 32.0);
    assert_eq!(c.allocated_cpu_millicores as f64 / 1000.0, 0.5);
    assert_eq!(c.allocated_memory_bytes as f64 / GIB as f64, 0.5);
    assert_eq!(c.available_cpu_millicores as f64 / 1000.0, 7.5);
    assert_eq!(c.available_memory_bytes as f64 / GIB as f64, 31.5);
    assert_eq!(c.node_count, 1);
    assert_eq!(
        c.explanation,
        "Cluster has 1 nodes. Total capacity: 8.00 CPU cores, 32.00 GB memory. \
         Allocated (requests): 0.50 CPU cores (6.2%), 0.50 GB memory (1.6%). \
         Available: 7.50 CPU cores, 31.50 GB memory."
    );
}

#[test]
fn empty_cluster_has_zero_percent() {
    let c = get_cluster_capacity(&vec![], &vec![]);
    assert_eq!(c.total_cpu_millicores, 0);
    assert_eq!(c.available_memory_bytes, 0);
    assert_eq!(c.node_count, 0);
    assert_eq!(
        c.explanation,
        "Cluster has 0 nodes. Total capacity: 0.00 CPU cores, 0.00 GB memory. \
         Allocated (requests): 0.00 CPU cores (0.0%), 0.00 GB memory (0.0%). \
         Available: 0.00 CPU cores, 0.00 GB memory."
    );
}

#[test]
fn overcommitted_cluster_has_negative_availability() {
    let nodes = vec![node("n1", "1", "1Gi")];
    let pods = vec![
        pod("a", Some("n1"), vec![container("750m", "768Mi"), container("750m", "768Mi")]),
    ];
    let c = get_cluster_capacity(&nodes, &pods);
    assert_eq!(c.available_cpu_millicores, -500);
    assert_eq!(c.available_memory_bytes, -(GIB / 2));
    assert_eq!(c.available_cpu_millicores, c.total_cpu_millicores - c.allocated_cpu_millicores);
    assert_eq!(c.available_memory_bytes, c.total_memory_bytes - c.allocated_memory_bytes);
    assert!(c.explanation.ends_with("Available: -0.50 CPU cores, -0.50 GB memory."));
    assert!(c.explanation.contains("1.50 CPU cores (150.0%)"));
}

#[test]
fn pod_without_requests_counts_nothing() {
    let nodes = vec![node("n1", "4", "8Gi")];
    let bare = ContainerResources {
        cpu_request: None,
        memory_request: None,
        cpu_limit: text("2"),
        memory_limit: text("1Gi"),
    };
    let pods = vec![pod("a", Some("n1"), vec![bare]), pod("b", Some("n1"), vec![])];
    let c = get_cluster_capacity(&nodes, &pods);
    assert_eq!(c.allocated_cpu_millicores, 0);
    assert_eq!(c.allocated_memory_bytes, 0);
    assert_eq!(c.available_cpu_millicores, 4000);
}

#[test]
fn unreadable_fields_do_not_stop_the_sum() {
    let nodes = vec![node("n1", "four", "8Gi"), node("n2", "2", "lots")];
    let pods = vec![pod("a", Some("n1"), vec![container("1", "1Gi"), container("?", "1Gx")])];
    let c = get_cluster_capacity(&nodes, &pods);
    assert_eq!(c.total_cpu_millicores, 2000);
    assert_eq!(c.total_memory_bytes, 8 * GIB);
    assert_eq!(c.allocated_cpu_millicores, 1000);
    assert_eq!(c.allocated_memory_bytes, GIB);
}

#[test]
fn node_without_capacity_fields() {
    let nodes = vec![NodeDescriptor { name: None, cpu_capacity: None, memory_capacity: None }];
    let c = get_cluster_capacity(&nodes, &vec![]);
    assert_eq!(c.node_count, 1);
    assert_eq!(c.total_cpu_millicores, 0);
    let b = get_node_breakdown(&nodes, &vec![]);
    assert_eq!(b.nodes[0].name, "");
    assert_eq!(b.nodes[0].pod_count, 0);
}

#[test]
fn totals_saturate() {
    let nodes = vec![
        node("n1", "9223372036854775807m", "8Gi"),
        node("n2", "9223372036854775807m", "8Gi"),
    ];
    let c = get_cluster_capacity(&nodes, &vec![]);
    assert_eq!(c.total_cpu_millicores, i64::MAX);
    assert_eq!(c.available_cpu_millicores, i64::MAX);
}

#[test]
fn breakdown_by_node() {
    let nodes = vec![node("n1", "8", "32Gi"), node("n2", "4", "16Gi"), node("n3", "2", "4Gi")];
    let pods = vec![
        pod("a", Some("n1"), vec![container("500m", "512Mi")]),
        pod("b", Some("n2"), vec![container("1", "1Gi"), container("250m", "256Mi")]),
        pod("c", Some("n1"), vec![container("1500m", "2Gi")]),
        pod("d", None, vec![container("3", "3Gi")]),
        pod("e", Some("N1"), vec![container("1", "1Gi")]),
    ];
    let b = get_node_breakdown(&nodes, &pods);
    assert_eq!(b.total_nodes, 3);
    assert_eq!(b.nodes.len(), 3);
    assert_eq!(b.nodes[0].name, "n1");
    assert_eq!(b.nodes[0].total_cpu_millicores, 8000);
    assert_eq!(b.nodes[0].total_memory_bytes, 32 * GIB);
    assert_eq!(b.nodes[0].allocated_cpu_millicores, 2000);
    assert_eq!(b.nodes[0].allocated_memory_bytes, 2 * GIB + GIB / 2);
    assert_eq!(b.nodes[0].available_cpu_millicores, 6000);
    assert_eq!(b.nodes[0].available_memory_bytes, 29 * GIB + GIB / 2);
    assert_eq!(b.nodes[0].pod_count, 2);
    assert_eq!(b.nodes[1].name, "n2");
    assert_eq!(b.nodes[1].allocated_cpu_millicores, 1250);
    assert_eq!(b.nodes[1].allocated_memory_bytes, GIB + GIB / 4);
    assert_eq!(b.nodes[1].pod_count, 1);
    assert_eq!(b.nodes[2].name, "n3");
    assert_eq!(b.nodes[2].allocated_cpu_millicores, 0);
    assert_eq!(b.nodes[2].pod_count, 0);
    assert_eq!(b.nodes[2].available_memory_bytes, 4 * GIB);
    assert_eq!(
        b.explanation,
        "Cluster has 3 nodes. Each node shows total capacity, allocated resources (requests), \
         available resources, and pod count."
    );
}

#[test]
fn unscheduled_pod_counts_for_the_cluster_and_for_no_node() {
    let nodes = vec![node("n1", "8", "32Gi"), node("n2", "8", "32Gi")];
    let pods = vec![
        pod("placed", Some("n1"), vec![container("1", "1Gi")]),
        pod("waiting", None, vec![container("2", "2Gi")]),
    ];
    let c = get_cluster_capacity(&nodes, &pods);
    let b = get_node_breakdown(&nodes, &pods);
    assert_eq!(c.allocated_cpu_millicores, 3000);
    assert_eq!(c.allocated_memory_bytes, 3 * GIB);
    let by_node: i64 = b.nodes.iter().map(|n| n.allocated_cpu_millicores).sum();
    assert_eq!(by_node, 1000);
    let pods_by_node: usize = b.nodes.iter().map(|n| n.pod_count).sum();
    assert_eq!(pods_by_node, 1);
}

#[test]
fn breakdown_keeps_availability_relation() {
    let nodes = vec![node("n1", "1", "1Gi")];
    let pods = vec![pod("a", Some("n1"), vec![container("2500m", "3Gi")])];
    let b = get_node_breakdown(&nodes, &pods);
    let n = &b.nodes[0];
    assert_eq!(n.available_cpu_millicores, -1500);
    assert_eq!(n.available_cpu_millicores, n.total_cpu_millicores - n.allocated_cpu_millicores);
    assert_eq!(n.available_memory_bytes, n.total_memory_bytes - n.allocated_memory_bytes);
}

#[test]
fn repeated_calls_agree() {
    let nodes = vec![node("n1", "8", "32Gi")];
    let pods = vec![pod("web-1", Some("n1"), vec![container("500m", "512Mi")])];
    let a = get_cluster_capacity(&nodes, &pods);
    let b = get_cluster_capacity(&nodes, &pods);
    assert_eq!(format!("{:?}", a), format!("{:?}", b));
    let x = get_node_breakdown(&nodes, &pods);
    let y = get_node_breakdown(&nodes, &pods);
    assert_eq!(format!("{:?}", x), format!("{:?}", y));
}
