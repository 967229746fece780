//! The library counts in whole sub-units.  These tests hold its results
//! against the same quantities worked out in floating point, on inventories
//! as clusters have them.
use cluster_insights::capacity::{get_cluster_capacity, get_node_breakdown};
use cluster_insights::fit::{check_resource_fit, CheckResourceFitParams};
use cluster_insights::inventory::{
    ContainerResources, NamespaceDescriptor, NodeDescriptor, PodDescriptor,
};
use cluster_insights::namespaces::get_namespace_usage;
use cluster_insights::quantity::{quantity_to_bytes, quantity_to_millicores};

const GIB: f64 = 1073741824.0;

fn cores_in_floating_point(s: &str) -> f64 {
    if s.is_empty() {
        return 0.0;
    }
    if let Some(number) = s.strip_suffix('m') {
        if let Ok(millicores) = number.parse::<f64>() {
            return millicores / 1000.0;
        }
    }
    s.parse::<f64>().unwrap_or(0.0)
}

fn gigabytes_in_floating_point(s: &str) -> f64 {
    let units: [(&str, f64); 8] = [
        ("Ki", 1024.0),
        ("Mi", 1024.0 * 1024.0),
        ("Gi", 1024.0 * 1024.0 * 1024.0),
        ("Ti", 1024.0 * 1024.0 * 1024.0 * 1024.0),
        ("K", 1000.0),
        ("M", 1000.0 * 1000.0),
        ("G", 1000.0 * 1000.0 * 1000.0),
        ("T", 1000.0 * 1000.0 * 1000.0 * 1000.0),
    ];
    for (suffix, unit) in units {
        if let Some(number) = s.strip_suffix(suffix) {
            return number.parse::<f64>().map_or(0.0, |v| v * unit / GIB);
        }
    }
    s.parse::<f64>().map_or(0.0, |v| v / GIB)
}

struct Numbers(u64);

impl Numbers {
    fn next(&mut self, below: u64) -> u64 {
        self.0 = self.0.wrapping_mul(6364136223846793005).wrapping_add(1442695040888963407);
        (self.0 >> 33) % below
    }

    fn compute(&mut self) -> String {
        match self.next(5) {
            0 => format!("{}", self.next(64)),
            1 => format!("{}m", self.next(16000)),
            2 => format!("{}.{}", self.next(8), self.next(10)),
            3 => format!("0.{:03}", self.next(1000)),
            _ => format!("{}m", 50 * self.next(80)),
        }
    }

    fn memory(&mut self) -> String {
        match self.next(9) {
            0 => format!("{}Ki", self.next(1 << 24)),
            1 => format!("{}Mi", self.next(1 << 16)),
            2 => format!("{}Gi", self.next(512)),
            3 => format!("{}Ti", self.next(4)),
            4 => format!("{}K", self.next(1 << 24)),
            5 => format!("{}M", self.next(1 << 16)),
            6 => format!("{}G", self.next(512)),
            7 => format!("{}", self.next(1 << 34)),
            _ => format!("{}.5Gi", self.next(64)),
        }
    }

    fn name(&mut self, prefix: &str, among: u64) -> String {
        format!("{}-{}", prefix, self.next(among))
    }
}

fn close(whole: i64, per_unit: f64, floating: f64) -> bool {
    let exact = whole as f64 / per_unit;
    (exact - floating).abs() <= 1e-9 * floating.abs().max(1.0)
}

#[test]
fn memory_agrees_to_the_byte() {
    let mut numbers = Numbers(7);
    for _ in 0..5000 {
        let raw = numbers.memory();
        assert_eq!(
            quantity_to_bytes(&raw) as f64 / GIB,
            gigabytes_in_floating_point(&raw),
            "{raw:?}"
        );
    }
}

#[test]
fn compute_agrees_to_the_millicore() {
    let mut numbers = Numbers(11);
    for _ in 0..5000 {
        let raw = numbers.compute();
        let floating = cores_in_floating_point(&raw);
        assert_eq!(quantity_to_millicores(&raw), (floating * 1000.0).round() as i64, "{raw:?}");
    }
}

fn inventory(seed: u64) -> (Vec<NodeDescriptor>, Vec<PodDescriptor>, Vec<NamespaceDescriptor>) {
    let mut numbers = Numbers(seed);
    let nodes = (0..1 + numbers.next(12))
        .map(|i| NodeDescriptor {
            name: Some(format!("node-{i}")),
            cpu_capacity: Some(format!("{}", 1 + numbers.next(128))),
            memory_capacity: Some(format!("{}Ki", numbers.next(1 << 28))),
        })
        .collect();
    let pods = (0..numbers.next(200))
        .map(|_| PodDescriptor {
            name: Some(numbers.name("pod", 1000)),
            namespace: if numbers.next(10) == 0 { None } else { Some(numbers.name("ns", 8)) },
            node_name: if numbers.next(10) == 0 { None } else { Some(numbers.name("node", 14)) },
            containers: (0..numbers.next(4))
                .map(|_| ContainerResources {
                    cpu_request: if numbers.next(5) == 0 { None } else { Some(numbers.compute()) },
                    memory_request: if numbers.next(5) == 0 {
                        None
                    } else {
                        Some(numbers.memory())
                    },
                    cpu_limit: if numbers.next(2) == 0 { None } else { Some(numbers.compute()) },
                    memory_limit: if numbers.next(2) == 0 { None } else { Some(numbers.memory()) },
                })
                .collect(),
        })
        .collect();
    let namespaces = (0..numbers.next(10))
        .map(|i| NamespaceDescriptor { name: Some(format!("ns-{i}")) })
        .collect();
    (nodes, pods, namespaces)
}

fn requested(pod: &PodDescriptor) -> (f64, f64) {
    let mut cpu = 0.0;
    let mut memory = 0.0;
    for c in &pod.containers {
        if let Some(q) = &c.cpu_request {
            cpu += cores_in_floating_point(q);
        }
        if let Some(q) = &c.memory_request {
            memory += gigabytes_in_floating_point(q);
        }
    }
    (cpu, memory)
}

#[test]
fn capacity_agrees() {
    for seed in 0..200 {
        let (nodes, pods, _) = inventory(seed);
        let mut total = (0.0, 0.0);
        for n in &nodes {
            total.0 += cores_in_floating_point(n.cpu_capacity.as_deref().unwrap_or(""));
            total.1 += gigabytes_in_floating_point(n.memory_capacity.as_deref().unwrap_or(""));
        }
        let mut allocated = (0.0, 0.0);
        for p in &pods {
            let (cpu, memory) = requested(p);
            allocated.0 += cpu;
            allocated.1 += memory;
        }
        let c = get_cluster_capacity(&nodes, &pods);
        assert!(close(c.total_cpu_millicores, 1000.0, total.0));
        assert!(close(c.total_memory_bytes, GIB, total.1));
        assert!(close(c.allocated_cpu_millicores, 1000.0, allocated.0));
        assert!(close(c.allocated_memory_bytes, GIB, allocated.1));
        assert!(close(c.available_cpu_millicores, 1000.0, total.0 - allocated.0));
        assert!(close(c.available_memory_bytes, GIB, total.1 - allocated.1));
        assert_eq!(c.node_count, nodes.len());

        let demand = (total.0 / 2.0, total.1 / 2.0);
        let params = CheckResourceFitParams {
            cpu_millicores: (demand.0 * 1000.0).round() as i64,
            memory_bytes: (demand.1 * GIB).round() as i64,
        };
        let verdict = check_resource_fit(&nodes, &pods, &params).unwrap();
        let margin = (total.0 - allocated.0 - demand.0).abs().min(
            (total.1 - allocated.1 - demand.1).abs(),
        );
        if margin > 1e-6 {
            assert_eq!(
                verdict.fits,
                total.0 - allocated.0 >= demand.0 && total.1 - allocated.1 >= demand.1
            );
        }
    }
}

#[test]
fn breakdown_agrees() {
    for seed in 200..300 {
        let (nodes, pods, _) = inventory(seed);
        let b = get_node_breakdown(&nodes, &pods);
        assert_eq!(b.nodes.len(), nodes.len());
        for (info, node) in b.nodes.iter().zip(&nodes) {
            let mut allocated = (0.0, 0.0);
            let mut count = 0;
            for p in pods.iter().filter(|p| p.node_name == node.name) {
                let (cpu, memory) = requested(p);
                allocated.0 += cpu;
                allocated.1 += memory;
                count += 1;
            }
            assert_eq!(Some(&info.name), node.name.as_ref());
            assert_eq!(info.pod_count, count);
            assert!(close(info.allocated_cpu_millicores, 1000.0, allocated.0));
            assert!(close(info.allocated_memory_bytes, GIB, allocated.1));
        }
    }
}

#[test]
fn usage_agrees() {
    for seed in 300..400 {
        let (_, pods, namespaces) = inventory(seed);
        let r = get_namespace_usage(&namespaces, &pods);
        let mut names: Vec<String> = namespaces.iter().filter_map(|n| n.name.clone()).collect();
        for p in &pods {
            names.push(p.namespace.clone().unwrap_or("default".to_string()));
        }
        names.sort();
        names.dedup();
        assert_eq!(r.total_namespaces, names.len());
        let mut seen: Vec<String> = r.namespaces.iter().map(|u| u.namespace.clone()).collect();
        seen.sort();
        assert_eq!(seen, names);
        for usage in &r.namespaces {
            let mut cpu = 0.0;
            let mut count = 0;
            for p in &pods {
                if p.namespace.as_deref().unwrap_or("default") == usage.namespace {
                    cpu += requested(p).0;
                    count += 1;
                }
            }
            assert_eq!(usage.pod_count, count);
            assert!(close(usage.cpu_requests_millicores, 1000.0, cpu));
        }
        for w in r.namespaces.windows(2) {
            assert!(w[0].cpu_requests_millicores >= w[1].cpu_requests_millicores);
        }
    }
}
