use criterion_hypothesis::registry::{BenchmarkFn, BenchmarkRegistry};

/// A benchmark operation that reports a fixed duration.
struct ConstBench {
    duration_ns: u64,
}

impl BenchmarkFn for ConstBench {
    fn measure(&self) -> u64 {
        self.duration_ns
    }
}

#[test]
fn test_registry_new() {
    let registry: BenchmarkRegistry<ConstBench> = BenchmarkRegistry::new();
    assert!(registry.is_empty());
    assert_eq!(registry.len(), 0);
}

#[test]
fn test_registry_register_and_list() {
    let mut registry = BenchmarkRegistry::new();
    registry.register("bench1".to_string(), ConstBench { duration_ns: 10_000_000 });
    registry.register("bench2".to_string(), ConstBench { duration_ns: 20_000_000 });

    assert_eq!(registry.len(), 2);
    assert!(registry.contains("bench1"));
    assert!(registry.contains("bench2"));
    assert!(!registry.contains("bench3"));

    let names = registry.list();
    assert_eq!(names.len(), 2);
    assert!(names.contains(&"bench1".to_string()));
    assert!(names.contains(&"bench2".to_string()));
}

#[test]
fn test_registry_run() {
    let mut registry = BenchmarkRegistry::new();
    registry.register("fast".to_string(), ConstBench { duration_ns: 5_000_000 });

    let result = registry.run("fast");
    assert!(result.is_some());
    assert_eq!(result.unwrap(), 5_000_000);

    let missing = registry.run("nonexistent");
    assert!(missing.is_none());
}

#[test]
fn test_registry_default() {
    let registry: BenchmarkRegistry<ConstBench> = BenchmarkRegistry::default();
    assert!(registry.is_empty());
}

#[test]
fn test_registry_reregister_replaces() {
    let mut registry = BenchmarkRegistry::new();
    registry.register("bench".to_string(), ConstBench { duration_ns: 1 });
    registry.register("bench".to_string(), ConstBench { duration_ns: 2 });

    assert_eq!(registry.len(), 1);
    assert_eq!(registry.run("bench"), Some(2));
}
