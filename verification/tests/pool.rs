//! The warm pool.
use bastion_infrastructure::domain::{NetworkSpec, ResourcesSpec, Sandbox, Timestamp};
use bastion_infrastructure::pool::queue::{PoolConfig, PoolQueue};

fn sandbox(id: &str) -> Sandbox {
    Sandbox::new(
        id.to_string(),
        "test".to_string(),
        "podman".to_string(),
        ResourcesSpec { cpu_count: 1, memory_mb: 512 },
        NetworkSpec { document: "{}".to_string() },
        Timestamp { secs: 0, nanos: 0 },
    )
}

#[test]
fn test_pool_config_default() {
    let config = PoolConfig::default();
    assert_eq!(config.min_idle, 5);
    assert_eq!(config.max_idle, 20);
    assert_eq!(config.max_total, 200);
    assert_eq!(config.idle_timeout_ms, 600_000);
    assert_eq!(config.refill_interval_ms, 5_000);
}

#[test]
fn test_pool_queue_checkout_checkin() {
    let mut queue = PoolQueue::new(1, 3, 60000);
    let sandbox = sandbox("s-1");
    assert!(queue.checkout().is_none());

    queue.checkin(sandbox.duplicate(), 0);
    assert_eq!(queue.idle_count(), 1);

    let checked = queue.checkout().unwrap();
    assert_eq!(checked.id, sandbox.id);
    assert_eq!(queue.idle_count(), 0);
}

#[test]
fn test_pool_queue_max_idle() {
    let mut queue = PoolQueue::new(1, 2, 60000);
    assert!(queue.checkin(sandbox("s-1"), 0));
    assert!(queue.checkin(sandbox("s-2"), 0));
    assert!(!queue.checkin(sandbox("s-3"), 0));
    assert_eq!(queue.idle_count(), 2);
}

#[test]
fn test_evict_idle_single_pass_retain() {
    let mut queue = PoolQueue::new(0, 10, 100);
    queue.checkin(sandbox("entry-1"), 0);
    queue.checkin(sandbox("entry-2"), 0);
    queue.checkin(sandbox("entry-3"), 0);
    let evicted = queue.evict_idle(0);
    assert_eq!(evicted.len(), 0, "No entries should be evicted with recent creation time");
    assert_eq!(queue.idle_count(), 3, "All 3 entries should remain");

    let evicted2 = queue.evict_idle(0);
    assert_eq!(evicted2.len(), 0, "Second call should also evict nothing");
    assert_eq!(queue.idle_count(), 3, "Queue unchanged after second call");
}
