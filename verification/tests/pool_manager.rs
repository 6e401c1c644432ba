use std::sync::Arc;

use bastion_infrastructure::domain::{
    DomainError, NetworkSpec, ResourcesSpec, Sandbox, SandboxStatus, Timestamp,
};
use bastion_infrastructure::pool::manager::{
    CheckinStep, CheckoutStep, RecoveryAnswer, RecoveryResult, RefillEvent, RepositoryWrite,
    SandboxPoolManager,
};
use bastion_infrastructure::pool::queue::{PoolConfig, PoolQueue};

const MILLI: u64 = 1_000_000;

fn new_sandbox(id: &str, template: &str) -> Sandbox {
    Sandbox::new(
        id.to_string(),
        template.to_string(),
        "mock".to_string(),
        ResourcesSpec { cpu_count: 1, memory_mb: 512 },
        NetworkSpec { document: "{}".to_string() },
        Timestamp { secs: 0, nanos: 0 },
    )
}

fn sandbox(id: &str, template: &str) -> Sandbox {
    let mut sandbox = new_sandbox(id, template);
    sandbox.mark_running().unwrap();
    sandbox
}

fn config() -> PoolConfig {
    PoolConfig {
        min_idle: 1,
        max_idle: 3,
        max_total: 10,
        idle_timeout_ms: 60000,
        refill_interval_ms: 5000,
    }
}

fn manager(templates: &[&str]) -> SandboxPoolManager {
    let mut manager = SandboxPoolManager::new(config());
    for t in templates {
        manager.register_template(t);
    }
    manager
}

/// Hands out a sandbox that is created for the request.
fn hand_out(manager: &mut SandboxPoolManager) {
    assert!(matches!(manager.checkout("no template"), CheckoutStep::Create));
    manager.checkout_created();
}

#[test]
fn test_recover_active_sandboxes() {
    let mut manager = manager(&["test-template"]);
    let listed = vec![
        new_sandbox("test-sandbox-1", "test-template"),
        new_sandbox("test-sandbox-2", "test-template"),
    ];
    assert!(manager.wants_lookup("test-template"));
    let answers = vec![RecoveryAnswer::Found, RecoveryAnswer::Found];
    let result = manager.recover_active_sandboxes(Some(listed), &answers, &vec![], 0);
    assert_eq!(result.reintegrated, 2);
    assert_eq!(result.skipped_not_registered, 0);
    assert_eq!(result.skipped_pool_full, 0);
    assert_eq!(result.failed, 0);
    let stats = manager.stats();
    assert_eq!(stats.templates[0].idle, 2);
    assert_eq!(stats.idle, 2);
}

#[test]
fn test_recover_active_sandboxes_skips_unregistered_templates() {
    let mut manager = SandboxPoolManager::new(PoolConfig::default());
    let listed = vec![new_sandbox("unregistered-template-sandbox", "unregistered-template")];
    assert!(!manager.wants_lookup("unregistered-template"));
    let answers = vec![RecoveryAnswer::Saved];
    let result = manager.recover_active_sandboxes(Some(listed), &answers, &vec![], 0);
    assert_eq!(result.reintegrated, 0);
    assert_eq!(result.skipped_not_registered, 1);
}

#[test]
fn each_recovered_sandbox_is_counted_once() {
    let mut manager = manager(&["t"]);
    let listed: Vec<Sandbox> =
        ["a", "b", "c", "d", "e", "f"].iter().map(|id| sandbox(id, "t")).collect();
    let answers = vec![
        RecoveryAnswer::Found,
        RecoveryAnswer::SaveFailed,
        RecoveryAnswer::Saved,
        RecoveryAnswer::LookupFailed,
        RecoveryAnswer::Found,
        RecoveryAnswer::Found,
    ];
    let result = manager.recover_active_sandboxes(
        Some(listed),
        &answers,
        &vec![true, true, false, true, true],
        0,
    );
    assert_eq!(
        result,
        RecoveryResult {
            reintegrated: 3,
            skipped_pool_full: 1,
            skipped_not_registered: 0,
            orphaned_terminated: 4,
            failed: 2,
        }
    );
    assert_eq!(manager.stats().idle, 3);
}

#[test]
fn nothing_is_recovered_where_the_provider_cannot_list() {
    let mut manager = manager(&["t"]);
    let result = manager.recover_active_sandboxes(None, &vec![], &vec![true], 0);
    assert_eq!(result, RecoveryResult::default());
    assert_eq!(manager.stats().idle, 0);
}

#[test]
fn the_repository_learns_that_a_sandbox_runs() {
    assert!(matches!(SandboxPoolManager::repository_write(None), RepositoryWrite::Save));
    let mut paused = sandbox("a", "t");
    paused.status = SandboxStatus::Paused;
    match SandboxPoolManager::repository_write(Some(paused)) {
        RepositoryWrite::Update(s) => assert_eq!(s.status, SandboxStatus::Running),
        _ => panic!("no update"),
    }
    let mut stopped = sandbox("a", "t");
    stopped.status = SandboxStatus::Stopped;
    assert!(matches!(
        SandboxPoolManager::repository_write(Some(stopped)),
        RepositoryWrite::Nothing
    ));
}

#[test]
fn sandboxes_that_the_provider_does_not_list_are_stopped() {
    let ids = vec!["a".to_string()];
    let updates =
        SandboxPoolManager::orphan_updates(&ids, vec![sandbox("a", "t"), sandbox("b", "t")]);
    assert_eq!(updates.len(), 1);
    assert_eq!(updates[0].id, "b");
    assert_eq!(updates[0].status, SandboxStatus::Stopped);
}

#[test]
fn a_warm_sandbox_is_handed_out_first() {
    let mut manager = manager(&["t"]);
    assert!(matches!(manager.checkout("t"), CheckoutStep::Create));
    manager.checkout_created();
    assert_eq!(manager.stats().active, 1);
    let back = manager.checkin("a", Some(sandbox("a", "t")), 0).unwrap();
    assert_eq!(back, CheckinStep::Pooled);
    assert_eq!(manager.stats().active, 0);
    match manager.checkout("t") {
        CheckoutStep::Warm(s) => assert_eq!(s.id, "a"),
        _ => panic!("cold"),
    }
    assert_eq!(manager.stats().active, 1);
    assert_eq!(manager.stats().idle, 0);
    assert_eq!(manager.stats().total, 1);
}

#[test]
fn a_sandbox_without_a_place_is_released() {
    let mut manager = manager(&["t"]);
    for id in ["a", "b", "c", "d"] {
        hand_out(&mut manager);
        let step = manager.checkin(id, Some(sandbox(id, "t")), 0).unwrap();
        assert_eq!(step == CheckinStep::Released, id == "d");
    }
    hand_out(&mut manager);
    assert_eq!(
        manager.checkin("e", Some(sandbox("e", "other")), 0),
        Ok(CheckinStep::Released)
    );
    assert_eq!(
        manager.checkin("gone", None, 0),
        Err(DomainError::NotFound("gone".to_string()))
    );
}

#[test]
fn idle_sandboxes_are_let_go() {
    let mut manager = manager(&["t", "u"]);
    hand_out(&mut manager);
    hand_out(&mut manager);
    manager.checkin("old", Some(sandbox("old", "t")), 0).unwrap();
    manager.checkin("new", Some(sandbox("new", "u")), 50_000 * MILLI).unwrap();
    let evicted = manager.evict_idle(61_000 * MILLI);
    assert_eq!(evicted.len(), 1);
    assert_eq!(evicted[0].id, "old");
    assert!(manager.evict_idle(61_000 * MILLI).is_empty());
    assert_eq!(manager.stats().idle, 1);
}

#[test]
fn test_evict_idle_concurrent_safety() {
    let mut queue = PoolQueue::new(0, 10, 100_000);
    for i in 0..5 {
        assert!(queue.checkin(new_sandbox(&format!("concurrent-{}", i), "test"), 0));
    }
    let queue_arc = Arc::new(tokio::sync::Mutex::new(queue));
    let runtime = tokio::runtime::Runtime::new().unwrap();
    runtime.block_on(async {
        let mut handles = vec![];
        for _ in 0..10 {
            let queue_clone = queue_arc.clone();
            handles.push(tokio::spawn(async move {
                let mut queue = queue_clone.lock().await;
                queue.evict_idle(0).len()
            }));
        }
        let mut total_evicted = 0;
        for handle in handles {
            total_evicted += handle.await.expect("Task should not panic");
        }
        assert_eq!(total_evicted, 0, "No entries should be evicted with long timeout");
        let queue = queue_arc.lock().await;
        assert_eq!(
            queue.idle_count(),
            5,
            "All 5 entries should remain after concurrent evict calls"
        );
    });
}

#[test]
fn stopping_hands_out_all_that_wait() {
    let mut manager = manager(&["t", "u"]);
    manager.checkin("a", Some(sandbox("a", "t")), 0).unwrap();
    manager.checkin("b", Some(sandbox("b", "u")), 0).unwrap();
    let ids: Vec<String> = manager.stop().into_iter().map(|s| s.id).collect();
    assert_eq!(ids, vec!["a".to_string(), "b".to_string()]);
    assert_eq!(manager.stats().total, 0);
}

#[test]
fn queues_are_refilled_up_to_their_least() {
    let mut manager = manager(&["t", "u"]);
    let first = manager.refill_target(0).unwrap();
    assert_eq!(manager.template_at(first), "t");
    let (next, excess) =
        manager.refill_event(first, RefillEvent::Created(sandbox("a", "t")), 0);
    assert_eq!(next, first);
    assert!(excess.is_none());
    let second = manager.refill_target(next).unwrap();
    assert_eq!(manager.template_at(second), "u");
    let (after, excess) = manager.refill_event(second, RefillEvent::CreateFailed, 0);
    assert_eq!(after, second + 1);
    assert!(excess.is_none());
    assert_eq!(manager.refill_target(after), None);
}

#[test]
fn a_sandbox_too_many_is_given_back() {
    let mut manager = manager(&["t"]);
    for id in ["a", "b", "c"] {
        manager.refill_event(0, RefillEvent::Created(sandbox(id, "t")), 0);
    }
    let (next, excess) = manager.refill_event(0, RefillEvent::Created(sandbox("d", "t")), 0);
    assert_eq!(next, 1);
    assert_eq!(excess.unwrap().id, "d");
}

fn limited(max_total: usize) -> SandboxPoolManager {
    let config = PoolConfig { min_idle: 5, max_idle: 20, max_total, ..config() };
    let mut manager = SandboxPoolManager::new(config);
    manager.register_template("t");
    manager.register_template("u");
    manager
}

#[test]
fn a_refill_keeps_to_the_limit_over_all_templates() {
    let mut manager = limited(3);
    let mut created = 0;
    let mut from = 0;
    while let Some(position) = manager.refill_target(from) {
        let template = manager.template_at(position).clone();
        let new = sandbox(&format!("s{}", created), &template);
        let (next, excess) = manager.refill_event(position, RefillEvent::Created(new), 0);
        assert!(excess.is_none());
        from = next;
        created += 1;
    }
    assert_eq!(created, 3);
    assert_eq!(manager.stats().total, 3);
    assert!(!manager.has_place());
    // One that was made all the same is handed back.
    let (next, excess) =
        manager.refill_event(1, RefillEvent::Created(sandbox("late", "u")), 0);
    assert_eq!(next, 2);
    assert_eq!(excess.unwrap().id, "late");
    assert_eq!(manager.stats().total, 3);
}

#[test]
fn a_request_over_the_limit_is_refused() {
    let mut manager = limited(2);
    assert!(matches!(manager.checkout("t"), CheckoutStep::Create));
    assert!(matches!(manager.checkout("t"), CheckoutStep::Create));
    assert_eq!(manager.creations_under_way(), 2);
    // Both places are taken by sandboxes that are being created.
    match manager.checkout("t") {
        CheckoutStep::Refused(e) => {
            assert_eq!(e, DomainError::ResourceExhausted("No permits available".to_string()))
        }
        _ => panic!("not refused"),
    }
    assert_eq!(manager.refill_target(0), None);
    manager.checkout_failed();
    manager.checkout_created();
    assert_eq!(manager.creations_under_way(), 0);
    assert_eq!(manager.stats().active, 1);
    assert_eq!(manager.refill_target(0), Some(0));
    manager.refill_event(0, RefillEvent::Created(sandbox("a", "t")), 0);
    // A warm sandbox is handed out at the limit too.
    assert!(matches!(manager.checkout("u"), CheckoutStep::Refused(_)));
    assert!(matches!(manager.checkout("t"), CheckoutStep::Warm(_)));
    assert!(matches!(manager.checkout("t"), CheckoutStep::Refused(_)));
    manager.checkin("a", Some(sandbox("a", "other")), 0).unwrap();
    assert!(matches!(manager.checkout("t"), CheckoutStep::Create));
}

#[test]
fn running_sandboxes_are_recovered_over_the_limit() {
    let mut manager = limited(1);
    let listed = vec![sandbox("a", "t"), sandbox("b", "u")];
    let answers = vec![RecoveryAnswer::Found, RecoveryAnswer::Saved];
    let result = manager.recover_active_sandboxes(Some(listed), &answers, &vec![], 0);
    assert_eq!(result.reintegrated, 2);
    assert_eq!(manager.stats().total, 2);
    assert_eq!(manager.refill_target(0), None);
    assert!(matches!(manager.checkout("t"), CheckoutStep::Warm(_)));
    assert!(matches!(manager.checkout("t"), CheckoutStep::Refused(_)));
}

#[test]
fn a_sandbox_that_was_not_handed_out_lowers_no_count() {
    let mut manager = manager(&["t"]);
    manager.checkin("a", Some(sandbox("a", "t")), 0).unwrap();
    assert_eq!(manager.stats().active, 0);
    assert_eq!(manager.stats().total, 1);
    assert!(manager.countable());
}

#[test]
fn no_queue_holds_more_than_it_may() {
    let mut manager = manager(&["t"]);
    let listed: Vec<Sandbox> = (0..5).map(|i| sandbox(&format!("s-{}", i), "t")).collect();
    let answers = vec![RecoveryAnswer::Found; 5];
    let result = manager.recover_active_sandboxes(Some(listed), &answers, &vec![], 0);
    assert_eq!(result.reintegrated, 3);
    assert_eq!(result.skipped_pool_full, 2);
    let stats = manager.stats();
    assert_eq!(stats.templates[0].idle, 3);
    assert_eq!(stats.templates[0].max_idle, 3);
    assert!(manager.evict_idle(60_000 * MILLI).is_empty());
    assert_eq!(manager.evict_idle(60_000 * MILLI + 1).len(), 3);
    assert_eq!(manager.stats().idle, 0);
}
