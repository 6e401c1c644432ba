//! Counters, heartbeats and configuration changes.
use bastion_infrastructure::domain::Timestamp;
use bastion_infrastructure::metrics::gateway::GatewayMetrics;
use bastion_infrastructure::metrics::heartbeat_bridge::{HeartbeatBridge, WorkerResources};
use bastion_infrastructure::metrics::hub::{
    is_restricted, metric_time, metrics_cutoff, sandbox_resources, MetricsHub, MetricsHubError,
};

#[test]
fn test_metrics_default() {
    let m = GatewayMetrics::default();
    assert_eq!(m.sandboxes_created(), 0);
    assert_eq!(m.active_sandboxes(), 0);
}

#[test]
fn test_record_sandbox_created() {
    let mut m = GatewayMetrics::default();
    m.record_sandbox_created();
    assert_eq!(m.sandboxes_created(), 1);
    assert_eq!(m.active_sandboxes(), 1);
}

#[test]
fn test_record_sandbox_terminated() {
    let mut m = GatewayMetrics::default();
    m.record_sandbox_created();
    m.record_sandbox_terminated();
    assert_eq!(m.sandboxes_terminated(), 1);
    assert_eq!(m.active_sandboxes(), 0);
}

#[test]
fn test_record_command() {
    let mut m = GatewayMetrics::default();
    m.record_command(1000);
    m.record_command(2000);
    assert_eq!(m.commands_executed(), 2);
    assert_eq!(m.total_command_time_us(), 3000);
    assert_eq!(m.avg_command_latency_us(), 1500);
}

#[test]
fn test_record_error() {
    let mut m = GatewayMetrics::default();
    m.record_error();
    assert_eq!(m.errors_total(), 1);
}

#[test]
fn test_prometheus_export() {
    let mut m = GatewayMetrics::default();
    m.record_sandbox_created();
    m.record_command(500);

    let output = m.prometheus_export();
    assert!(output.contains("bastion_sandboxes_created_total 1"));
    assert!(output.contains("bastion_commands_executed_total 1"));
    assert!(output.contains("bastion_sandboxes_active 1"));
}

#[test]
fn export_is_complete() {
    let mut m = GatewayMetrics::default();
    m.record_command(7);
    m.record_command(4);
    let expected = "# HELP bastion_sandboxes_created_total Total sandboxes created\n\
# TYPE bastion_sandboxes_created_total counter\n\
bastion_sandboxes_created_total 0\n\
# HELP bastion_sandboxes_terminated_total Total sandboxes terminated\n\
# TYPE bastion_sandboxes_terminated_total counter\n\
bastion_sandboxes_terminated_total 0\n\
# HELP bastion_commands_executed_total Total commands executed\n\
# TYPE bastion_commands_executed_total counter\n\
bastion_commands_executed_total 2\n\
# HELP bastion_errors_total Total errors\n\
# TYPE bastion_errors_total counter\n\
bastion_errors_total 0\n\
# HELP bastion_sandboxes_active Current active sandboxes\n\
# TYPE bastion_sandboxes_active gauge\n\
bastion_sandboxes_active 0\n\
# HELP bastion_command_latency_us_avg Average command latency in microseconds\n\
# TYPE bastion_command_latency_us_avg gauge\n\
bastion_command_latency_us_avg 5\n";
    assert_eq!(m.prometheus_export(), expected);
}

#[test]
fn counters_wrap_around() {
    let mut m = GatewayMetrics::default();
    m.record_sandbox_terminated();
    assert_eq!(m.active_sandboxes(), u64::MAX);
    m.record_sandbox_created();
    assert_eq!(m.active_sandboxes(), 0);
    assert_eq!(m.avg_command_latency_us(), 0);
}

fn make_resources(sandbox_id: &str, cpu: f64, mem: f64, epoch: i64) -> WorkerResources {
    WorkerResources {
        sandbox_id: sandbox_id.to_string(),
        cpu_percent_bits: cpu.to_bits(),
        mem_used_mb_bits: mem.to_bits(),
        mem_limit_mb_bits: 512.0f64.to_bits(),
        disk_used_mb_bits: 50.0f64.to_bits(),
        loadavg_1m_bits: 0.5f64.to_bits(),
        uptime_seconds: 100,
        last_heartbeat_epoch: epoch,
    }
}

fn now() -> i64 {
    chrono::Utc::now().timestamp()
}

#[test]
fn test_heartbeat_bridge_new() {
    let bridge = HeartbeatBridge::new();
    assert_eq!(bridge.tracked_count(), 0);
}

#[test]
fn test_update_and_get_resources() {
    let mut bridge = HeartbeatBridge::new();
    let now = now();

    bridge.update_resources(make_resources("sb-1", 25.0, 128.0, now));
    assert_eq!(bridge.tracked_count(), 1);

    let res = bridge.get_resources("sb-1", now).unwrap();
    assert!((f64::from_bits(res.cpu_percent_bits) - 25.0).abs() < 0.01);
    assert!((f64::from_bits(res.mem_used_mb_bits) - 128.0).abs() < 0.01);
}

#[test]
fn test_update_overwrites() {
    let mut bridge = HeartbeatBridge::new();
    let now = now();

    bridge.update_resources(make_resources("sb-1", 10.0, 64.0, now));
    bridge.update_resources(make_resources("sb-1", 50.0, 256.0, now));

    let res = bridge.get_resources("sb-1", now).unwrap();
    assert!((f64::from_bits(res.cpu_percent_bits) - 50.0).abs() < 0.01);
    assert!((f64::from_bits(res.mem_used_mb_bits) - 256.0).abs() < 0.01);
}

#[test]
fn test_remove_resources() {
    let mut bridge = HeartbeatBridge::new();
    let now = now();

    bridge.update_resources(make_resources("sb-1", 25.0, 128.0, now));
    assert!(bridge.remove_resources("sb-1"));
    assert!(!bridge.remove_resources("sb-1"));
    assert_eq!(bridge.tracked_count(), 0);
}

#[test]
fn test_system_resources_empty() {
    let mut bridge = HeartbeatBridge::new();
    let sys = bridge.get_system_resources(now());
    assert_eq!(sys.active_sandboxes, 0);
    let total_cpu: f64 = sys.reports.iter().map(|r| f64::from_bits(r.cpu_percent_bits)).sum();
    assert_eq!(total_cpu, 0.0);
    assert_eq!(sys.last_heartbeat_epoch, 0);
}

#[test]
fn test_system_resources_aggregation() {
    let mut bridge = HeartbeatBridge::new();
    let now = now();

    bridge.update_resources(make_resources("sb-1", 25.0, 128.0, now));
    bridge.update_resources(make_resources("sb-2", 50.0, 256.0, now));

    let sys = bridge.get_system_resources(now);
    assert_eq!(sys.active_sandboxes, 2);
    let sum = |f: fn(&WorkerResources) -> u64| -> f64 {
        sys.reports.iter().map(|r| f64::from_bits(f(r))).sum()
    };
    assert!((sum(|r| r.cpu_percent_bits) - 75.0).abs() < 0.01);
    assert!((sum(|r| r.mem_used_mb_bits) - 384.0).abs() < 0.01);
    assert!((sum(|r| r.mem_limit_mb_bits) - 1024.0).abs() < 0.01);
    let avg_load = sum(|r| r.loadavg_1m_bits) / sys.reports.len() as f64;
    assert!((avg_load - 0.5).abs() < 0.01);
    assert_eq!(sys.last_heartbeat_epoch, now);
}

#[test]
fn test_prune_stale() {
    let mut bridge = HeartbeatBridge::with_stale_threshold(10);
    let now = now();
    let old = now - 60;

    bridge.update_resources(make_resources("sb-old", 10.0, 64.0, old));
    bridge.update_resources(make_resources("sb-fresh", 30.0, 128.0, now));

    let pruned = bridge.prune_stale(now);
    assert_eq!(pruned, 1);
    assert_eq!(bridge.tracked_count(), 1);
    assert!(bridge.get_resources("sb-fresh", now).is_some());
    assert!(bridge.get_resources("sb-old", now).is_none());
}

#[test]
fn test_tracked_sandbox_ids() {
    let mut bridge = HeartbeatBridge::new();
    let now = now();

    bridge.update_resources(make_resources("alpha", 10.0, 64.0, now));
    bridge.update_resources(make_resources("beta", 20.0, 128.0, now));

    let ids = bridge.tracked_sandbox_ids();
    assert_eq!(ids.len(), 2);
    assert!(ids.contains(&"alpha".to_string()));
    assert!(ids.contains(&"beta".to_string()));
}

#[test]
fn stale_reports_are_not_given() {
    let mut bridge = HeartbeatBridge::default();
    assert_eq!(bridge.stale_threshold(), 30);
    bridge.update_resources(make_resources("a", 1.0, 1.0, 1000));
    assert!(bridge.get_resources("a", 1030).is_some());
    assert!(bridge.get_resources("a", 1031).is_none());
    assert_eq!(bridge.tracked_count(), 0);
    bridge.set_stale_threshold(u64::MAX);
    bridge.update_resources(make_resources("a", 1.0, 1.0, i64::MIN));
    assert!(bridge.get_resources("a", i64::MAX).is_some());
    bridge.update_resources(make_resources("b", 1.0, 1.0, -5));
    assert_eq!(bridge.get_system_resources(0).last_heartbeat_epoch, -5);
}

fn at(secs: i64) -> Timestamp {
    Timestamp { secs, nanos: 0 }
}

fn set(hub: &mut MetricsHub, key: &str) -> (bool, bool, Option<String>) {
    let r = hub
        .set_config(key, Some("1".to_string()), "2".to_string(), "test", Ok(()), at(5))
        .unwrap();
    (r.applied, r.requires_restart, r.restart_hint)
}

#[test]
fn config_changes_are_applied_or_refused() {
    let mut hub = MetricsHub::new(GatewayMetrics::default());
    assert_eq!(set(&mut hub, "pool.max_total"), (true, false, None));
    assert_eq!(
        set(&mut hub, "auth.hmac_enabled"),
        (false, false, Some("Key 'auth.hmac_enabled' cannot be changed at runtime".to_string()))
    );
    let restart = Some("Gateway restart required for this change".to_string());
    assert_eq!(set(&mut hub, "auth.other"), (true, true, restart.clone()));
    assert_eq!(set(&mut hub, "gateway.tls.cert"), (true, true, restart.clone()));
    assert_eq!(set(&mut hub, "gateway.port2"), (true, true, restart));
    let history = hub.get_config_history();
    assert_eq!(history.len(), 4);
    assert_eq!(history[0].key, "pool.max_total");
    assert_eq!(history[0].old_value, Some("1".to_string()));
    assert_eq!(history[0].new_value, "2");
    assert_eq!(history[0].changed_by, "test");
    assert_eq!(history[0].timestamp, at(5));
    for key in ["auth.hmac_enabled", "auth.jwt_enabled", "auth.pre_shared_key_enabled", "gateway.port"] {
        assert!(is_restricted(key));
    }
    assert!(!is_restricted("gateway.ports"));
}

#[test]
fn config_change_that_was_not_stored_is_not_remembered() {
    let mut hub = MetricsHub::new(GatewayMetrics::default());
    let e = hub
        .set_config("a", None, "b".to_string(), "c", Err("locked".to_string()), at(0))
        .unwrap_err();
    assert_eq!(e.message(), "SQLite error: locked");
    assert!(hub.get_config_history().is_empty());
    assert_eq!(MetricsHubError::Config("x".to_string()).message(), "Config error: x");
}

#[test]
fn config_history_is_bounded() {
    let mut hub = MetricsHub::new(GatewayMetrics::default());
    for i in 0..1002 {
        set(&mut hub, &format!("k{}", i));
    }
    let history = hub.get_config_history();
    assert_eq!(history.len(), 1000);
    assert_eq!(history[0].key, "k2");
    assert_eq!(history[999].key, "k1001");
}

#[test]
fn hub_hands_out_reports_and_counters() {
    let mut hub = MetricsHub::new(GatewayMetrics::default());
    hub.heartbeat_bridge().update_resources(make_resources("s", 1.0, 2.0, 100));
    let r = hub.get_sandbox_resources("s", at(110)).unwrap();
    assert_eq!(r.last_heartbeat, at(100));
    assert!(hub.get_sandbox_resources("s", at(200)).is_none());
    assert_eq!(hub.gateway_metrics().errors_total(), 0);
    let far = sandbox_resources(make_resources("s", 1.0, 2.0, i64::MAX), at(7));
    assert_eq!(far.last_heartbeat, at(7));
}

#[test]
fn metrics_are_kept_for_thirty_days() {
    assert_eq!(metrics_cutoff(at(2_592_001)), at(1));
}

#[test]
fn test_metrics_hub_set_config() {
    let mut hub = MetricsHub::new(GatewayMetrics::default());
    let result = hub
        .set_config(
            "pool.max_total",
            Some("10".to_string()),
            "15".to_string(),
            "sandbox_set_config",
            Ok(()),
            at(1),
        )
        .unwrap();
    assert!(result.applied);
    assert!(!result.requires_restart);
    assert!(result.restart_hint.is_none());
    let result = hub
        .set_config(
            "auth.hmac_enabled",
            Some("true".to_string()),
            "false".to_string(),
            "sandbox_set_config",
            Ok(()),
            at(2),
        )
        .unwrap();
    assert!(!result.applied);
    assert!(result.restart_hint.is_some());
}

#[test]
fn test_metrics_hub_set_config_requires_restart() {
    let mut hub = MetricsHub::new(GatewayMetrics::default());
    let result = hub
        .set_config(
            "auth.pre_shared_key_enabled",
            None,
            "true".to_string(),
            "sandbox_set_config",
            Ok(()),
            at(1),
        )
        .unwrap();
    assert!(!result.applied);
    assert!(result.restart_hint.is_some());
}

#[test]
fn test_metrics_hub_config_history() {
    let mut hub = MetricsHub::new(GatewayMetrics::default());
    let ten = Some("10".to_string());
    hub.set_config("pool.max_total", ten, "15".to_string(), "test", Ok(()), at(1)).unwrap();
    let two = Some("2".to_string());
    hub.set_config("pool.min_idle", two, "3".to_string(), "test", Ok(()), at(2)).unwrap();
    let history = hub.get_config_history();
    assert_eq!(history.len(), 2);
    assert_eq!(history[0].key, "pool.max_total");
    assert_eq!(history[1].key, "pool.min_idle");
}

#[test]
fn a_metric_keeps_the_time_of_its_text() {
    let now = Timestamp { secs: 5, nanos: 6 };
    // 2024-01-01T12:00:00Z
    let noon = Timestamp { secs: 1_704_110_400, nanos: 0 };
    assert_eq!(metric_time("2024-01-01T12:00:00Z", now), noon);
    assert_eq!(metric_time("2024-01-01 14:00:00 +0200", now), noon);
    assert_eq!(metric_time("yesterday", now), now);
    let written = Timestamp { secs: 1_704_110_400, nanos: 123_456_789 };
    assert_eq!(metric_time(&written.to_rfc3339().unwrap(), now), written);
}
