//! Configuration changes at run time, beside the counters and the reports of workers.
use vstd::prelude::*;

use crate::domain::Timestamp;
use crate::interop;
use crate::interop::{parse_time, write_rfc3339};
use crate::metrics::gateway::GatewayMetrics;
use crate::metrics::heartbeat_bridge;
use crate::metrics::heartbeat_bridge::{HeartbeatBridge, WorkerResources};
use crate::text;
use crate::text::{concat2, concat3, starts_with, str_eq};

verus! {

/// What goes wrong in the hub.
#[derive(Debug)]
pub enum MetricsHubError {
    Sqlite(String),
    Config(String),
}

impl MetricsHubError {
    /// The error in words.
    pub open spec fn text(self) -> Seq<char> {
        match self {
            MetricsHubError::Sqlite(e) => "SQLite error: "@ + e@,
            MetricsHubError::Config(e) => "Config error: "@ + e@,
        }
    }

    /// The error in words.
    pub fn message(&self) -> (r: String)
        ensures
            r@ == self.text(),
            *self matches MetricsHubError::Sqlite(e) ==> r@ == "SQLite error: "@ + e@,
            *self matches MetricsHubError::Config(e) ==> r@ == "Config error: "@ + e@,
    {
        match self {
            MetricsHubError::Sqlite(e) => concat2("SQLite error: ", e.as_str()),
            MetricsHubError::Config(e) => concat2("Config error: ", e.as_str()),
        }
    }
}

/// What a sandbox used, with the time of its heartbeat.
#[derive(Debug)]
pub struct SandboxResources {
    pub usage: WorkerResources,
    pub last_heartbeat: Timestamp,
}

/// The time of a heartbeat; the present where the time cannot be held.
pub open spec fn heartbeat_time(epoch: i64, now: Timestamp) -> Timestamp {
    if interop::rfc3339_text(epoch, 0) is Some {
        Timestamp { secs: epoch, nanos: 0 }
    } else {
        now
    }
}

/// A worker's report with its time.
pub fn sandbox_resources(w: WorkerResources, now: Timestamp) -> (r: SandboxResources)
    ensures
        r.usage == w,
        r.last_heartbeat == heartbeat_time(w.last_heartbeat_epoch, now),
        interop::rfc3339_text(w.last_heartbeat_epoch, 0) is Some ==> r.last_heartbeat.secs
            == w.last_heartbeat_epoch && r.last_heartbeat.nanos == 0,
        interop::rfc3339_text(w.last_heartbeat_epoch, 0) is None ==> r.last_heartbeat == now,
{
    let beat = Timestamp { secs: w.last_heartbeat_epoch, nanos: 0 };
    let last_heartbeat = match write_rfc3339(beat) {
        Some(_) => beat,
        None => now,
    };
    SandboxResources { usage: w, last_heartbeat }
}

/// The time of a metric that was kept; the present where its text cannot be read.
pub open spec fn kept_time(text: Seq<char>, now: Timestamp) -> Timestamp {
    match interop::time_value(text) {
        Some(v) => Timestamp { secs: v.0, nanos: v.1 },
        None => now,
    }
}

/// The time of a metric that was kept, from its text in the database.
pub fn metric_time(text: &str, now: Timestamp) -> (r: Timestamp)
    ensures
        r == kept_time(text@, now),
        interop::time_value(text@) matches Some(v) ==> r.secs == v.0 && r.nanos == v.1,
        interop::time_value(text@) is None ==> r == now,
{
    match parse_time(text) {
        Some(t) => t,
        None => now,
    }
}

/// A metric is read back with its time from the text that was written for it.
pub proof fn law_metric_time_reads_back(text: Seq<char>, t: Timestamp, now: Timestamp)
    requires
        interop::reads_leniently(text, t),
    ensures
        kept_time(text, now) == t,
{
}

/// How a change of the configuration came out.
#[derive(Debug)]
pub struct SetConfigResult {
    /// Whether it took place.
    pub applied: bool,
    /// Whether it needs a restart.
    pub requires_restart: bool,
    /// What to know about it.
    pub restart_hint: Option<String>,
}

/// A change of the configuration.
#[derive(Debug)]
pub struct ConfigChange {
    pub timestamp: Timestamp,
    pub key: String,
    pub old_value: Option<String>,
    pub new_value: String,
    pub changed_by: String,
}

impl Clone for ConfigChange {
    fn clone(&self) -> (r: Self)
        ensures
            r == *self,
    {
        let old_value: Option<String> = match &self.old_value {
            Some(v) => Some(v.clone()),
            None => None,
        };
        ConfigChange {
            timestamp: self.timestamp,
            key: self.key.clone(),
            old_value,
            new_value: self.new_value.clone(),
            changed_by: self.changed_by.clone(),
        }
    }
}

/// Whether a setting cannot be changed at run time.
pub open spec fn restricted(key: Seq<char>) -> bool {
    key == "auth.hmac_enabled"@ || key == "auth.jwt_enabled"@ || key
        == "auth.pre_shared_key_enabled"@ || key == "gateway.port"@
}

/// Whether a setting cannot be changed at run time.
pub fn is_restricted(key: &str) -> (r: bool)
    ensures
        r == restricted(key@),
        r <==> key@ == "auth.hmac_enabled"@ || key@ == "auth.jwt_enabled"@ || key@
            == "auth.pre_shared_key_enabled"@ || key@ == "gateway.port"@,
{
    str_eq(key, "auth.hmac_enabled") || str_eq(key, "auth.jwt_enabled") || str_eq(
        key,
        "auth.pre_shared_key_enabled",
    ) || str_eq(key, "gateway.port")
}

/// Whether a change of a setting takes effect only after a restart.
pub open spec fn needs_restart(key: Seq<char>) -> bool {
    text::has_prefix(key, "auth."@) || text::has_prefix(key, "gateway.port"@) || text::has_prefix(
        key,
        "gateway.tls"@,
    )
}

/// The number of changes that are kept.
pub const MAX_CONFIG_HISTORY: usize = 1000;

/// The kept changes after one more: the oldest goes where there would be too many.
pub open spec fn remembered(history: Seq<ConfigChange>, change: ConfigChange) -> Seq<ConfigChange> {
    if history.len() >= MAX_CONFIG_HISTORY {
        history.drop_first().push(change)
    } else {
        history.push(change)
    }
}

/// The hub.
pub struct MetricsHub {
    gateway_metrics: GatewayMetrics,
    heartbeat_bridge: HeartbeatBridge,
    config_history: Vec<ConfigChange>,
}

impl MetricsHub {
    /// No more changes are kept than there is room for.
    pub closed spec fn wf(self) -> bool {
        self.heartbeat_bridge.wf() && self.config_history@.len() <= MAX_CONFIG_HISTORY
    }

    /// The counters.
    pub closed spec fn counters(self) -> GatewayMetrics {
        self.gateway_metrics
    }

    /// The reports of the workers.
    pub closed spec fn bridge(self) -> HeartbeatBridge {
        self.heartbeat_bridge
    }

    /// The changes that are kept, the oldest first.
    pub closed spec fn history(self) -> Seq<ConfigChange> {
        self.config_history@
    }

    /// A hub without reports and changes.
    pub fn new(gateway_metrics: GatewayMetrics) -> (r: Self)
        ensures
            r.wf(),
            r.counters() == gateway_metrics,
            r.bridge().wf(),
            r.bridge()@ == Map::<Seq<char>, WorkerResources>::empty(),
            r.bridge().threshold() == 30,
            r.history().len() == 0,
    {
        MetricsHub {
            gateway_metrics,
            heartbeat_bridge: HeartbeatBridge::new(),
            config_history: Vec::new(),
        }
    }

    /// What a sandbox used, if it reported within the threshold.
    pub fn get_sandbox_resources(&mut self, sandbox_id: &str, now: Timestamp) -> (r: Option<
        SandboxResources,
    >)
        requires
            old(self).wf(),
        ensures
            final(self).wf(),
            final(self).counters() == old(self).counters(),
            final(self).history() == old(self).history(),
            final(self).bridge()@ == heartbeat_bridge::fresh_part(
                old(self).bridge()@,
                old(self).bridge().threshold(),
                now.secs,
            ),
            match r {
                Some(resources) => {
                    &&& old(self).bridge()@.contains_key(sandbox_id@)
                    &&& resources.usage == old(self).bridge()@[sandbox_id@]
                    &&& resources.last_heartbeat == heartbeat_time(
                        resources.usage.last_heartbeat_epoch,
                        now,
                    )
                    &&& !heartbeat_bridge::is_stale(resources.usage, old(self).bridge().threshold(), now.secs)
                },
                None => !old(self).bridge()@.contains_key(sandbox_id@) || heartbeat_bridge::is_stale(
                    old(self).bridge()@[sandbox_id@],
                    old(self).bridge().threshold(),
                    now.secs,
                ),
            },
            r is Some <==> old(self).bridge()@.contains_key(sandbox_id@) && now.secs - old(
                self,
            ).bridge()@[sandbox_id@].last_heartbeat_epoch <= old(self).bridge().threshold(),
    {
        match self.heartbeat_bridge.get_resources(sandbox_id, now.secs) {
            Some(w) => Some(sandbox_resources(w, now)),
            None => None,
        }
    }

    /// Changes a setting. One that cannot be changed at run time is left alone. A
    /// change is remembered once the database took it: what became of that comes with
    /// the call.
    pub fn set_config(
        &mut self,
        key: &str,
        old_value: Option<String>,
        new_value: String,
        changed_by: &str,
        stored: Result<(), String>,
        now: Timestamp,
    ) -> (r: Result<SetConfigResult, MetricsHubError>)
        requires
            old(self).wf(),
        ensures
            final(self).wf(),
            final(self).counters() == old(self).counters(),
            final(self).bridge() == old(self).bridge(),
            match r {
                Ok(result) => if restricted(key@) {
                    &&& !result.applied
                    &&& !result.requires_restart
                    &&& result.restart_hint matches Some(hint)
                    &&& hint@ == "Key '"@ + key@ + "' cannot be changed at runtime"@
                    &&& final(self).history() == old(self).history()
                } else {
                    &&& stored is Ok
                    &&& result.applied
                    &&& result.requires_restart == needs_restart(key@)
                    &&& match result.restart_hint {
                        Some(hint) => needs_restart(key@) && hint@
                            == "Gateway restart required for this change"@,
                        None => !needs_restart(key@),
                    }
                    &&& final(self).history().len() > 0
                    &&& final(self).history() == remembered(
                        old(self).history(),
                        final(self).history().last(),
                    )
                    &&& is_change(
                        final(self).history().last(),
                        key@,
                        old_value,
                        new_value,
                        changed_by@,
                        now,
                    )
                },
                Err(MetricsHubError::Sqlite(e)) => {
                    &&& !restricted(key@)
                    &&& stored == Err::<(), String>(e)
                    &&& final(self).history() == old(self).history()
                },
                Err(_) => false,
            },
            ({
                let frozen = key@ == "auth.hmac_enabled"@ || key@ == "auth.jwt_enabled"@ || key@
                    == "auth.pre_shared_key_enabled"@ || key@ == "gateway.port"@;
                let before = old(self).history();
                let after = final(self).history();
                &&& r is Ok <==> frozen || stored is Ok
                &&& r is Ok ==> (r->Ok_0.applied <==> !frozen)
                &&& r is Ok ==> (r->Ok_0.requires_restart <==> !frozen && (text::has_prefix(
                    key@,
                    "auth."@,
                ) || text::has_prefix(key@, "gateway.port"@) || text::has_prefix(
                    key@,
                    "gateway.tls"@,
                )))
                &&& frozen || stored is Err ==> after == before
                &&& !frozen && stored is Ok ==> {
                    &&& after.len() <= 1000
                    &&& before.len() < 1000 ==> after.len() == before.len() + 1 && after.take(
                        before.len() as int,
                    ) == before
                    &&& before.len() >= 1000 ==> after.len() == before.len() && after.take(
                        before.len() - 1,
                    ) == before.skip(1)
                    &&& after.last().key@ == key@
                    &&& after.last().old_value == old_value
                    &&& after.last().new_value == new_value
                    &&& after.last().changed_by@ == changed_by@
                    &&& after.last().timestamp == now
                }
            }),
    {
        if is_restricted(key) {
            return Ok(
                SetConfigResult {
                    applied: false,
                    requires_restart: false,
                    restart_hint: Some(concat3("Key '", key, "' cannot be changed at runtime")),
                },
            );
        }
        match stored {
            Ok(_) => {},
            Err(e) => {
                return Err(MetricsHubError::Sqlite(e));
            },
        }
        let requires_restart = starts_with(key, "auth.") || starts_with(key, "gateway.port")
            || starts_with(key, "gateway.tls");
        let change = ConfigChange {
            timestamp: now,
            key: key.to_owned(),
            old_value,
            new_value,
            changed_by: changed_by.to_owned(),
        };
        if self.config_history.len() >= MAX_CONFIG_HISTORY {
            let _ = self.config_history.remove(0);
            assert(self.config_history@ =~= old(self).history().drop_first());
        }
        self.config_history.push(change);
        assert(self.history() =~= remembered(old(self).history(), self.history().last()));
        proof {
            let before = old(self).history();
            let after = self.history();
            if before.len() < 1000 {
                assert(after.take(before.len() as int) =~= before);
            } else {
                assert(after.take(before.len() - 1) =~= before.skip(1));
            }
        }
        let restart_hint: Option<String> = if requires_restart {
            Some("Gateway restart required for this change".to_owned())
        } else {
            None
        };
        Ok(SetConfigResult { applied: true, requires_restart, restart_hint })
    }

    /// The changes that are kept, the oldest first.
    pub fn get_config_history(&self) -> (r: Vec<ConfigChange>)
        ensures
            r@ == self.history(),
    {
        let mut out: Vec<ConfigChange> = Vec::new();
        let mut i: usize = 0;
        while i < self.config_history.len()
            invariant
                i <= self.config_history@.len(),
                out@ == self.config_history@.take(i as int),
            decreases self.config_history@.len() - i,
        {
            out.push(self.config_history[i].clone());
            i = i + 1;
            assert(out@ =~= self.config_history@.take(i as int));
        }
        assert(out@ =~= self.config_history@);
        out
    }

    /// The reports of the workers, to be changed.
    pub fn heartbeat_bridge(&mut self) -> (r: &mut HeartbeatBridge)
        requires
            old(self).wf(),
        ensures
            *r == old(self).bridge(),
            r.wf(),
            final(self).bridge() == *final(r),
            final(r).wf() ==> final(self).wf(),
            final(self).counters() == old(self).counters(),
            final(self).history() == old(self).history(),
    {
        &mut self.heartbeat_bridge
    }

    /// The counters.
    pub fn gateway_metrics(&self) -> (r: &GatewayMetrics)
        ensures
            *r == self.counters(),
    {
        &self.gateway_metrics
    }
}

/// Whether a change is the one of the given setting, values, author and time.
pub open spec fn is_change(
    change: ConfigChange,
    key: Seq<char>,
    old_value: Option<String>,
    new_value: String,
    changed_by: Seq<char>,
    now: Timestamp,
) -> bool {
    &&& change.timestamp == now
    &&& change.key@ == key
    &&& change.old_value == old_value
    &&& change.new_value == new_value
    &&& change.changed_by@ == changed_by
}

/// The time before which metrics are cleaned up: 30 days ago.
pub fn metrics_cutoff(now: Timestamp) -> (r: Timestamp)
    requires
        now.secs - 2_592_000 >= i64::MIN,
    ensures
        r.secs == now.secs - 30 * 24 * 60 * 60,
        r.nanos == now.nanos,
{
    Timestamp { secs: now.secs - 2_592_000, nanos: now.nanos }
}

/// Every kept change but the oldest stays where one is added, in its order, and never
/// more than the limit are kept.
pub proof fn law_history_is_bounded(history: Seq<ConfigChange>, change: ConfigChange)
    requires
        history.len() <= MAX_CONFIG_HISTORY,
    ensures
        remembered(history, change).len() <= MAX_CONFIG_HISTORY,
        remembered(history, change).last() == change,
        history.len() < MAX_CONFIG_HISTORY ==> remembered(history, change).drop_last() == history,
        history.len() == MAX_CONFIG_HISTORY ==> remembered(history, change).drop_last()
            == history.drop_first(),
{
    let r = remembered(history, change);
    if history.len() < MAX_CONFIG_HISTORY {
        assert(r.drop_last() =~= history);
    } else {
        assert(r.drop_last() =~= history.drop_first());
    }
}

} // verus!
