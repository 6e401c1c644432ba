//! Counters of the gateway.
use vstd::prelude::*;

use crate::text;
use crate::text::decimal_string;

verus! {

/// What the gateway counts. The counters wrap around.
#[derive(Debug)]
pub struct GatewayMetrics {
    sandboxes_created: u64,
    sandboxes_terminated: u64,
    commands_executed: u64,
    total_command_time_us: u64,
    errors_total: u64,
    sandboxes_active: u64,
}

/// The state of the counters.
pub struct Counters {
    pub created: u64,
    pub terminated: u64,
    pub commands: u64,
    pub time_us: u64,
    pub errors: u64,
    pub active: u64,
}

/// The sum of two counters, wrapped around.
pub open spec fn wrapped_sum(a: u64, b: u64) -> u64 {
    if a + b > u64::MAX {
        (a + b - 0x1_0000_0000_0000_0000) as u64
    } else {
        (a + b) as u64
    }
}

/// A counter less one, wrapped around.
pub open spec fn wrapped_pred(a: u64) -> u64 {
    if a == 0 {
        u64::MAX
    } else {
        (a - 1) as u64
    }
}

impl Counters {
    /// The average time of a command, rounded down; 0 where none ran.
    pub open spec fn average(self) -> nat {
        if self.commands == 0 {
            0
        } else {
            (self.time_us / self.commands) as nat
        }
    }

    /// The active sandboxes are those that were created and not terminated, up to
    /// wrapping.
    pub open spec fn balanced(self) -> bool {
        wrapped_sum(self.active, self.terminated) == self.created
    }

    /// The counters in the text format of Prometheus.
    pub open spec fn export(self) -> Seq<char> {
        metric(
            "bastion_sandboxes_created_total"@,
            "Total sandboxes created"@,
            "counter"@,
            self.created as nat,
        ) + metric(
            "bastion_sandboxes_terminated_total"@,
            "Total sandboxes terminated"@,
            "counter"@,
            self.terminated as nat,
        ) + metric(
            "bastion_commands_executed_total"@,
            "Total commands executed"@,
            "counter"@,
            self.commands as nat,
        ) + metric("bastion_errors_total"@, "Total errors"@, "counter"@, self.errors as nat)
            + metric(
            "bastion_sandboxes_active"@,
            "Current active sandboxes"@,
            "gauge"@,
            self.active as nat,
        ) + metric(
            "bastion_command_latency_us_avg"@,
            "Average command latency in microseconds"@,
            "gauge"@,
            self.average(),
        )
    }
}

/// A metric in the text format of Prometheus: what it is, of which type, and its value.
pub open spec fn metric(name: Seq<char>, help: Seq<char>, kind: Seq<char>, value: nat) -> Seq<
    char,
> {
    "# HELP "@ + name + " "@ + help + "\n# TYPE "@ + name + " "@ + kind + "\n"@ + name + " "@
        + text::decimal(value) + "\n"@
}

fn push_metric(out: &mut String, name: &str, help: &str, kind: &str, value: u64)
    ensures
        final(out)@ == old(out)@ + metric(name@, help@, kind@, value as nat),
        final(out)@ == old(out)@ + ("# HELP "@ + name@ + " "@ + help@ + "\n# TYPE "@ + name@ + " "@
            + kind@ + "\n"@ + name@ + " "@ + text::decimal(value as nat) + "\n"@),
{
    out.append("# HELP ");
    out.append(name);
    out.append(" ");
    out.append(help);
    out.append("\n# TYPE ");
    out.append(name);
    out.append(" ");
    out.append(kind);
    out.append("\n");
    out.append(name);
    out.append(" ");
    let value_text = decimal_string(value);
    out.append(value_text.as_str());
    out.append("\n");
    assert(out@ =~= old(out)@ + metric(name@, help@, kind@, value as nat));
}

/// Whether a text holds a line with the value of a metric behind its name.
pub open spec fn shows_value(export: Seq<char>, name: Seq<char>, value: nat) -> bool {
    text::contains_text(export, "\n"@ + name + " "@ + text::decimal(value) + "\n"@)
}

proof fn lemma_metric_shows_value(
    before: Seq<char>,
    name: Seq<char>,
    help: Seq<char>,
    kind: Seq<char>,
    value: nat,
    after: Seq<char>,
)
    ensures
        shows_value(before + metric(name, help, kind, value) + after, name, value),
{
    let line = "\n"@ + name + " "@ + text::decimal(value) + "\n"@;
    let head = "# HELP "@ + name + " "@ + help + "\n# TYPE "@ + name + " "@ + kind;
    assert(metric(name, help, kind, value) =~= head + line);
    assert(before + metric(name, help, kind, value) + after =~= (before + head) + line + after);
    text::law_contained_text_has_a_place(line, line, before + head, after);
}

/// What the gateway takes note of.
pub enum GatewayEvent {
    Created,
    Terminated,
    /// A command that took so many microseconds.
    Command(u64),
    Error,
}

impl Counters {
    /// The counters after an event.
    pub open spec fn after(self, event: GatewayEvent) -> Counters {
        match event {
            GatewayEvent::Created => Counters {
                created: wrapped_sum(self.created, 1),
                active: wrapped_sum(self.active, 1),
                ..self
            },
            GatewayEvent::Terminated => Counters {
                terminated: wrapped_sum(self.terminated, 1),
                active: wrapped_pred(self.active),
                ..self
            },
            GatewayEvent::Command(us) => Counters {
                commands: wrapped_sum(self.commands, 1),
                time_us: wrapped_sum(self.time_us, us),
                ..self
            },
            GatewayEvent::Error => Counters { errors: wrapped_sum(self.errors, 1), ..self },
        }
    }
}

/// The counters before anything happened.
pub open spec fn no_counts() -> Counters {
    Counters { created: 0, terminated: 0, commands: 0, time_us: 0, errors: 0, active: 0 }
}

impl Default for GatewayMetrics {
    /// All counters at 0.
    fn default() -> (r: Self)
        ensures
            r@ == no_counts(),
            r@.balanced(),
    {
        GatewayMetrics {
            sandboxes_created: 0,
            sandboxes_terminated: 0,
            commands_executed: 0,
            total_command_time_us: 0,
            errors_total: 0,
            sandboxes_active: 0,
        }
    }
}

impl GatewayMetrics {
    /// The state of the counters.
    pub closed spec fn view(self) -> Counters {
        Counters {
            created: self.sandboxes_created,
            terminated: self.sandboxes_terminated,
            commands: self.commands_executed,
            time_us: self.total_command_time_us,
            errors: self.errors_total,
            active: self.sandboxes_active,
        }
    }

    /// Counts a sandbox that was created.
    pub fn record_sandbox_created(&mut self)
        ensures
            final(self)@ == old(self)@.after(GatewayEvent::Created),
            old(self)@.created < u64::MAX ==> final(self)@.created == old(self)@.created + 1,
            old(self)@.active < u64::MAX ==> final(self)@.active == old(self)@.active + 1,
            final(self)@.terminated == old(self)@.terminated,
            final(self)@.commands == old(self)@.commands,
            final(self)@.time_us == old(self)@.time_us,
            final(self)@.errors == old(self)@.errors,
            old(self)@.balanced() ==> final(self)@.balanced(),
    {
        self.sandboxes_created = self.sandboxes_created.wrapping_add(1);
        self.sandboxes_active = self.sandboxes_active.wrapping_add(1);
    }

    /// Counts a sandbox that was terminated.
    pub fn record_sandbox_terminated(&mut self)
        ensures
            final(self)@ == old(self)@.after(GatewayEvent::Terminated),
            old(self)@.terminated < u64::MAX ==> final(self)@.terminated == old(self)@.terminated
                + 1,
            old(self)@.active > 0 ==> final(self)@.active == old(self)@.active - 1,
            final(self)@.created == old(self)@.created,
            final(self)@.commands == old(self)@.commands,
            final(self)@.time_us == old(self)@.time_us,
            final(self)@.errors == old(self)@.errors,
            old(self)@.balanced() ==> final(self)@.balanced(),
    {
        self.sandboxes_terminated = self.sandboxes_terminated.wrapping_add(1);
        self.sandboxes_active = self.sandboxes_active.wrapping_sub(1);
    }

    /// Counts a command and the time that it took.
    pub fn record_command(&mut self, duration_us: u64)
        ensures
            final(self)@ == old(self)@.after(GatewayEvent::Command(duration_us)),
            old(self)@.commands < u64::MAX ==> final(self)@.commands == old(self)@.commands + 1,
            old(self)@.time_us + duration_us <= u64::MAX ==> final(self)@.time_us == old(
                self,
            )@.time_us + duration_us,
            final(self)@.created == old(self)@.created,
            final(self)@.terminated == old(self)@.terminated,
            final(self)@.active == old(self)@.active,
            final(self)@.errors == old(self)@.errors,
    {
        self.commands_executed = self.commands_executed.wrapping_add(1);
        self.total_command_time_us = self.total_command_time_us.wrapping_add(duration_us);
    }

    /// Counts an error.
    pub fn record_error(&mut self)
        ensures
            final(self)@ == old(self)@.after(GatewayEvent::Error),
            old(self)@.errors < u64::MAX ==> final(self)@.errors == old(self)@.errors + 1,
            final(self)@.created == old(self)@.created,
            final(self)@.terminated == old(self)@.terminated,
            final(self)@.active == old(self)@.active,
            final(self)@.commands == old(self)@.commands,
            final(self)@.time_us == old(self)@.time_us,
    {
        self.errors_total = self.errors_total.wrapping_add(1);
    }

    /// The average time of a command in microseconds.
    pub fn avg_command_latency_us(&self) -> (r: u64)
        ensures
            r == self@.average(),
            self@.commands == 0 ==> r == 0,
            self@.commands > 0 ==> r == self@.time_us / self@.commands,
    {
        if self.commands_executed == 0 {
            return 0;
        }
        self.total_command_time_us / self.commands_executed
    }

    /// The sandboxes that were created.
    pub fn sandboxes_created(&self) -> (r: u64)
        ensures
            r == self@.created,
    {
        self.sandboxes_created
    }

    /// The sandboxes that were terminated.
    pub fn sandboxes_terminated(&self) -> (r: u64)
        ensures
            r == self@.terminated,
    {
        self.sandboxes_terminated
    }

    /// The commands that ran.
    pub fn commands_executed(&self) -> (r: u64)
        ensures
            r == self@.commands,
    {
        self.commands_executed
    }

    /// The time that the commands took.
    pub fn total_command_time_us(&self) -> (r: u64)
        ensures
            r == self@.time_us,
    {
        self.total_command_time_us
    }

    /// The errors that came up.
    pub fn errors_total(&self) -> (r: u64)
        ensures
            r == self@.errors,
    {
        self.errors_total
    }

    /// The sandboxes that are active.
    pub fn active_sandboxes(&self) -> (r: u64)
        ensures
            r == self@.active,
    {
        self.sandboxes_active
    }

    /// The counters in the text format of Prometheus.
    pub fn prometheus_export(&self) -> (r: String)
        ensures
            r@ == self@.export(),
            r@ == metric(
                "bastion_sandboxes_created_total"@,
                "Total sandboxes created"@,
                "counter"@,
                self@.created as nat,
            ) + metric(
                "bastion_sandboxes_terminated_total"@,
                "Total sandboxes terminated"@,
                "counter"@,
                self@.terminated as nat,
            ) + metric(
                "bastion_commands_executed_total"@,
                "Total commands executed"@,
                "counter"@,
                self@.commands as nat,
            ) + metric(
                "bastion_errors_total"@,
                "Total errors"@,
                "counter"@,
                self@.errors as nat,
            ) + metric(
                "bastion_sandboxes_active"@,
                "Current active sandboxes"@,
                "gauge"@,
                self@.active as nat,
            ) + metric(
                "bastion_command_latency_us_avg"@,
                "Average command latency in microseconds"@,
                "gauge"@,
                self@.average(),
            ),
            shows_value(r@, "bastion_sandboxes_created_total"@, self@.created as nat),
            shows_value(r@, "bastion_sandboxes_terminated_total"@, self@.terminated as nat),
            shows_value(r@, "bastion_commands_executed_total"@, self@.commands as nat),
            shows_value(r@, "bastion_errors_total"@, self@.errors as nat),
            shows_value(r@, "bastion_sandboxes_active"@, self@.active as nat),
            self@.commands > 0 ==> shows_value(
                r@,
                "bastion_command_latency_us_avg"@,
                (self@.time_us / self@.commands) as nat,
            ),
            self@.commands == 0 ==> shows_value(r@, "bastion_command_latency_us_avg"@, 0),
    {
        let mut out = String::new();
        push_metric(
            &mut out,
            "bastion_sandboxes_created_total",
            "Total sandboxes created",
            "counter",
            self.sandboxes_created,
        );
        push_metric(
            &mut out,
            "bastion_sandboxes_terminated_total",
            "Total sandboxes terminated",
            "counter",
            self.sandboxes_terminated,
        );
        push_metric(
            &mut out,
            "bastion_commands_executed_total",
            "Total commands executed",
            "counter",
            self.commands_executed,
        );
        push_metric(&mut out, "bastion_errors_total", "Total errors", "counter", self.errors_total);
        push_metric(
            &mut out,
            "bastion_sandboxes_active",
            "Current active sandboxes",
            "gauge",
            self.sandboxes_active,
        );
        push_metric(
            &mut out,
            "bastion_command_latency_us_avg",
            "Average command latency in microseconds",
            "gauge",
            self.avg_command_latency_us(),
        );
        assert(out@ =~= self@.export());
        proof {
            let none = Seq::<char>::empty();
            let c = self@;
            let m1 = metric(
                "bastion_sandboxes_created_total"@,
                "Total sandboxes created"@,
                "counter"@,
                c.created as nat,
            );
            let m2 = metric(
                "bastion_sandboxes_terminated_total"@,
                "Total sandboxes terminated"@,
                "counter"@,
                c.terminated as nat,
            );
            let m3 = metric(
                "bastion_commands_executed_total"@,
                "Total commands executed"@,
                "counter"@,
                c.commands as nat,
            );
            let m4 = metric("bastion_errors_total"@, "Total errors"@, "counter"@, c.errors as nat);
            let m5 = metric(
                "bastion_sandboxes_active"@,
                "Current active sandboxes"@,
                "gauge"@,
                c.active as nat,
            );
            let m6 = metric(
                "bastion_command_latency_us_avg"@,
                "Average command latency in microseconds"@,
                "gauge"@,
                c.average(),
            );
            assert(out@ =~= none + m1 + (m2 + m3 + m4 + m5 + m6));
            assert(out@ =~= m1 + m2 + (m3 + m4 + m5 + m6));
            assert(out@ =~= m1 + m2 + m3 + (m4 + m5 + m6));
            assert(out@ =~= m1 + m2 + m3 + m4 + (m5 + m6));
            assert(out@ =~= m1 + m2 + m3 + m4 + m5 + m6);
            assert(out@ =~= m1 + m2 + m3 + m4 + m5 + m6 + none);
            lemma_metric_shows_value(
                none,
                "bastion_sandboxes_created_total"@,
                "Total sandboxes created"@,
                "counter"@,
                c.created as nat,
                m2 + m3 + m4 + m5 + m6,
            );
            lemma_metric_shows_value(
                m1,
                "bastion_sandboxes_terminated_total"@,
                "Total sandboxes terminated"@,
                "counter"@,
                c.terminated as nat,
                m3 + m4 + m5 + m6,
            );
            lemma_metric_shows_value(
                m1 + m2,
                "bastion_commands_executed_total"@,
                "Total commands executed"@,
                "counter"@,
                c.commands as nat,
                m4 + m5 + m6,
            );
            lemma_metric_shows_value(
                m1 + m2 + m3,
                "bastion_errors_total"@,
                "Total errors"@,
                "counter"@,
                c.errors as nat,
                m5 + m6,
            );
            lemma_metric_shows_value(
                m1 + m2 + m3 + m4,
                "bastion_sandboxes_active"@,
                "Current active sandboxes"@,
                "gauge"@,
                c.active as nat,
                m6,
            );
            lemma_metric_shows_value(
                m1 + m2 + m3 + m4 + m5,
                "bastion_command_latency_us_avg"@,
                "Average command latency in microseconds"@,
                "gauge"@,
                c.average(),
                none,
            );
        }
        out
    }
}

/// The counters after events, one after the other.
pub open spec fn counters_over(events: Seq<GatewayEvent>) -> Counters
    decreases events.len(),
{
    if events.len() == 0 {
        no_counts()
    } else {
        counters_over(events.drop_last()).after(events.last())
    }
}

/// How many sandboxes were created in the events.
pub open spec fn created_in(events: Seq<GatewayEvent>) -> nat
    decreases events.len(),
{
    if events.len() == 0 {
        0
    } else {
        created_in(events.drop_last()) + (if events.last() is Created {
            1nat
        } else {
            0
        })
    }
}

/// How many sandboxes were terminated in the events.
pub open spec fn terminated_in(events: Seq<GatewayEvent>) -> nat
    decreases events.len(),
{
    if events.len() == 0 {
        0
    } else {
        terminated_in(events.drop_last()) + (if events.last() is Terminated {
            1nat
        } else {
            0
        })
    }
}

/// A number modulo the size of a counter.
pub open spec fn wrapped(n: int) -> u64 {
    (n % 0x1_0000_0000_0000_0000) as u64
}

/// In whatever order events come, the counters are balanced, and they hold how many sandboxes
/// were created and terminated, and the difference, up to wrapping.
pub proof fn law_counters_hold_the_events(events: Seq<GatewayEvent>)
    ensures
        counters_over(events).balanced(),
        counters_over(events).created == wrapped(created_in(events) as int),
        counters_over(events).terminated == wrapped(terminated_in(events) as int),
        counters_over(events).active == wrapped(created_in(events) - terminated_in(events)),
    decreases events.len(),
{
    if events.len() > 0 {
        law_counters_hold_the_events(events.drop_last());
    }
}

/// In every state that events lead to, the active sandboxes are those that were created less
/// those that were terminated, where no more were terminated than created.
pub proof fn law_active_is_the_difference(events: Seq<GatewayEvent>)
    requires
        terminated_in(events) <= created_in(events) <= u64::MAX,
    ensures
        counters_over(events).active == created_in(events) - terminated_in(events),
{
    law_counters_hold_the_events(events);
}

/// The created and the terminated sandboxes are counted event by event.
pub proof fn law_events_are_counted(events: Seq<GatewayEvent>)
    ensures
        created_in(events) == events.filter(|e: GatewayEvent| e is Created).len(),
        terminated_in(events) == events.filter(|e: GatewayEvent| e is Terminated).len(),
    decreases events.len(),
{
    reveal(Seq::filter);
    if events.len() > 0 {
        law_events_are_counted(events.drop_last());
    }
}

/// The commands and the errors that the counters hold are those of the events, up to wrapping.
pub proof fn law_counters_hold_commands_and_errors(events: Seq<GatewayEvent>)
    ensures
        counters_over(events).commands == wrapped(
            events.filter(|e: GatewayEvent| e is Command).len() as int,
        ),
        counters_over(events).errors == wrapped(
            events.filter(|e: GatewayEvent| e is Error).len() as int,
        ),
    decreases events.len(),
{
    reveal(Seq::filter);
    if events.len() > 0 {
        law_counters_hold_commands_and_errors(events.drop_last());
    }
}

} // verus!
