//! Whether the daemon of a provider answers.
use std::sync::Arc;

use vstd::prelude::*;

use crate::catalog::toml_doctor_parser::Severity;
use crate::doctor::checks;
use crate::doctor::checks::{
    report, DeltaItem, DeltaView, InstallSource, Remediation, RemediationView, ReportView,
    RichCheckResult, SourceView, SystemContext,
};
use crate::domain::Timestamp;

use crate::json;
use crate::json::{member, object, text, Json, JsonView};
use crate::text;
use crate::text::{concat2, concat3, str_eq};

verus! {

/// Where the daemon of a provider listens where its configuration does not say.
pub open spec fn default_socket(provider: Seq<char>) -> Seq<char> {
    if provider == "podman"@ {
        "/run/user/1000/podman/podman.sock"@
    } else if provider == "docker"@ {
        "/var/run/docker.sock"@
    } else {
        "/var/run/unknown.sock"@
    }
}

/// Where the daemon of a provider listens where its configuration does not say.
pub fn default_socket_for(provider: &str) -> (r: String)
    ensures
        r@ == default_socket(provider@),
        provider@ == "podman"@ ==> r@ == "/run/user/1000/podman/podman.sock"@,
        provider@ == "docker"@ ==> r@ == "/var/run/docker.sock"@,
        provider@ != "podman"@ && provider@ != "docker"@ ==> r@ == "/var/run/unknown.sock"@,
{
    proof {
        checks::lemma_provider_names();
    }
    if str_eq(provider, "podman") {
        "/run/user/1000/podman/podman.sock".to_owned()
    } else if str_eq(provider, "docker") {
        "/var/run/docker.sock".to_owned()
    } else {
        "/var/run/unknown.sock".to_owned()
    }
}

/// Where the daemon of a provider listens.
pub open spec fn socket_of(provider: Seq<char>, configured: Option<String>) -> Seq<char> {
    match configured {
        Some(s) => s@,
        None => default_socket(provider),
    }
}

/// Where the daemon of a provider listens.
pub fn socket_path(provider: &str, configured: Option<String>) -> (r: String)
    ensures
        r@ == socket_of(provider@, configured),
        configured matches Some(s) ==> r@ == s@,
        configured is None && provider@ == "podman"@ ==> r@ == "/run/user/1000/podman/podman.sock"@,
        configured is None && provider@ == "docker"@ ==> r@ == "/var/run/docker.sock"@,
{
    match configured {
        Some(s) => s,
        None => default_socket_for(provider),
    }
}

/// How the daemon of a provider answered.
pub open spec fn ping(
    provider: Seq<char>,
    socket: Seq<char>,
    exists: bool,
    connected: Result<(), String>,
) -> Result<Seq<char>, Seq<char>> {
    if provider != "podman"@ && provider != "docker"@ {
        Err("Unknown provider: "@ + provider)
    } else if !exists {
        Err("Socket not found at "@ + socket)
    } else {
        match connected {
            Ok(_) => Ok(provider + " daemon is responsive"@),
            Err(e) => Err(
                if provider == "podman"@ {
                    "Failed to connect to socket: "@ + e@
                } else {
                    "Failed to connect to docker socket: "@ + e@
                },
            ),
        }
    }
}

/// How the daemon of a provider answered, from whether its socket exists and could be
/// connected to.
pub fn ping_daemon(
    provider: &str,
    socket: &str,
    exists: bool,
    connected: Result<(), String>,
) -> (r: Result<String, String>)
    ensures
        match r {
            Ok(m) => ping(provider@, socket@, exists, connected) == Ok::<Seq<char>, Seq<char>>(m@),
            Err(e) => ping(provider@, socket@, exists, connected) == Err::<Seq<char>, Seq<char>>(
                e@,
            ),
        },
        ({
            let known = provider@ == "podman"@ || provider@ == "docker"@;
            &&& r is Ok <==> known && exists && connected is Ok
            &&& r is Ok ==> r->Ok_0@ == provider@ + " daemon is responsive"@
            &&& !known ==> r->Err_0@ == "Unknown provider: "@ + provider@
            &&& known && !exists ==> r->Err_0@ == "Socket not found at "@ + socket@
            &&& provider@ == "podman"@ && exists && connected is Err ==> r->Err_0@
                == "Failed to connect to socket: "@ + connected->Err_0@
            &&& provider@ == "docker"@ && exists && connected is Err ==> r->Err_0@
                == "Failed to connect to docker socket: "@ + connected->Err_0@
        }),
{
    proof {
        checks::lemma_provider_names();
    }
    let podman = str_eq(provider, "podman");
    if !podman && !str_eq(provider, "docker") {
        return Err(concat2("Unknown provider: ", provider));
    }
    if !exists {
        return Err(concat2("Socket not found at ", socket));
    }
    match connected {
        Ok(_) => Ok(concat2(provider, " daemon is responsive")),
        Err(e) => if podman {
            Err(concat2("Failed to connect to socket: ", e.as_str()))
        } else {
            Err(concat2("Failed to connect to docker socket: ", e.as_str()))
        },
    }
}

/// An answer as a document.
pub open spec fn answer_view(answer: Result<Seq<char>, Seq<char>>) -> JsonView {
    match answer {
        Ok(m) => JsonView::Object(seq![("Ok"@, JsonView::Text(m))]),
        Err(e) => JsonView::Object(seq![("Err"@, JsonView::Text(e))]),
    }
}

/// What was found.
pub open spec fn current_view(
    provider: Seq<char>,
    socket: Seq<char>,
    answer: Result<Seq<char>, Seq<char>>,
) -> JsonView {
    JsonView::Object(
        seq![
            ("provider"@, JsonView::Text(provider)),
            ("socket_path"@, JsonView::Text(socket)),
            ("ping_result"@, answer_view(answer)),
        ],
    )
}

/// What should be found.
pub open spec fn expected_view(provider: Seq<char>) -> JsonView {
    JsonView::Object(
        seq![
            ("provider"@, JsonView::Text(provider)),
            ("daemon_required"@, JsonView::Bool(true)),
            ("ping_timeout_ms"@, JsonView::Number(5000)),
        ],
    )
}

/// What is wrong: the daemon does not answer.
pub open spec fn delta_of(provider: Seq<char>, answer: Result<Seq<char>, Seq<char>>) -> Seq<
    DeltaView,
> {
    match answer {
        Ok(_) => seq![],
        Err(e) => seq![
            DeltaView {
                item: provider + " daemon"@,
                expected: "daemon responding to ping"@,
                actual: Some(e),
                severity: Severity::Critical,
            },
        ],
    }
}

/// What is to be done: start the daemon.
pub open spec fn remedy_of(provider: Seq<char>, answer: Result<Seq<char>, Seq<char>>) -> Option<
    RemediationView,
> {
    match answer {
        Ok(_) => None,
        Err(_) => Some(
            RemediationView {
                confidence: "high"@,
                auto_fixable: true,
                commands: seq![
                    "systemctl --user start "@ + provider + "socket"@,
                    "systemctl --user enable "@ + provider + "socket"@,
                    "# Or for system-wide:"@,
                    "sudo systemctl start "@ + provider + "socket"@,
                    "sudo systemctl enable "@ + provider + "socket"@,
                ],
                manual_steps: seq![],
                verify_after: provider + " version"@,
                install_sources: seq![
                    SourceView {
                        name: provider,
                        url: "https://"@ + provider + ".io/docs/installation"@,
                        method: "package_manager"@,
                    },
                ],
            },
        ),
    }
}

/// Checks that the daemon of a provider answers. Where it listens and how it answered
/// come with the call.
pub fn evaluate(
    provider_name: &str,
    socket: &str,
    answer: Result<String, String>,
    context: Arc<SystemContext>,
    now: Timestamp,
) -> (r: RichCheckResult)
    ensures
        r.wf(),
        r.system_context == context,
        r.executed_at == now,
        ({
            let a = answer_of(answer);
            r@ == (ReportView {
                check_id: "provider_alive."@ + provider_name@,
                check_type: "provider_alive"@,
                current_state: current_view(provider_name@, socket@, a),
                expected_state: expected_view(provider_name@),
                delta: delta_of(provider_name@, a),
                remediation: remedy_of(provider_name@, a),
            })
        }),
        r.check_id@ == "provider_alive."@ + provider_name@,
        r.status is Pass <==> answer is Ok,
        r.current_state@->Object_0[0] == ("provider"@, JsonView::Text(provider_name@)),
        r.current_state@->Object_0[1] == ("socket_path"@, JsonView::Text(socket@)),
        answer matches Ok(m) ==> r.current_state@->Object_0[2] == (
            "ping_result"@,
            JsonView::Object(seq![("Ok"@, JsonView::Text(m@))]),
        ),
        answer matches Err(e) ==> r.current_state@->Object_0[2] == (
            "ping_result"@,
            JsonView::Object(seq![("Err"@, JsonView::Text(e@))]),
        ),
        r.expected_state@->Object_0 == seq![
            ("provider"@, JsonView::Text(provider_name@)),
            ("daemon_required"@, JsonView::Bool(true)),
            ("ping_timeout_ms"@, JsonView::Number(5000)),
        ],
        answer is Err ==> {
            let m = r.remediation->0@;
            &&& r.delta@[0].expected@ == "daemon responding to ping"@
            &&& m.confidence == "high"@
            &&& m.commands == seq![
                "systemctl --user start "@ + provider_name@ + "socket"@,
                "systemctl --user enable "@ + provider_name@ + "socket"@,
                "# Or for system-wide:"@,
                "sudo systemctl start "@ + provider_name@ + "socket"@,
                "sudo systemctl enable "@ + provider_name@ + "socket"@,
            ]
            &&& m.manual_steps.len() == 0
            &&& m.install_sources == seq![
                SourceView {
                    name: provider_name@,
                    url: "https://"@ + provider_name@ + ".io/docs/installation"@,
                    method: "package_manager"@,
                },
            ]
        },
        answer matches Err(e) ==> {
            &&& r.delta@.len() == 1
            &&& r.delta@[0].item@ == provider_name@ + " daemon"@
            &&& r.delta@[0].actual is Some && r.delta@[0].actual->0@ == e@
            &&& r.delta@[0].severity is Critical
            &&& r.remediation->0.auto_fixable
            &&& r.remediation->0.verify_after@ == provider_name@ + " version"@
        },
{
    let ghost a = answer_of(answer);
    let inner = match &answer {
        Ok(m) => vec![member("Ok", text(m.as_str()))],
        Err(e) => vec![member("Err", text(e.as_str()))],
    };
    assert(json::member_views(inner@) =~= answer_view(a)->Object_0);
    let members = vec![
        member("provider", text(provider_name)),
        member("socket_path", text(socket)),
        member("ping_result", object(inner)),
    ];
    assert(json::member_views(members@) =~= current_view(provider_name@, socket@, a)->Object_0);
    let current_state = object(members);
    let members = vec![
        member("provider", text(provider_name)),
        member("daemon_required", Json::Bool(true)),
        member("ping_timeout_ms", Json::Number(5000)),
    ];
    assert(json::member_views(members@) =~= expected_view(provider_name@)->Object_0);
    let expected_state = object(members);
    let mut delta: Vec<DeltaItem> = Vec::new();
    let mut remediation: Option<Remediation> = None;
    match answer {
        Ok(_) => {},
        Err(e) => {
            delta.push(
                DeltaItem {
                    item: concat2(provider_name, " daemon"),
                    expected: "daemon responding to ping".to_owned(),
                    actual: Some(e),
                    severity: Severity::Critical,
                },
            );
            let remedy = Remediation {
                confidence: "high".to_owned(),
                auto_fixable: true,
                commands: vec![
                    concat3("systemctl --user start ", provider_name, "socket"),
                    concat3("systemctl --user enable ", provider_name, "socket"),
                    "# Or for system-wide:".to_owned(),
                    concat3("sudo systemctl start ", provider_name, "socket"),
                    concat3("sudo systemctl enable ", provider_name, "socket"),
                ],
                manual_steps: Vec::new(),
                verify_after: concat2(provider_name, " version"),
                install_sources: vec![
                    InstallSource {
                        name: provider_name.to_owned(),
                        url: concat3("https://", provider_name, ".io/docs/installation"),
                        method: "package_manager".to_owned(),
                    },
                ],
            };
            proof {
                let v = remedy_of(provider_name@, a)->0;
                assert(text::texts(remedy.commands@) =~= v.commands);
                assert(text::texts(remedy.manual_steps@) =~= v.manual_steps);
                assert(checks::source_views(remedy.install_sources@) =~= v.install_sources);
            }
            remediation = Some(remedy);
        },
    }
    assert(checks::delta_views(delta@) =~= delta_of(provider_name@, a));
    report(
        concat2("provider_alive.", provider_name),
        "provider_alive",
        current_state,
        expected_state,
        delta,
        remediation,
        context,
        now,
    )
}

/// An answer with its texts as characters.
pub open spec fn answer_of(answer: Result<String, String>) -> Result<Seq<char>, Seq<char>> {
    match answer {
        Ok(m) => Ok(m@),
        Err(e) => Err(e@),
    }
}

} // verus!
