//! Whether the worker binary of a provider can be used.
use std::sync::Arc;

use vstd::prelude::*;

use crate::catalog::toml_doctor_parser::Severity;
use crate::doctor::checks;
use crate::doctor::checks::{
    report, DeltaItem, DeltaView, InstallSource, Remediation, RemediationView, ReportView,
    RichCheckResult, SourceView, SystemContext,
};
use crate::domain::Timestamp;

use crate::domain::Pair;
use crate::json;
use crate::json::{member, object, optional_text, text, Json, JsonView, Member};
use crate::text;
use crate::text::{concat2, concat3, concat4, trim};

verus! {

/// Where the worker binary of a provider lies where its configuration does not say.
pub fn default_worker_binary_for(provider: &str) -> (r: Option<String>)
    ensures
        r matches Some(p) && p@ == "/usr/local/bin/bastion-worker-"@ + provider@,
{
    Some(concat2("/usr/local/bin/bastion-worker-", provider))
}

/// What a program printed when it ran.
#[derive(Debug)]
pub struct ProgramOutput {
    pub success: bool,
    pub stdout: String,
    pub stderr: String,
}

/// Whether the mode of a file lets anybody execute it.
pub fn is_executable(mode: u32) -> (r: bool)
    ensures
        r == (mode & 0o111 != 0),
{
    mode & 0o111 != 0
}

/// What is known of a file: whether it exists, whether it may be executed, and what
/// became of asking it for its version.
#[derive(Debug)]
pub struct FileFacts {
    pub exists: bool,
    pub executable: bool,
    pub run: Result<ProgramOutput, String>,
}

/// What was found out about a worker binary.
#[derive(Debug)]
pub struct Validation {
    pub is_valid: bool,
    pub details: Vec<Pair>,
}

/// The details of a validation as names and texts.
pub open spec fn detail_views(v: Seq<Pair>) -> Seq<(Seq<char>, Seq<char>)> {
    v.map_values(|p: Pair| (p.key@, p.value@))
}

/// What is found out about a worker binary, and whether it can be used: it exists, may
/// be executed and could be run. It need not know how to tell its version.
pub open spec fn validation_of(path: Option<Seq<char>>, facts: FileFacts) -> (
    bool,
    Seq<(Seq<char>, Seq<char>)>,
) {
    match path {
        None => (false, seq![("error"@, "No worker binary path configured"@)]),
        Some(p) => if !facts.exists {
            (
                false,
                seq![("error"@, "File not found at "@ + p), ("exists"@, "false"@)],
            )
        } else if !facts.executable {
            (
                false,
                seq![
                    ("exists"@, "true"@),
                    ("error"@, "File at "@ + p + " is not executable"@),
                    ("executable"@, "false"@),
                ],
            )
        } else {
            let start = seq![("exists"@, "true"@), ("executable"@, "true"@)];
            match facts.run {
                Ok(out) => {
                    let stdout = text::trimmed(out.stdout@);
                    let stderr = text::trimmed(out.stderr@);
                    if out.success {
                        (true, start.push(("version"@, stdout)).push(("valid"@, "true"@)))
                    } else if stdout.len() > 0 || stderr.len() > 0 {
                        (
                            true,
                            start.push(
                                (
                                    "output"@,
                                    "stdout: "@ + stdout + ", stderr: "@ + stderr,
                                ),
                            ).push(("valid"@, "true (no version flag)"@)),
                        )
                    } else {
                        (true, start.push(("valid"@, "true (no version flag)"@)))
                    }
                },
                Err(e) => (
                    false,
                    start.push(("error"@, "Failed to execute: "@ + e@)).push(
                        ("valid"@, "false"@),
                    ),
                ),
            }
        },
    }
}

fn detail(key: &str, value: String) -> (r: Pair)
    ensures
        r.key@ == key@,
        r.value == value,
{
    Pair { key: key.to_owned(), value }
}

/// What is found out about a worker binary, and whether it can be used.
pub fn validate_worker_binary(path: &Option<String>, facts: &FileFacts) -> (r: Validation)
    ensures
        (r.is_valid, detail_views(r.details@)) == validation_of(checks::optional(*path), *facts),
        r.is_valid <==> path is Some && facts.exists && facts.executable && facts.run is Ok,
        path is None ==> r.details@.len() == 1 && r.details@[0].key@ == "error"@
            && r.details@[0].value@ == "No worker binary path configured"@,
        path is Some && !facts.exists ==> r.details@[0].key@ == "error"@ && r.details@[0].value@
            == "File not found at "@ + path->0@,
        path is Some && facts.exists && !facts.executable ==> r.details@[1].key@ == "error"@
            && r.details@[1].value@ == "File at "@ + path->0@ + " is not executable"@,
        path is Some && facts.exists && facts.executable && facts.run is Err ==> r.details@[2].key@
            == "error"@ && r.details@[2].value@ == "Failed to execute: "@ + facts.run->Err_0@,
        ({
            let d = detail_views(r.details@);
            let runs = path is Some && facts.exists && facts.executable;
            let stdout = text::trimmed(facts.run->Ok_0.stdout@);
            let stderr = text::trimmed(facts.run->Ok_0.stderr@);
            let silent = stdout.len() == 0 && stderr.len() == 0;
            &&& path is Some && !facts.exists ==> d.len() == 2 && d[1] == ("exists"@, "false"@)
            &&& path is Some && facts.exists ==> d[0] == ("exists"@, "true"@)
            &&& path is Some && facts.exists && !facts.executable ==> d.len() == 3 && d[2] == (
                "executable"@,
                "false"@,
            )
            &&& runs ==> d[1] == ("executable"@, "true"@)
            &&& runs && facts.run is Err ==> d.len() == 4 && d[3] == ("valid"@, "false"@)
            &&& r.is_valid && facts.run->Ok_0.success ==> d.len() == 4 && d[3] == (
                "valid"@,
                "true"@,
            )
            &&& r.is_valid && !facts.run->Ok_0.success && !silent ==> d.len() == 4 && d[2] == (
                "output"@,
                "stdout: "@ + stdout + ", stderr: "@ + stderr,
            )
            &&& r.is_valid && !facts.run->Ok_0.success ==> d.last() == (
                "valid"@,
                "true (no version flag)"@,
            )
            &&& r.is_valid && !facts.run->Ok_0.success && silent ==> d.len() == 3
        }),
        r.is_valid && facts.run->Ok_0.success ==> r.details@[2].key@ == "version"@
            && r.details@[2].value@ == text::trimmed(facts.run->Ok_0.stdout@),
{
    let ghost goal = validation_of(checks::optional(*path), *facts);
    let path = match path {
        Some(p) => p,
        None => {
            let details = vec![
                detail("error", "No worker binary path configured".to_owned()),
            ];
            assert(detail_views(details@) =~= goal.1);
            return Validation { is_valid: false, details };
        },
    };
    if !facts.exists {
        let details = vec![
            detail("error", concat2("File not found at ", path.as_str())),
            detail("exists", "false".to_owned()),
        ];
        assert(detail_views(details@) =~= goal.1);
        return Validation { is_valid: false, details };
    }
    if !facts.executable {
        let details = vec![
            detail("exists", "true".to_owned()),
            detail("error", concat3("File at ", path.as_str(), " is not executable")),
            detail("executable", "false".to_owned()),
        ];
        assert(detail_views(details@) =~= goal.1);
        return Validation { is_valid: false, details };
    }
    let mut details = vec![
        detail("exists", "true".to_owned()),
        detail("executable", "true".to_owned()),
    ];
    let is_valid: bool = match &facts.run {
        Ok(out) => {
            let stdout = trim(out.stdout.as_str());
            if out.success {
                details.push(detail("version", stdout));
                details.push(detail("valid", "true".to_owned()));
            } else {
                let stderr = trim(out.stderr.as_str());
                if !stdout.as_str().is_empty() || !stderr.as_str().is_empty() {
                    details.push(
                        detail(
                            "output",
                            concat4("stdout: ", stdout.as_str(), ", stderr: ", stderr.as_str()),
                        ),
                    );
                }
                details.push(detail("valid", "true (no version flag)".to_owned()));
            }
            true
        },
        Err(e) => {
            details.push(detail("error", concat2("Failed to execute: ", e.as_str())));
            details.push(detail("valid", "false".to_owned()));
            false
        },
    };
    assert(detail_views(details@) =~= goal.1);
    Validation { is_valid, details }
}

/// The error of a validation, if it has one.
pub open spec fn error_of(details: Seq<(Seq<char>, Seq<char>)>) -> Option<Seq<char>>
    decreases details.len(),
{
    if details.len() == 0 {
        None
    } else if details[0].0 == "error"@ {
        Some(details[0].1)
    } else {
        error_of(details.drop_first())
    }
}

fn find_error(details: &Vec<Pair>) -> (r: Option<String>)
    ensures
        checks::optional(r) == error_of(detail_views(details@)),
        details@.len() > 0 && details@[0].key@ == "error"@ ==> r is Some && r->0@
            == details@[0].value@,
        (exists|i: int| 0 <= i < details@.len() && (#[trigger] details@[i]).key@ == "error"@)
            <==> r is Some,
{
    let ghost all = detail_views(details@);
    let mut i: usize = 0;
    assert(all.skip(0) =~= all);
    while i < details.len()
        invariant
            i <= details@.len(),
            all == detail_views(details@),
            error_of(all) == error_of(all.skip(i as int)),
            forall|j: int| 0 <= j < i ==> (#[trigger] details@[j]).key@ != "error"@,
        decreases details@.len() - i,
    {
        proof {
            assert(all.skip(i as int)[0] == (details@[i as int].key@, details@[i as int].value@));
            assert(all.skip(i as int).drop_first() =~= all.skip(i + 1));
        }
        if crate::text::str_eq(details[i].key.as_str(), "error") {
            assert(details@[i as int].key@ == "error"@);
            return Some(details[i].value.clone());
        }
        i = i + 1;
    }
    None
}

/// The details as a document.
pub open spec fn details_view(details: Seq<(Seq<char>, Seq<char>)>) -> JsonView {
    JsonView::Object(
        details.map_values(|d: (Seq<char>, Seq<char>)| (d.0, JsonView::Text(d.1))),
    )
}

fn details_json(details: &Vec<Pair>) -> (r: Json)
    ensures
        r@ == details_view(detail_views(details@)),
        r@->Object_0.len() == details@.len(),
        forall|i: int|
            0 <= i < details@.len() ==> #[trigger] r@->Object_0[i] == (
                details@[i].key@,
                JsonView::Text(details@[i].value@),
            ),
{
    let mut members: Vec<Member> = Vec::new();
    let mut i: usize = 0;
    while i < details.len()
        invariant
            i <= details@.len(),
            members@.len() == i,
            forall|j: int|
                0 <= j < i ==> (#[trigger] members@[j]).name@ == details@[j].key@
                    && members@[j].value@ == JsonView::Text(details@[j].value@),
        decreases details@.len() - i,
    {
        members.push(member(details[i].key.as_str(), text(details[i].value.as_str())));
        i = i + 1;
    }
    assert(json::member_views(members@) =~= details_view(detail_views(details@))->Object_0);
    object(members)
}

/// What was found.
pub open spec fn current_view(
    provider: Seq<char>,
    path: Seq<char>,
    validation: (bool, Seq<(Seq<char>, Seq<char>)>),
) -> JsonView {
    JsonView::Object(
        seq![
            ("provider"@, JsonView::Text(provider)),
            ("worker_binary_path"@, JsonView::Text(path)),
            ("is_valid"@, JsonView::Bool(validation.0)),
            ("validation_details"@, details_view(validation.1)),
        ],
    )
}

/// What should be found.
pub open spec fn expected_view(provider: Seq<char>, configured: Option<String>) -> JsonView {
    JsonView::Object(
        seq![
            ("provider"@, JsonView::Text(provider)),
            ("worker_binary_required"@, JsonView::Bool(true)),
            ("expected_path"@, json::text_or_null(configured)),
        ],
    )
}

/// What is wrong: the binary cannot be used.
pub open spec fn delta_of(
    provider: Seq<char>,
    validation: (bool, Seq<(Seq<char>, Seq<char>)>),
) -> Seq<DeltaView> {
    if validation.0 {
        seq![]
    } else {
        seq![
            DeltaView {
                item: "worker binary for '"@ + provider + "'"@,
                expected: "valid worker binary"@,
                actual: error_of(validation.1),
                severity: Severity::Critical,
            },
        ]
    }
}

/// What is to be done: build the binary.
pub open spec fn remedy_of(provider: Seq<char>, path: Seq<char>, is_valid: bool) -> Option<
    RemediationView,
> {
    if is_valid {
        None
    } else {
        Some(
            RemediationView {
                confidence: "high"@,
                auto_fixable: true,
                commands: seq![
                    "cargo build -p bastion-worker --features "@ + provider,
                    "# Or for release: cargo build -p bastion-worker --release --features "@
                        + provider,
                ],
                manual_steps: seq![
                    "# Ensure Rust toolchain is installed:"@,
                    "curl --proto '=https' --tlsv1.2 -sSf https://sh.rustup.rs | sh"@,
                    "# Then build the worker:"@,
                    "cargo build -p bastion-worker --features "@ + provider,
                    "# Verify the binary:"@,
                    "ls -la "@ + path + " || echo 'Binary not found at expected path'"@,
                ],
                verify_after: path + " --version 2>&1 || file "@ + path,
                install_sources: seq![
                    SourceView {
                        name: "bastion-worker"@,
                        url: "https://github.com/rbentxu/bastion#building-from-source"@,
                        method: "source"@,
                    },
                ],
            },
        )
    }
}

/// The path that is configured, or the one of the provider.
pub open spec fn worker_path(provider: Seq<char>, configured: Option<String>) -> Seq<char> {
    match configured {
        Some(p) => p@,
        None => "/usr/local/bin/bastion-worker-"@ + provider,
    }
}

/// Where the worker binary of a provider lies.
pub fn worker_binary_path(provider_name: &str, configured: &Option<String>) -> (r: Option<String>)
    ensures
        r matches Some(p) && p@ == worker_path(provider_name@, *configured),
        configured is Some ==> r->0@ == configured->0@,
        configured is None ==> r->0@ == "/usr/local/bin/bastion-worker-"@ + provider_name@,
{
    match configured {
        Some(p) => Some(p.clone()),
        None => default_worker_binary_for(provider_name),
    }
}

/// Checks that the worker binary of a provider can be used. What is known of the file
/// comes with the call.
pub fn evaluate(
    provider_name: &str,
    configured: &Option<String>,
    facts: &FileFacts,
    context: Arc<SystemContext>,
    now: Timestamp,
) -> (r: RichCheckResult)
    ensures
        r.wf(),
        r.system_context == context,
        r.executed_at == now,
        ({
            let path = worker_path(provider_name@, *configured);
            let validation = validation_of(Some(path), *facts);
            r@ == (ReportView {
                check_id: "worker_binary_valid."@ + provider_name@,
                check_type: "worker_binary_valid"@,
                current_state: current_view(provider_name@, path, validation),
                expected_state: expected_view(provider_name@, *configured),
                delta: delta_of(provider_name@, validation),
                remediation: remedy_of(provider_name@, path, validation.0),
            })
        }),
        r.check_id@ == "worker_binary_valid."@ + provider_name@,
        r.status is Pass <==> facts.exists && facts.executable && facts.run is Ok,
        r.status is Fail ==> {
            &&& r.delta@.len() == 1
            &&& r.delta@[0].severity is Critical
            &&& r.delta@[0].actual is Some
            &&& r.remediation->0.auto_fixable
        },
        !facts.exists && configured is Some ==> r.delta@[0].actual->0@ == "File not found at "@
            + configured->0@,
        !facts.exists && configured is None ==> r.delta@[0].actual->0@ == "File not found at "@ + (
        "/usr/local/bin/bastion-worker-"@ + provider_name@),
        r.current_state@->Object_0[0] == ("provider"@, JsonView::Text(provider_name@)),
        configured is Some ==> r.current_state@->Object_0[1] == (
            "worker_binary_path"@,
            JsonView::Text(configured->0@),
        ),
        configured is None ==> r.current_state@->Object_0[1] == (
            "worker_binary_path"@,
            JsonView::Text("/usr/local/bin/bastion-worker-"@ + provider_name@),
        ),
        r.current_state@->Object_0[2] == (
            "is_valid"@,
            JsonView::Bool(facts.exists && facts.executable && facts.run is Ok),
        ),
        r.status is Fail ==> r.delta@[0].item@ == "worker binary for '"@ + provider_name@ + "'"@
            && r.delta@[0].expected@ == "valid worker binary"@,
        r.current_state@->Object_0[3].0 == "validation_details"@,
        r.expected_state@->Object_0.len() == 3,
        r.expected_state@->Object_0[0] == ("provider"@, JsonView::Text(provider_name@)),
        r.expected_state@->Object_0[1] == ("worker_binary_required"@, JsonView::Bool(true)),
        r.expected_state@->Object_0[2].0 == "expected_path"@,
        configured is Some ==> r.expected_state@->Object_0[2].1 == JsonView::Text(configured->0@),
        configured is None ==> r.expected_state@->Object_0[2].1 is Null,
        r.status is Fail ==> {
            let path = match configured {
                Some(p) => p@,
                None => "/usr/local/bin/bastion-worker-"@ + provider_name@,
            };
            let m = r.remediation->0@;
            &&& m.confidence == "high"@
            &&& m.commands == seq![
                "cargo build -p bastion-worker --features "@ + provider_name@,
                "# Or for release: cargo build -p bastion-worker --release --features "@
                    + provider_name@,
            ]
            &&& m.manual_steps == seq![
                "# Ensure Rust toolchain is installed:"@,
                "curl --proto '=https' --tlsv1.2 -sSf https://sh.rustup.rs | sh"@,
                "# Then build the worker:"@,
                "cargo build -p bastion-worker --features "@ + provider_name@,
                "# Verify the binary:"@,
                "ls -la "@ + path + " || echo 'Binary not found at expected path'"@,
            ]
            &&& m.verify_after == path + " --version 2>&1 || file "@ + path
            &&& m.install_sources == seq![
                SourceView {
                    name: "bastion-worker"@,
                    url: "https://github.com/rbentxu/bastion#building-from-source"@,
                    method: "source"@,
                },
            ]
        },
{
    let path = worker_binary_path(provider_name, configured);
    let validation = validate_worker_binary(&path, facts);
    let ghost place = worker_path(provider_name@, *configured);
    let ghost v = validation_of(Some(place), *facts);
    let members = vec![
        member("provider", text(provider_name)),
        member("worker_binary_path", optional_text(&path)),
        member("is_valid", Json::Bool(validation.is_valid)),
        member("validation_details", details_json(&validation.details)),
    ];
    assert(json::member_views(members@) =~= current_view(provider_name@, place, v)->Object_0);
    let current_state = object(members);
    let members = vec![
        member("provider", text(provider_name)),
        member("worker_binary_required", Json::Bool(true)),
        member("expected_path", optional_text(configured)),
    ];
    assert(json::member_views(members@) =~= expected_view(provider_name@, *configured)->Object_0);
    let expected_state = object(members);
    let mut delta: Vec<DeltaItem> = Vec::new();
    let mut remediation: Option<Remediation> = None;
    if !validation.is_valid {
        delta.push(
            DeltaItem {
                item: concat3("worker binary for '", provider_name, "'"),
                expected: "valid worker binary".to_owned(),
                actual: find_error(&validation.details),
                severity: Severity::Critical,
            },
        );
        let shown: &str = match &path {
            Some(p) => p.as_str(),
            None => "unknown",
        };
        let remedy = Remediation {
            confidence: "high".to_owned(),
            auto_fixable: true,
            commands: vec![
                concat2("cargo build -p bastion-worker --features ", provider_name),
                concat2(
                    "# Or for release: cargo build -p bastion-worker --release --features ",
                    provider_name,
                ),
            ],
            manual_steps: vec![
                "# Ensure Rust toolchain is installed:".to_owned(),
                "curl --proto '=https' --tlsv1.2 -sSf https://sh.rustup.rs | sh".to_owned(),
                "# Then build the worker:".to_owned(),
                concat2("cargo build -p bastion-worker --features ", provider_name),
                "# Verify the binary:".to_owned(),
                concat3("ls -la ", shown, " || echo 'Binary not found at expected path'"),
            ],
            verify_after: concat3(shown, " --version 2>&1 || file ", shown),
            install_sources: vec![
                InstallSource {
                    name: "bastion-worker".to_owned(),
                    url: "https://github.com/rbentxu/bastion#building-from-source".to_owned(),
                    method: "source".to_owned(),
                },
            ],
        };
        proof {
            let goal = remedy_of(provider_name@, place, false)->0;
            assert(text::texts(remedy.commands@) =~= goal.commands);
            assert(text::texts(remedy.manual_steps@) =~= goal.manual_steps);
            assert(checks::source_views(remedy.install_sources@) =~= goal.install_sources);
        }
        remediation = Some(remedy);
    }
    assert(checks::delta_views(delta@) =~= delta_of(provider_name@, v));
    report(
        concat2("worker_binary_valid.", provider_name),
        "worker_binary_valid",
        current_state,
        expected_state,
        delta,
        remediation,
        context,
        now,
    )
}

/// The error of a validation is its first detail of that name, and there is none without one.
pub proof fn law_first_error_counts(details: Seq<(Seq<char>, Seq<char>)>, i: int)
    requires
        0 <= i <= details.len(),
        forall|j: int| 0 <= j < i ==> (#[trigger] details[j]).0 != "error"@,
        i < details.len() ==> details[i].0 == "error"@,
    ensures
        i < details.len() ==> error_of(details) == Some(details[i].1),
        i == details.len() ==> error_of(details) is None,
    decreases details.len(),
{
    if i > 0 {
        let rest = details.drop_first();
        assert(details[0].0 != "error"@);
        assert forall|j: int| 0 <= j < i - 1 implies (#[trigger] rest[j]).0 != "error"@ by {
            assert(rest[j] == details[j + 1]);
        }
        if i < details.len() {
            assert(rest[i - 1] == details[i]);
        }
        law_first_error_counts(rest, i - 1);
    }
}

} // verus!
