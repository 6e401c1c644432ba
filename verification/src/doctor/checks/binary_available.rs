//! Whether a binary is at hand.
use std::sync::Arc;

use vstd::prelude::*;

use crate::catalog::toml_doctor_parser::Severity;
use crate::doctor::checks;
use crate::doctor::checks::{
    report, DeltaItem, DeltaView, InstallSource, Remediation, RemediationView, ReportView,
    RichCheckResult, SourceView, SystemContext,
};
use crate::domain::Timestamp;
use crate::json;
use crate::json::{member, object, optional_text, text, Json, JsonView};
use crate::text;
use crate::text::{clone_option, concat2, concat3, concat4, contains, str_eq};

verus! {

/// What is known of a binary.
#[derive(Debug)]
pub struct BinaryInfo {
    pub name: String,
    pub path: Option<String>,
    pub version: Option<String>,
}

/// Whether a binary lies where it is expected: its path holds the expected one.
pub open spec fn lies_where_expected(path: Option<String>, expected: Option<Seq<char>>) -> bool {
    match expected {
        None => true,
        Some(e) => match path {
            Some(p) => text::contains_text(p@, e),
            None => false,
        },
    }
}

/// The expected path, or what stands for it.
pub open spec fn path_or(expected: Option<Seq<char>>, otherwise: Seq<char>) -> Seq<char> {
    match expected {
        Some(e) => e,
        None => otherwise,
    }
}

/// What was found.
pub open spec fn current_view(
    name: Seq<char>,
    path: Option<String>,
    version: Option<String>,
) -> JsonView {
    JsonView::Object(
        seq![
            ("binary_name"@, JsonView::Text(name)),
            ("path"@, json::text_or_null(path)),
            ("version"@, json::text_or_null(version)),
            ("is_available"@, JsonView::Bool(path is Some)),
        ],
    )
}

/// What should be found.
pub open spec fn expected_view(name: Seq<char>, expected: Option<Seq<char>>) -> JsonView {
    JsonView::Object(
        seq![
            ("binary_name"@, JsonView::Text(name)),
            ("expected_path"@, JsonView::Text(path_or(expected, "any path"@))),
            ("required"@, JsonView::Bool(true)),
        ],
    )
}

/// What is wrong: the binary is not there, or lies elsewhere.
pub open spec fn delta_of(
    name: Seq<char>,
    path: Option<String>,
    expected: Option<Seq<char>>,
) -> Seq<DeltaView> {
    if path is None {
        seq![
            DeltaView {
                item: "binary '"@ + name + "'"@,
                expected: "binary found in PATH"@,
                actual: None,
                severity: Severity::Critical,
            },
        ]
    } else if !lies_where_expected(path, expected) {
        seq![
            DeltaView {
                item: "binary path for '"@ + name + "'"@,
                expected: path_or(expected, "any path"@),
                actual: checks::optional(path),
                severity: Severity::Warning,
            },
        ]
    } else {
        seq![]
    }
}

/// What is to be done: install the binary, or look at where it lies.
pub open spec fn remedy_of(
    name: Seq<char>,
    path: Option<String>,
    expected: Option<Seq<char>>,
) -> Option<RemediationView> {
    if path is None {
        Some(
            RemediationView {
                confidence: "high"@,
                auto_fixable: false,
                commands: seq![],
                manual_steps: seq![
                    "# Install "@ + name + " using your package manager:"@,
                    "# Ubuntu/Debian: sudo apt-get install "@ + name,
                    "# Fedora/RHEL: sudo dnf install "@ + name,
                    "# Arch: sudo pacman -S "@ + name,
                    "# macOS: brew install "@ + name,
                ],
                verify_after: "which "@ + name + " && "@ + name + " --version"@,
                install_sources: seq![
                    SourceView {
                        name,
                        url: install_url(name),
                        method: "package_manager"@,
                    },
                ],
            },
        )
    } else if !lies_where_expected(path, expected) {
        Some(
            RemediationView {
                confidence: "medium"@,
                auto_fixable: false,
                commands: seq![],
                manual_steps: seq![
                    "Binary found at "@ + path->0@ + " but expected at "@ + path_or(
                        expected,
                        "default PATH"@,
                    ),
                ],
                verify_after: name + " --version"@,
                install_sources: seq![],
            },
        )
    } else {
        None
    }
}

/// Checks that a binary is at hand, and where it lies if that matters. What is known of
/// it comes with the call.
pub fn evaluate(
    binary_name: &str,
    expected_path: Option<&str>,
    context: Arc<SystemContext>,
    now: Timestamp,
) -> (r: RichCheckResult)
    requires
        context.relevant_binaries.wf(),
    ensures
        r.wf(),
        r.system_context == context,
        r.executed_at == now,
        ({
            let found = context.relevant_binaries@;
            let path = if found.contains_key(binary_name@) {
                found[binary_name@].path
            } else {
                None
            };
            let version = if found.contains_key(binary_name@) {
                found[binary_name@].version
            } else {
                None
            };
            let expected = match expected_path {
                Some(e) => Some(e@),
                None => None,
            };
            r@ == (ReportView {
                check_id: "binary_available."@ + binary_name@,
                check_type: "binary_available"@,
                current_state: current_view(binary_name@, path, version),
                expected_state: expected_view(binary_name@, expected),
                delta: delta_of(binary_name@, path, expected),
                remediation: remedy_of(binary_name@, path, expected),
            })
        }),
        ({
            let found = context.relevant_binaries@;
            let there = found.contains_key(binary_name@) && found[binary_name@].path is Some;
            let path = found[binary_name@].path->0@;
            let fits = expected_path is None || text::contains_text(path, expected_path->0@);
            &&& r.check_id@ == "binary_available."@ + binary_name@
            &&& r.status is Pass <==> there && fits
            &&& r.delta@.len() <= 1
            &&& !there ==> r.delta@[0].severity is Critical && r.delta@[0].actual is None
            &&& !there ==> r.remediation->0.install_sources@.len() == 1
                && r.remediation->0.manual_steps@.len() == 5
            &&& there && !fits ==> r.delta@[0].severity is Warning && r.delta@[0].actual->0@ == path
            &&& there && !fits ==> r.delta@[0].expected@ == expected_path->0@
            &&& !there ==> r.delta@[0].item@ == "binary '"@ + binary_name@ + "'"@
                && r.delta@[0].expected@ == "binary found in PATH"@
            &&& there && !fits ==> r.delta@[0].item@ == "binary path for '"@ + binary_name@ + "'"@
            &&& r.current_state@->Object_0.len() == 4
            &&& r.current_state@->Object_0[0] == ("binary_name"@, JsonView::Text(binary_name@))
            &&& r.current_state@->Object_0[1].0 == "path"@
            &&& there ==> r.current_state@->Object_0[1].1 == JsonView::Text(path)
            &&& !there ==> r.current_state@->Object_0[1].1 is Null
            &&& r.current_state@->Object_0[2].0 == "version"@
            &&& found.contains_key(binary_name@) && found[binary_name@].version is Some
                ==> r.current_state@->Object_0[2].1 == JsonView::Text(
                found[binary_name@].version->0@,
            )
            &&& r.current_state@->Object_0[3] == ("is_available"@, JsonView::Bool(there))
            &&& r.expected_state@->Object_0 == seq![
                ("binary_name"@, JsonView::Text(binary_name@)),
                (
                    "expected_path"@,
                    JsonView::Text(
                        match expected_path {
                            Some(e) => e@,
                            None => "any path"@,
                        },
                    ),
                ),
                ("required"@, JsonView::Bool(true)),
            ]
            &&& !there ==> r.remediation->0@ == (RemediationView {
                confidence: "high"@,
                auto_fixable: false,
                commands: seq![],
                manual_steps: seq![
                    "# Install "@ + binary_name@ + " using your package manager:"@,
                    "# Ubuntu/Debian: sudo apt-get install "@ + binary_name@,
                    "# Fedora/RHEL: sudo dnf install "@ + binary_name@,
                    "# Arch: sudo pacman -S "@ + binary_name@,
                    "# macOS: brew install "@ + binary_name@,
                ],
                verify_after: "which "@ + binary_name@ + " && "@ + binary_name@ + " --version"@,
                install_sources: seq![
                    SourceView {
                        name: binary_name@,
                        url: install_url(binary_name@),
                        method: "package_manager"@,
                    },
                ],
            })
            &&& there && !fits ==> r.remediation->0@ == (RemediationView {
                confidence: "medium"@,
                auto_fixable: false,
                commands: seq![],
                manual_steps: seq![
                    "Binary found at "@ + path + " but expected at "@ + expected_path->0@,
                ],
                verify_after: binary_name@ + " --version"@,
                install_sources: seq![],
            })
        }),
{
    let ghost expected = match expected_path {
        Some(e) => Some(e@),
        None => None,
    };
    let info = match context.relevant_binaries.get(binary_name) {
        Some(found) => BinaryInfo {
            name: found.name.clone(),
            path: clone_option(&found.path),
            version: clone_option(&found.version),
        },
        None => BinaryInfo { name: binary_name.to_owned(), path: None, version: None },
    };
    let members = vec![
        member("binary_name", text(binary_name)),
        member("path", optional_text(&info.path)),
        member("version", optional_text(&info.version)),
        member("is_available", Json::Bool(info.path.is_some())),
    ];
    assert(json::member_views(members@) =~= current_view(
        binary_name@,
        info.path,
        info.version,
    )->Object_0);
    let current_state = object(members);
    let any_path: &str = match expected_path {
        Some(e) => e,
        None => "any path",
    };
    let members = vec![
        member("binary_name", text(binary_name)),
        member("expected_path", text(any_path)),
        member("required", Json::Bool(true)),
    ];
    assert(json::member_views(members@) =~= expected_view(binary_name@, expected)->Object_0);
    let expected_state = object(members);
    let mut delta: Vec<DeltaItem> = Vec::new();
    let mut remediation: Option<Remediation> = None;
    match &info.path {
        None => {
            delta.push(
                DeltaItem {
                    item: concat3("binary '", binary_name, "'"),
                    expected: "binary found in PATH".to_owned(),
                    actual: None,
                    severity: Severity::Critical,
                },
            );
            let remedy = Remediation {
                confidence: "high".to_owned(),
                auto_fixable: false,
                commands: Vec::new(),
                manual_steps: vec![
                    concat3("# Install ", binary_name, " using your package manager:"),
                    concat2("# Ubuntu/Debian: sudo apt-get install ", binary_name),
                    concat2("# Fedora/RHEL: sudo dnf install ", binary_name),
                    concat2("# Arch: sudo pacman -S ", binary_name),
                    concat2("# macOS: brew install ", binary_name),
                ],
                verify_after: crate::text::concat5(
                    "which ",
                    binary_name,
                    " && ",
                    binary_name,
                    " --version",
                ),
                install_sources: vec![
                    InstallSource {
                        name: binary_name.to_owned(),
                        url: install_url_for(binary_name),
                        method: "package_manager".to_owned(),
                    },
                ],
            };
            proof {
                let v = remedy_of(binary_name@, info.path, expected)->0;
                assert(text::texts(remedy.commands@) =~= v.commands);
                assert(text::texts(remedy.manual_steps@) =~= v.manual_steps);
                assert(checks::source_views(remedy.install_sources@) =~= v.install_sources);
            }
            remediation = Some(remedy);
        },
        Some(path) => {
            let matches: bool = match expected_path {
                None => true,
                Some(e) => contains(path.as_str(), e),
            };
            if !matches {
                delta.push(
                    DeltaItem {
                        item: concat3("binary path for '", binary_name, "'"),
                        expected: any_path.to_owned(),
                        actual: Some(path.clone()),
                        severity: Severity::Warning,
                    },
                );
                let default_path: &str = match expected_path {
                    Some(e) => e,
                    None => "default PATH",
                };
                let remedy = Remediation {
                    confidence: "medium".to_owned(),
                    auto_fixable: false,
                    commands: Vec::new(),
                    manual_steps: vec![
                        concat4(
                            "Binary found at ",
                            path.as_str(),
                            " but expected at ",
                            default_path,
                        ),
                    ],
                    verify_after: concat2(binary_name, " --version"),
                    install_sources: Vec::new(),
                };
                proof {
                    let v = remedy_of(binary_name@, info.path, expected)->0;
                    assert(text::texts(remedy.commands@) =~= v.commands);
                    assert(text::texts(remedy.manual_steps@) =~= v.manual_steps);
                    assert(checks::source_views(remedy.install_sources@) =~= v.install_sources);
                }
                remediation = Some(remedy);
            }
        },
    }
    assert(checks::delta_views(delta@) =~= delta_of(binary_name@, info.path, expected));
    report(
        concat2("binary_available.", binary_name),
        "binary_available",
        current_state,
        expected_state,
        delta,
        remediation,
        context,
        now,
    )
}

/// Where a binary can be had from.
pub open spec fn install_url(binary: Seq<char>) -> Seq<char> {
    if binary == "podman"@ {
        "https://podman.io/docs/installation"@
    } else if binary == "docker"@ {
        "https://docs.docker.com/engine/install/"@
    } else if binary == "firecracker"@ {
        "https://github.com/firecracker-microvm/firecracker"@
    } else if binary == "runsc"@ {
        "https://gvisor.dev/docs/install/"@
    } else if binary == "kubectl"@ {
        "https://kubernetes.io/docs/tasks/tools/install-kubectl/"@
    } else if binary == "helm"@ {
        "https://helm.sh/docs/intro/install/"@
    } else {
        "https://"@ + binary + ".io"@
    }
}

/// Where a binary can be had from.
pub fn install_url_for(binary: &str) -> (r: String)
    ensures
        r@ == install_url(binary@),
        binary@ == "podman"@ ==> r@ == "https://podman.io/docs/installation"@,
        binary@ == "docker"@ ==> r@ == "https://docs.docker.com/engine/install/"@,
        binary@ == "firecracker"@ ==> r@ == "https://github.com/firecracker-microvm/firecracker"@,
        binary@ == "runsc"@ ==> r@ == "https://gvisor.dev/docs/install/"@,
        binary@ == "kubectl"@ ==> r@ == "https://kubernetes.io/docs/tasks/tools/install-kubectl/"@,
        binary@ == "helm"@ ==> r@ == "https://helm.sh/docs/intro/install/"@,
        binary@ != "podman"@ && binary@ != "docker"@ && binary@ != "firecracker"@ && binary@
            != "runsc"@ && binary@ != "kubectl"@ && binary@ != "helm"@ ==> r@ == "https://"@
            + binary@ + ".io"@,
{
    proof {
        checks::lemma_provider_names();
    }
    if str_eq(binary, "podman") {
        "https://podman.io/docs/installation".to_owned()
    } else if str_eq(binary, "docker") {
        "https://docs.docker.com/engine/install/".to_owned()
    } else if str_eq(binary, "firecracker") {
        "https://github.com/firecracker-microvm/firecracker".to_owned()
    } else if str_eq(binary, "runsc") {
        "https://gvisor.dev/docs/install/".to_owned()
    } else if str_eq(binary, "kubectl") {
        "https://kubernetes.io/docs/tasks/tools/install-kubectl/".to_owned()
    } else if str_eq(binary, "helm") {
        "https://helm.sh/docs/intro/install/".to_owned()
    } else {
        concat3("https://", binary, ".io")
    }
}

} // verus!
