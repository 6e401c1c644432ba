//! Whether virtual machines can run.
use std::sync::Arc;

use vstd::prelude::*;

use crate::catalog::toml_doctor_parser::Severity;
use crate::doctor::checks;
use crate::doctor::checks::{
    report, DeltaItem, DeltaView, InstallSource, Remediation, RemediationView, ReportView,
    RichCheckResult, SourceView, SystemContext,
};
use crate::domain::Timestamp;

use crate::json;
use crate::json::{member, object, text, Json, JsonView};
use crate::text;

verus! {

/// What was found.
pub open spec fn current_view(kvm_exists: bool, nested: bool, extensions: bool) -> JsonView {
    JsonView::Object(
        seq![
            ("kvm_device_exists"@, JsonView::Bool(kvm_exists)),
            ("kvm_path"@, JsonView::Text("/dev/kvm"@)),
            ("has_nested_virt"@, JsonView::Bool(nested)),
            ("cpu_virtualization_extensions"@, JsonView::Bool(extensions)),
        ],
    )
}

/// What should be found.
pub open spec fn expected_view() -> JsonView {
    JsonView::Object(
        seq![
            ("kvm_required"@, JsonView::Bool(true)),
            ("kvm_path"@, JsonView::Text("/dev/kvm"@)),
            ("nested_virt_desirable"@, JsonView::Bool(true)),
        ],
    )
}

/// The item of a missing device.
pub open spec fn no_device() -> DeltaView {
    DeltaView {
        item: "/dev/kvm"@,
        expected: "KVM device available"@,
        actual: Some("KVM device not found"@),
        severity: Severity::Critical,
    }
}

/// The item of a processor without the extensions.
pub open spec fn no_extensions() -> DeltaView {
    DeltaView {
        item: "CPU virtualization extensions"@,
        expected: "VT-x (Intel) or AMD-V (AMD) enabled"@,
        actual: Some("CPU virtualization not detected"@),
        severity: Severity::Critical,
    }
}

/// The item of nested virtualization that is off.
pub open spec fn no_nesting() -> DeltaView {
    DeltaView {
        item: "Nested virtualization"@,
        expected: "Nested virtualization supported"@,
        actual: Some("Nested virtualization not enabled"@),
        severity: Severity::Warning,
    }
}

/// What is wrong, in this order: the device, the processor, the nesting.
pub open spec fn delta_of(kvm_exists: bool, nested: bool, extensions: bool) -> Seq<DeltaView> {
    let device: Seq<DeltaView> = if kvm_exists {
        seq![]
    } else {
        seq![no_device()]
    };
    let processor: Seq<DeltaView> = if extensions {
        seq![]
    } else {
        seq![no_extensions()]
    };
    let nesting: Seq<DeltaView> = if nested {
        seq![]
    } else {
        seq![no_nesting()]
    };
    device + processor + nesting
}

/// The commands that switch nested virtualization on.
pub open spec fn nesting_commands() -> Seq<Seq<char>> {
    seq![
        "# Enable nested virtualization for Intel CPUs:"@,
        "sudo modprobe kvm_intel nested=1"@,
        "# Or persist across reboots:"@,
        "echo 'options kvm_intel nested=1' | sudo tee /etc/modprobe.d/kvm-intel.conf"@,
    ]
}

/// The steps by which the device is brought up.
pub open spec fn device_steps() -> Seq<Seq<char>> {
    seq![
        "# Check if your CPU supports virtualization:"@,
        "grep -E '(vmx|svm)' /proc/cpuinfo"@,
        "# If no output, your CPU doesn't support hardware virtualization"@,
        "# If yes, check if KVM module is loaded:"@,
        "lsmod | grep kvm"@,
        "# Load KVM modules if not loaded:"@,
        "sudo modprobe kvm"@,
        "sudo modprobe kvm-intel  # for Intel CPUs"@,
        "sudo modprobe kvm-amd    # for AMD CPUs"@,
    ]
}

/// Where the software can be had from.
pub open spec fn sources() -> Seq<SourceView> {
    seq![
        SourceView {
            name: "KVM"@,
            url: "https://www.linux-kvm.org/page/Main_Page"@,
            method: "package_manager"@,
        },
        SourceView {
            name: "QEMU"@,
            url: "https://www.qemu.org/download/"@,
            method: "package_manager"@,
        },
    ]
}

/// What is to be done.
pub open spec fn remedy_of(kvm_exists: bool, nested: bool, extensions: bool) -> Option<
    RemediationView,
> {
    if kvm_exists && nested && extensions {
        None
    } else {
        let basic = !kvm_exists || !extensions;
        Some(
            RemediationView {
                confidence: if basic {
                    "high"@
                } else {
                    "medium"@
                },
                auto_fixable: false,
                commands: if nested {
                    seq![]
                } else {
                    nesting_commands()
                },
                manual_steps: if basic {
                    device_steps()
                } else {
                    seq![]
                },
                verify_after: "ls -la /dev/kvm"@,
                install_sources: sources(),
            },
        )
    }
}

fn remedy(kvm_exists: bool, nested: bool, extensions: bool) -> (r: Remediation)
    requires
        !(kvm_exists && nested && extensions),
    ensures
        Some(r@) == remedy_of(kvm_exists, nested, extensions),
        !nested ==> r@.commands == seq![
            "# Enable nested virtualization for Intel CPUs:"@,
            "sudo modprobe kvm_intel nested=1"@,
            "# Or persist across reboots:"@,
            "echo 'options kvm_intel nested=1' | sudo tee /etc/modprobe.d/kvm-intel.conf"@,
        ],
        !(kvm_exists && extensions) ==> r@.manual_steps == seq![
            "# Check if your CPU supports virtualization:"@,
            "grep -E '(vmx|svm)' /proc/cpuinfo"@,
            "# If no output, your CPU doesn't support hardware virtualization"@,
            "# If yes, check if KVM module is loaded:"@,
            "lsmod | grep kvm"@,
            "# Load KVM modules if not loaded:"@,
            "sudo modprobe kvm"@,
            "sudo modprobe kvm-intel  # for Intel CPUs"@,
            "sudo modprobe kvm-amd    # for AMD CPUs"@,
        ],
        r@.verify_after == "ls -la /dev/kvm"@,
        r@.install_sources.len() == 2,
        r@.install_sources[0] == (SourceView {
            name: "KVM"@,
            url: "https://www.linux-kvm.org/page/Main_Page"@,
            method: "package_manager"@,
        }),
        r@.install_sources[1] == (SourceView {
            name: "QEMU"@,
            url: "https://www.qemu.org/download/"@,
            method: "package_manager"@,
        }),
{
    let basic = !kvm_exists || !extensions;
    let confidence: &str = if basic {
        "high"
    } else {
        "medium"
    };
    let commands: Vec<String> = if nested {
        Vec::new()
    } else {
        vec![
            "# Enable nested virtualization for Intel CPUs:".to_owned(),
            "sudo modprobe kvm_intel nested=1".to_owned(),
            "# Or persist across reboots:".to_owned(),
            "echo 'options kvm_intel nested=1' | sudo tee /etc/modprobe.d/kvm-intel.conf".to_owned(),
        ]
    };
    let manual_steps: Vec<String> = if basic {
        vec![
            "# Check if your CPU supports virtualization:".to_owned(),
            "grep -E '(vmx|svm)' /proc/cpuinfo".to_owned(),
            "# If no output, your CPU doesn't support hardware virtualization".to_owned(),
            "# If yes, check if KVM module is loaded:".to_owned(),
            "lsmod | grep kvm".to_owned(),
            "# Load KVM modules if not loaded:".to_owned(),
            "sudo modprobe kvm".to_owned(),
            "sudo modprobe kvm-intel  # for Intel CPUs".to_owned(),
            "sudo modprobe kvm-amd    # for AMD CPUs".to_owned(),
        ]
    } else {
        Vec::new()
    };
    let install_sources = vec![
        InstallSource {
            name: "KVM".to_owned(),
            url: "https://www.linux-kvm.org/page/Main_Page".to_owned(),
            method: "package_manager".to_owned(),
        },
        InstallSource {
            name: "QEMU".to_owned(),
            url: "https://www.qemu.org/download/".to_owned(),
            method: "package_manager".to_owned(),
        },
    ];
    proof {
        let v = remedy_of(kvm_exists, nested, extensions)->0;
        assert(text::texts(commands@) =~= v.commands);
        assert(text::texts(manual_steps@) =~= v.manual_steps);
        assert(checks::source_views(install_sources@) =~= v.install_sources);
    }
    Remediation {
        confidence: confidence.to_owned(),
        auto_fixable: false,
        commands,
        manual_steps,
        verify_after: "ls -la /dev/kvm".to_owned(),
        install_sources,
    }
}

/// Checks that virtual machines can run, from whether the device exists, whether
/// nested virtualization is on (off, where it is not known), and whether the processor
/// has the extensions.
pub fn evaluate(
    kvm_exists: bool,
    extensions: bool,
    context: Arc<SystemContext>,
    now: Timestamp,
) -> (r: RichCheckResult)
    ensures
        r.wf(),
        r.system_context == context,
        r.executed_at == now,
        ({
            let nested = context.has_nested_virt == Some(true);
            r@ == (ReportView {
                check_id: "kvm_available"@,
                check_type: "kvm_available"@,
                current_state: current_view(kvm_exists, nested, extensions),
                expected_state: expected_view(),
                delta: delta_of(kvm_exists, nested, extensions),
                remediation: remedy_of(kvm_exists, nested, extensions),
            })
        }),
        ({
            let nested = context.has_nested_virt == Some(true);
            let worst = !kvm_exists || !extensions;
            &&& r.status is Pass <==> kvm_exists && extensions && nested
            &&& r.delta@.len() == (if kvm_exists {
                0int
            } else {
                1
            }) + (if extensions {
                0int
            } else {
                1
            }) + (if nested {
                0int
            } else {
                1
            })
            &&& !kvm_exists ==> r.delta@[0].item@ == "/dev/kvm"@ && r.delta@[0].severity is Critical
            &&& kvm_exists && !extensions ==> r.delta@[0].item@ == "CPU virtualization extensions"@
                && r.delta@[0].severity is Critical
            &&& !kvm_exists && !extensions ==> r.delta@[1].item@ == "CPU virtualization extensions"@
                && r.delta@[1].severity is Critical
            &&& !nested ==> r.delta@.last().item@ == "Nested virtualization"@
                && r.delta@.last().severity is Warning
            &&& worst ==> r.remediation->0.confidence@ == "high"@
                && r.remediation->0.manual_steps@.len() == 9
            &&& !worst && !nested ==> r.remediation->0.confidence@ == "medium"@
                && r.remediation->0.manual_steps@.len() == 0
            &&& r.remediation is Some ==> (r.remediation->0.commands@.len() == 0 <==> nested)
            &&& r.remediation is Some ==> !r.remediation->0.auto_fixable
            &&& !kvm_exists ==> r.delta@[0]@ == (DeltaView {
                item: "/dev/kvm"@,
                expected: "KVM device available"@,
                actual: Some("KVM device not found"@),
                severity: Severity::Critical,
            })
            &&& !extensions ==> r.delta@[if kvm_exists {
                0int
            } else {
                1
            }]@ == (DeltaView {
                item: "CPU virtualization extensions"@,
                expected: "VT-x (Intel) or AMD-V (AMD) enabled"@,
                actual: Some("CPU virtualization not detected"@),
                severity: Severity::Critical,
            })
            &&& !nested ==> r.delta@.last()@ == (DeltaView {
                item: "Nested virtualization"@,
                expected: "Nested virtualization supported"@,
                actual: Some("Nested virtualization not enabled"@),
                severity: Severity::Warning,
            })
            &&& r.expected_state@->Object_0 == seq![
                ("kvm_required"@, JsonView::Bool(true)),
                ("kvm_path"@, JsonView::Text("/dev/kvm"@)),
                ("nested_virt_desirable"@, JsonView::Bool(true)),
            ]
            &&& r.current_state@->Object_0.len() == 4
            &&& r.current_state@->Object_0[1] == ("kvm_path"@, JsonView::Text("/dev/kvm"@))
            &&& r.current_state@->Object_0[0] == ("kvm_device_exists"@, JsonView::Bool(kvm_exists))
            &&& r.current_state@->Object_0[2] == ("has_nested_virt"@, JsonView::Bool(nested))
            &&& r.current_state@->Object_0[3] == (
                "cpu_virtualization_extensions"@,
                JsonView::Bool(extensions),
            )
        }),
{
    let nested: bool = match context.has_nested_virt {
        Some(b) => b,
        None => false,
    };
    let members = vec![
        member("kvm_device_exists", Json::Bool(kvm_exists)),
        member("kvm_path", text("/dev/kvm")),
        member("has_nested_virt", Json::Bool(nested)),
        member("cpu_virtualization_extensions", Json::Bool(extensions)),
    ];
    assert(json::member_views(members@) =~= current_view(kvm_exists, nested, extensions)->Object_0);
    let current_state = object(members);
    let members = vec![
        member("kvm_required", Json::Bool(true)),
        member("kvm_path", text("/dev/kvm")),
        member("nested_virt_desirable", Json::Bool(true)),
    ];
    assert(json::member_views(members@) =~= expected_view()->Object_0);
    let expected_state = object(members);
    let mut delta: Vec<DeltaItem> = Vec::new();
    if !kvm_exists {
        delta.push(
            DeltaItem {
                item: "/dev/kvm".to_owned(),
                expected: "KVM device available".to_owned(),
                actual: Some("KVM device not found".to_owned()),
                severity: Severity::Critical,
            },
        );
    }
    if !extensions {
        delta.push(
            DeltaItem {
                item: "CPU virtualization extensions".to_owned(),
                expected: "VT-x (Intel) or AMD-V (AMD) enabled".to_owned(),
                actual: Some("CPU virtualization not detected".to_owned()),
                severity: Severity::Critical,
            },
        );
    }
    if !nested {
        delta.push(
            DeltaItem {
                item: "Nested virtualization".to_owned(),
                expected: "Nested virtualization supported".to_owned(),
                actual: Some("Nested virtualization not enabled".to_owned()),
                severity: Severity::Warning,
            },
        );
    }
    assert(checks::delta_views(delta@) =~= delta_of(kvm_exists, nested, extensions));
    let remediation: Option<Remediation> = if delta.len() == 0 {
        None
    } else {
        Some(remedy(kvm_exists, nested, extensions))
    };
    proof {
        if remediation is Some {
            let m = remediation->0;
            assert(text::texts(m.commands@).len() == m.commands@.len());
            assert(text::texts(m.manual_steps@).len() == m.manual_steps@.len());
        }
    }
    report(
        "kvm_available".to_owned(),
        "kvm_available",
        current_state,
        expected_state,
        delta,
        remediation,
        context,
        now,
    )
}

} // verus!
