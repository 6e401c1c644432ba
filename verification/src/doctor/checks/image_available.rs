//! Whether the image of a provider is at hand.
use std::sync::Arc;

use vstd::prelude::*;

use crate::catalog::toml_doctor_parser::Severity;
use crate::doctor::checks;
use crate::doctor::checks::{
    report, DeltaItem, DeltaView, InstallSource, Remediation, RemediationView, ReportView,
    RichCheckResult, SourceView, SystemContext,
};
use crate::domain::Timestamp;
use crate::json;
use crate::json::{member, object, optional_text, text, Json, JsonView};
use crate::text;
use crate::text::{concat2, concat3, str_eq};

verus! {

/// The image that a provider uses where none is named.
pub open spec fn default_image(provider: Seq<char>) -> Seq<char> {
    if provider == "firecracker"@ {
        "https://s3.amazonaws.com/spec.ccfc.min/img/hello/kernel-hello"@
    } else if provider == "gvisor"@ {
        "gvisor-remote-image"@
    } else if provider == "podman"@ || provider == "docker"@ {
        "docker.io/library/alpine:latest"@
    } else {
        "default-image"@
    }
}

/// The image that a provider uses where none is named.
pub fn default_image_for(provider: &str) -> (r: &'static str)
    ensures
        r@ == default_image(provider@),
        provider@ == "firecracker"@ ==> r@
            == "https://s3.amazonaws.com/spec.ccfc.min/img/hello/kernel-hello"@,
        provider@ == "gvisor"@ ==> r@ == "gvisor-remote-image"@,
        provider@ == "podman"@ || provider@ == "docker"@ ==> r@
            == "docker.io/library/alpine:latest"@,
        provider@ != "firecracker"@ && provider@ != "gvisor"@ && provider@ != "podman"@ && provider@
            != "docker"@ ==> r@ == "default-image"@,
{
    proof {
        checks::lemma_provider_names();
    }
    if str_eq(provider, "firecracker") {
        "https://s3.amazonaws.com/spec.ccfc.min/img/hello/kernel-hello"
    } else if str_eq(provider, "gvisor") {
        "gvisor-remote-image"
    } else if str_eq(provider, "podman") || str_eq(provider, "docker") {
        "docker.io/library/alpine:latest"
    } else {
        "default-image"
    }
}

/// Where to read about the images of a provider.
pub open spec fn image_source_url(provider: Seq<char>) -> Seq<char> {
    if provider == "firecracker"@ {
        "https://github.com/firecracker-microvm/firecracker#getting-started"@
    } else if provider == "gvisor"@ {
        "https://gvisor.dev/docs/user_guide/"@
    } else if provider == "podman"@ {
        "https://podman.io/getting-started/"@
    } else if provider == "docker"@ {
        "https://docs.docker.com/get-docker/"@
    } else {
        "https://"@ + provider + ".io/docs"@
    }
}

/// Where to read about the images of a provider.
pub fn image_source_url_for(provider: &str) -> (r: String)
    ensures
        r@ == image_source_url(provider@),
        provider@ == "firecracker"@ ==> r@
            == "https://github.com/firecracker-microvm/firecracker#getting-started"@,
        provider@ == "gvisor"@ ==> r@ == "https://gvisor.dev/docs/user_guide/"@,
        provider@ == "podman"@ ==> r@ == "https://podman.io/getting-started/"@,
        provider@ == "docker"@ ==> r@ == "https://docs.docker.com/get-docker/"@,
        provider@ != "firecracker"@ && provider@ != "gvisor"@ && provider@ != "podman"@ && provider@
            != "docker"@ ==> r@ == "https://"@ + provider@ + ".io/docs"@,
{
    proof {
        checks::lemma_provider_names();
    }
    if str_eq(provider, "firecracker") {
        "https://github.com/firecracker-microvm/firecracker#getting-started".to_owned()
    } else if str_eq(provider, "gvisor") {
        "https://gvisor.dev/docs/user_guide/".to_owned()
    } else if str_eq(provider, "podman") {
        "https://podman.io/getting-started/".to_owned()
    } else if str_eq(provider, "docker") {
        "https://docs.docker.com/get-docker/".to_owned()
    } else {
        concat3("https://", provider, ".io/docs")
    }
}

/// How an image of a provider is fetched.
pub open spec fn download_instruction(provider: Seq<char>) -> Seq<char> {
    if provider == "firecracker"@ {
        "curl -fsSL https://s3.amazonaws.com/spec.ccfc.min/img/hello/kernel-hello -o /var/lib/firecracker/hello-vmlinux"@
    } else if provider == "gvisor"@ {
        "gvisor-ctl image pull docker.io/library/alpine:latest"@
    } else if provider == "podman"@ {
        "podman pull docker.io/library/alpine:latest"@
    } else if provider == "docker"@ {
        "docker pull docker.io/library/alpine:latest"@
    } else {
        "# Download image for "@ + provider
    }
}

/// How an image of a provider is fetched.
pub fn download_instruction_for(provider: &str) -> (r: String)
    ensures
        r@ == download_instruction(provider@),
        provider@ == "firecracker"@ ==> r@
            == "curl -fsSL https://s3.amazonaws.com/spec.ccfc.min/img/hello/kernel-hello -o /var/lib/firecracker/hello-vmlinux"@,
        provider@ == "gvisor"@ ==> r@ == "gvisor-ctl image pull docker.io/library/alpine:latest"@,
        provider@ == "podman"@ ==> r@ == "podman pull docker.io/library/alpine:latest"@,
        provider@ == "docker"@ ==> r@ == "docker pull docker.io/library/alpine:latest"@,
        provider@ != "firecracker"@ && provider@ != "gvisor"@ && provider@ != "podman"@ && provider@
            != "docker"@ ==> r@ == "# Download image for "@ + provider@,
{
    proof {
        checks::lemma_provider_names();
    }
    if str_eq(provider, "firecracker") {
        "curl -fsSL https://s3.amazonaws.com/spec.ccfc.min/img/hello/kernel-hello -o /var/lib/firecracker/hello-vmlinux".to_owned()
    } else if str_eq(provider, "gvisor") {
        "gvisor-ctl image pull docker.io/library/alpine:latest".to_owned()
    } else if str_eq(provider, "podman") {
        "podman pull docker.io/library/alpine:latest".to_owned()
    } else if str_eq(provider, "docker") {
        "docker pull docker.io/library/alpine:latest".to_owned()
    } else {
        concat2("# Download image for ", provider)
    }
}

/// The named image, or the one that the provider uses by itself.
pub open spec fn image_or_default(provider: Seq<char>, image_name: Option<&str>) -> Seq<char> {
    match image_name {
        Some(n) => n@,
        None => default_image(provider),
    }
}

/// Whether a provider takes its images from a registry, and not from files.
pub open spec fn uses_registry(provider: Seq<char>) -> bool {
    provider == "podman"@ || provider == "docker"@
}

/// Where the image of a provider may lie, the first place first.
pub open spec fn candidates(provider: Seq<char>, image: Seq<char>) -> Seq<Seq<char>> {
    if provider == "firecracker"@ {
        seq![
            "/var/lib/firecracker/images/"@ + image,
            "/var/lib/firecracker/"@ + image,
            image,
        ]
    } else if provider == "gvisor"@ {
        seq![
            "/usr/local/share/gvisor/images/"@ + image,
            "/var/lib/gvisor/images/"@ + image,
            image,
        ]
    } else if uses_registry(provider) {
        seq![]
    } else {
        seq![image]
    }
}

/// The files of which the image of a provider may be one.
pub fn image_paths(provider: &str, image_name: Option<&str>) -> (r: Vec<String>)
    ensures
        text::texts(r@) == candidates(provider@, image_or_default(provider@, image_name)),
        provider@ == "podman"@ || provider@ == "docker"@ ==> r@.len() == 0,
        image_name matches Some(n) ==> {
            &&& provider@ == "firecracker"@ ==> r@.len() == 3 && r@[0]@
                == "/var/lib/firecracker/images/"@ + n@ && r@[1]@ == "/var/lib/firecracker/"@ + n@
                && r@[2]@ == n@
            &&& provider@ == "gvisor"@ ==> r@.len() == 3 && r@[0]@
                == "/usr/local/share/gvisor/images/"@ + n@ && r@[1]@ == "/var/lib/gvisor/images/"@
                + n@ && r@[2]@ == n@
            &&& provider@ != "firecracker"@ && provider@ != "gvisor"@ && provider@ != "podman"@
                && provider@ != "docker"@ ==> r@.len() == 1 && r@[0]@ == n@
        },
{
    proof {
        checks::lemma_provider_names();
    }
    let image: &str = match image_name {
        Some(n) => n,
        None => default_image_for(provider),
    };
    let r: Vec<String> = if str_eq(provider, "firecracker") {
        vec![
            concat2("/var/lib/firecracker/images/", image),
            concat2("/var/lib/firecracker/", image),
            image.to_owned(),
        ]
    } else if str_eq(provider, "gvisor") {
        vec![
            concat2("/usr/local/share/gvisor/images/", image),
            concat2("/var/lib/gvisor/images/", image),
            image.to_owned(),
        ]
    } else if str_eq(provider, "podman") || str_eq(provider, "docker") {
        Vec::new()
    } else {
        vec![image.to_owned()]
    };
    assert(text::texts(r@) =~= candidates(provider@, image_or_default(provider@, image_name)));
    r
}

/// The first of the paths that exists.
pub open spec fn first_existing(paths: Seq<Seq<char>>, exists: Seq<bool>) -> Option<Seq<char>>
    decreases paths.len(),
{
    if paths.len() == 0 || exists.len() == 0 {
        None
    } else if exists[0] {
        Some(paths[0])
    } else {
        first_existing(paths.drop_first(), exists.drop_first())
    }
}

/// Where the image of a provider was found: in a registry, where it takes images from
/// one, or else at the first path that exists.
pub open spec fn found_image(
    provider: Seq<char>,
    image: Seq<char>,
    exists: Seq<bool>,
) -> Option<Seq<char>> {
    if uses_registry(provider) {
        Some("registry image: "@ + image)
    } else {
        first_existing(candidates(provider, image), exists)
    }
}

/// Where the image of a provider was found. Which of its paths exist comes with the
/// call.
pub fn find_provider_image(provider: &str, image_name: Option<&str>, exists: &Vec<bool>) -> (r:
    Option<String>)
    ensures
        checks::optional(r) == found_image(
            provider@,
            image_or_default(provider@, image_name),
            exists@,
        ),
        (provider@ == "podman"@ || provider@ == "docker"@) && image_name is Some ==> r is Some
            && r->0@ == "registry image: "@ + image_name->0@,
        (provider@ == "podman"@ || provider@ == "docker"@) && image_name is None ==> r is Some
            && r->0@ == "registry image: "@ + "docker.io/library/alpine:latest"@,
{
    proof {
        checks::lemma_provider_names();
    }
    if str_eq(provider, "podman") || str_eq(provider, "docker") {
        let image: &str = match image_name {
            Some(n) => n,
            None => default_image_for(provider),
        };
        return Some(concat2("registry image: ", image));
    }
    let paths = image_paths(provider, image_name);
    let ghost all = text::texts(paths@);
    let mut i: usize = 0;
    assert(all.skip(0) =~= all);
    assert(exists@.skip(0) =~= exists@);
    while i < paths.len() && i < exists.len()
        invariant
            i <= paths@.len(),
            i <= exists@.len(),
            all == text::texts(paths@),
            all == candidates(provider@, image_or_default(provider@, image_name)),
            !uses_registry(provider@),
            first_existing(all, exists@) == first_existing(
                all.skip(i as int),
                exists@.skip(i as int),
            ),
        decreases paths@.len() - i,
    {
        proof {
            assert(all.skip(i as int)[0] == paths@[i as int]@);
            assert(exists@.skip(i as int)[0] == exists@[i as int]);
            assert(all.skip(i as int).drop_first() =~= all.skip(i + 1));
            assert(exists@.skip(i as int).drop_first() =~= exists@.skip(i + 1));
        }
        if exists[i] {
            return Some(paths[i].clone());
        }
        i = i + 1;
    }
    None
}

/// What is wrong: the image was not found.
pub open spec fn delta_of(provider: Seq<char>, image: Seq<char>, found: Option<Seq<char>>) -> Seq<
    DeltaView,
> {
    if found is None {
        seq![
            DeltaView {
                item: provider + " image"@,
                expected: image,
                actual: None,
                severity: Severity::Critical,
            },
        ]
    } else {
        seq![]
    }
}

/// What is to be done: fetch the image.
pub open spec fn remedy_of(provider: Seq<char>, found: Option<Seq<char>>) -> Option<
    RemediationView,
> {
    if found is None {
        Some(
            RemediationView {
                confidence: "high"@,
                auto_fixable: false,
                commands: seq![],
                manual_steps: seq![
                    "# Download "@ + provider + " image:"@,
                    download_instruction(provider),
                ],
                verify_after: "ls -la "@,
                install_sources: seq![
                    SourceView {
                        name: provider + " image"@,
                        url: image_source_url(provider),
                        method: "download"@,
                    },
                ],
            },
        )
    } else {
        None
    }
}

/// What was found.
pub open spec fn current_view(
    provider: Seq<char>,
    image_name: Option<&str>,
    found: Option<Seq<char>>,
) -> JsonView {
    JsonView::Object(
        seq![
            ("provider"@, JsonView::Text(provider)),
            (
                "image_name"@,
                match image_name {
                    Some(n) => JsonView::Text(n@),
                    None => JsonView::Null,
                },
            ),
            (
                "image_path"@,
                match found {
                    Some(p) => JsonView::Text(p),
                    None => JsonView::Null,
                },
            ),
            ("image_found"@, JsonView::Bool(found is Some)),
        ],
    )
}

/// What should be found.
pub open spec fn expected_view(provider: Seq<char>, image: Seq<char>) -> JsonView {
    JsonView::Object(
        seq![
            ("provider"@, JsonView::Text(provider)),
            ("image_name"@, JsonView::Text(image)),
            ("required"@, JsonView::Bool(true)),
        ],
    )
}

/// Checks that the image of a provider is at hand. Which of its paths exist comes with
/// the call.
pub fn evaluate(
    provider_name: &str,
    image_name: Option<&str>,
    exists: &Vec<bool>,
    context: Arc<SystemContext>,
    now: Timestamp,
) -> (r: RichCheckResult)
    ensures
        r.wf(),
        r.system_context == context,
        r.executed_at == now,
        ({
            let image = image_or_default(provider_name@, image_name);
            let found = found_image(provider_name@, image, exists@);
            r@ == (ReportView {
                check_id: "image_available."@ + provider_name@,
                check_type: "image_available"@,
                current_state: current_view(provider_name@, image_name, found),
                expected_state: expected_view(provider_name@, image),
                delta: delta_of(provider_name@, image, found),
                remediation: remedy_of(provider_name@, found),
            })
        }),
        ({
            let image = image_or_default(provider_name@, image_name);
            let registry = provider_name@ == "podman"@ || provider_name@ == "docker"@;
            let found = exists|i: int|
                0 <= i < exists@.len() && i < candidates(provider_name@, image).len()
                    && #[trigger] exists@[i];
            &&& r.check_id@ == "image_available."@ + provider_name@
            &&& r.status is Pass <==> registry || found
            &&& r.status is Fail ==> {
                &&& r.delta@.len() == 1
                &&& r.delta@[0].item@ == provider_name@ + " image"@
                &&& r.delta@[0].expected@ == image
                &&& r.delta@[0].severity is Critical
            }
            &&& image_name is Some ==> image == image_name->0@
            &&& r.status is Fail ==> r.delta@[0].actual is None
            &&& r.status is Fail ==> {
                let m = r.remediation->0@;
                &&& m.confidence == "high"@ && !m.auto_fixable
                &&& m.commands.len() == 0 && m.manual_steps.len() == 2
                &&& m.manual_steps[0] == "# Download "@ + provider_name@ + " image:"@
                &&& m.manual_steps[1] == download_instruction(provider_name@)
                &&& m.verify_after == "ls -la "@
                &&& m.install_sources == seq![
                    SourceView {
                        name: provider_name@ + " image"@,
                        url: image_source_url(provider_name@),
                        method: "download"@,
                    },
                ]
            }
            &&& r.current_state@->Object_0.len() == 4
            &&& r.current_state@->Object_0[0] == ("provider"@, JsonView::Text(provider_name@))
            &&& r.current_state@->Object_0[1].0 == "image_name"@
            &&& image_name is Some ==> r.current_state@->Object_0[1].1 == JsonView::Text(
                image_name->0@,
            )
            &&& image_name is None ==> r.current_state@->Object_0[1].1 is Null
            &&& r.current_state@->Object_0[2].0 == "image_path"@
            &&& r.status is Fail ==> r.current_state@->Object_0[2].1 is Null
            &&& r.current_state@->Object_0[3] == (
                "image_found"@,
                JsonView::Bool(r.status is Pass),
            )
            &&& r.expected_state@->Object_0 == seq![
                ("provider"@, JsonView::Text(provider_name@)),
                ("image_name"@, JsonView::Text(image)),
                ("required"@, JsonView::Bool(true)),
            ]
        }),
{
    proof {
        checks::lemma_provider_names();
        let image = image_or_default(provider_name@, image_name);
        lemma_something_exists(candidates(provider_name@, image), exists@);
    }
    let ghost shown = image_or_default(provider_name@, image_name);
    let image: &str = match image_name {
        Some(n) => n,
        None => default_image_for(provider_name),
    };
    let found = find_provider_image(provider_name, image_name, exists);
    let ghost place = checks::optional(found);
    let named: Json = match image_name {
        Some(n) => text(n),
        None => Json::Null,
    };
    let members = vec![
        member("provider", text(provider_name)),
        member("image_name", named),
        member("image_path", optional_text(&found)),
        member("image_found", Json::Bool(found.is_some())),
    ];
    assert(json::member_views(members@) =~= current_view(
        provider_name@,
        image_name,
        place,
    )->Object_0);
    let current_state = object(members);
    let members = vec![
        member("provider", text(provider_name)),
        member("image_name", text(image)),
        member("required", Json::Bool(true)),
    ];
    assert(json::member_views(members@) =~= expected_view(provider_name@, shown)->Object_0);
    let expected_state = object(members);
    let mut delta: Vec<DeltaItem> = Vec::new();
    let mut remediation: Option<Remediation> = None;
    if found.is_none() {
        delta.push(
            DeltaItem {
                item: concat2(provider_name, " image"),
                expected: image.to_owned(),
                actual: None,
                severity: Severity::Critical,
            },
        );
        let remedy = Remediation {
            confidence: "high".to_owned(),
            auto_fixable: false,
            commands: Vec::new(),
            manual_steps: vec![
                concat3("# Download ", provider_name, " image:"),
                download_instruction_for(provider_name),
            ],
            verify_after: "ls -la ".to_owned(),
            install_sources: vec![
                InstallSource {
                    name: concat2(provider_name, " image"),
                    url: image_source_url_for(provider_name),
                    method: "download".to_owned(),
                },
            ],
        };
        proof {
            let v = remedy_of(provider_name@, place)->0;
            assert(text::texts(remedy.commands@) =~= v.commands);
            assert(text::texts(remedy.manual_steps@) =~= v.manual_steps);
            assert(checks::source_views(remedy.install_sources@) =~= v.install_sources);
        }
        remediation = Some(remedy);
    }
    assert(checks::delta_views(delta@) =~= delta_of(provider_name@, shown, place));
    report(
        concat2("image_available.", provider_name),
        "image_available",
        current_state,
        expected_state,
        delta,
        remediation,
        context,
        now,
    )
}

/// Of the paths that exist the first counts, whatever there is behind it; where none of them
/// exists nothing is found.
pub proof fn law_first_existing_counts(paths: Seq<Seq<char>>, exists: Seq<bool>, i: int)
    requires
        0 <= i,
        i <= paths.len() && i <= exists.len(),
        forall|j: int| 0 <= j < i ==> !#[trigger] exists[j],
        i < paths.len() && i < exists.len() ==> exists[i],
    ensures
        i < paths.len() && i < exists.len() ==> first_existing(paths, exists) == Some(paths[i]),
        i == paths.len() || i == exists.len() ==> first_existing(paths, exists) is None,
    decreases paths.len(),
{
    if i > 0 {
        let p = paths.drop_first();
        let e = exists.drop_first();
        assert(!exists[0]);
        assert forall|j: int| 0 <= j < i - 1 implies !#[trigger] e[j] by {
            assert(e[j] == exists[j + 1]);
        }
        if i < paths.len() && i < exists.len() {
            assert(e[i - 1] == exists[i]);
            assert(p[i - 1] == paths[i]);
        }
        law_first_existing_counts(p, e, i - 1);
    }
}

proof fn lemma_something_exists(paths: Seq<Seq<char>>, exists: Seq<bool>)
    ensures
        first_existing(paths, exists) is Some <==> exists|i: int|
            0 <= i < exists.len() && i < paths.len() && #[trigger] exists[i],
    decreases paths.len(),
{
    if paths.len() > 0 && exists.len() > 0 {
        let p = paths.drop_first();
        let e = exists.drop_first();
        if exists[0] {
        } else {
            lemma_something_exists(p, e);
            if first_existing(p, e) is Some {
                let i = choose|i: int| 0 <= i < e.len() && i < p.len() && #[trigger] e[i];
                assert(exists[i + 1]);
            }
            if exists|i: int| 0 <= i < exists.len() && i < paths.len() && #[trigger] exists[i] {
                let i = choose|i: int|
                    0 <= i < exists.len() && i < paths.len() && #[trigger] exists[i];
                assert(e[i - 1]);
            }
        }
    }
}

} // verus!
