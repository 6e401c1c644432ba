//! The bundle that a container runtime starts from: its configuration, and where the
//! worker goes in it.
use vstd::prelude::*;

use crate::domain::Pair;
use crate::json;
use crate::json::{list, member, object, text, text_list, Json, JsonView};
use crate::text;
use crate::text::{clone_strings, concat2, concat3, join_path};

verus! {

/// Prepares bundles in the default way.
#[derive(Debug)]
pub struct DefaultRootfsManager;

impl Default for DefaultRootfsManager {
    fn default() -> (r: Self)
        ensures
            r == DefaultRootfsManager,
    {
        DefaultRootfsManager
    }
}

/// The capabilities that a container process keeps.
pub open spec fn capability_names() -> Seq<Seq<char>> {
    seq![
        "CAP_CHOWN"@,
        "CAP_DAC_OVERRIDE"@,
        "CAP_FSETID"@,
        "CAP_FOWNER"@,
        "CAP_MKNOD"@,
        "CAP_NET_RAW"@,
        "CAP_SETGID"@,
        "CAP_SETUID"@,
        "CAP_SETFCAP"@,
        "CAP_SETPCAP"@,
        "CAP_NET_BIND_SERVICE"@,
        "CAP_SYS_CHROOT"@,
        "CAP_KILL"@,
        "CAP_AUDIT_WRITE"@,
    ]
}

/// A variable of the environment as a process gets it.
pub open spec fn env_entry(p: Pair) -> Seq<char> {
    p.key@ + "="@ + p.value@
}

/// The environment of the container process: the search path, then the given variables.
pub open spec fn env_entries(vars: Seq<Pair>) -> Seq<Seq<char>> {
    seq!["PATH=/usr/local/sbin:/usr/local/bin:/usr/sbin:/usr/bin:/sbin:/bin"@] + vars.map_values(
        |p: Pair| env_entry(p),
    )
}

/// The arguments of the container process: the entry point, or a long sleep without one.
pub open spec fn process_args(entrypoint: Seq<Seq<char>>) -> Seq<Seq<char>> {
    if entrypoint.len() == 0 {
        seq!["sleep"@, "999999"@]
    } else {
        entrypoint
    }
}

/// The part of the configuration on capabilities.
pub open spec fn capabilities_view() -> JsonView {
    let all = JsonView::List(json::text_views(capability_names()));
    JsonView::Object(
        seq![
            ("bounding"@, all),
            ("effective"@, all),
            ("inheritable"@, JsonView::List(seq![])),
            ("permitted"@, all),
        ],
    )
}

/// The part of the configuration on the process.
pub open spec fn process_view(vars: Seq<Pair>, entrypoint: Seq<Seq<char>>) -> JsonView {
    JsonView::Object(
        seq![
            ("terminal"@, JsonView::Bool(false)),
            (
                "user"@,
                JsonView::Object(
                    seq![("uid"@, JsonView::Number(0)), ("gid"@, JsonView::Number(0))],
                ),
            ),
            ("args"@, JsonView::List(json::text_views(process_args(entrypoint)))),
            ("env"@, JsonView::List(json::text_views(env_entries(vars)))),
            ("cwd"@, JsonView::Text("/"@)),
            ("capabilities"@, capabilities_view()),
        ],
    )
}

/// A mount without options.
pub open spec fn plain_mount(destination: Seq<char>, kind: Seq<char>, source: Seq<char>) -> Seq<
    (Seq<char>, JsonView),
> {
    seq![
        ("destination"@, JsonView::Text(destination)),
        ("type"@, JsonView::Text(kind)),
        ("source"@, JsonView::Text(source)),
    ]
}

/// The part of the configuration on mounts.
pub open spec fn mounts_view() -> JsonView {
    JsonView::List(
        seq![
            JsonView::Object(plain_mount("/proc"@, "proc"@, "proc"@)),
            JsonView::Object(
                plain_mount("/dev"@, "tmpfs"@, "tmpfs"@).push(
                    (
                        "options"@,
                        JsonView::List(
                            json::text_views(
                                seq!["nosuid"@, "strictatime"@, "mode=755"@, "size=65536k"@],
                            ),
                        ),
                    ),
                ),
            ),
            JsonView::Object(
                plain_mount("/sys"@, "sysfs"@, "sysfs"@).push(
                    (
                        "options"@,
                        JsonView::List(json::text_views(seq!["nosuid"@, "noexec"@, "nodev"@])),
                    ),
                ),
            ),
        ],
    )
}

/// A namespace of the given type.
pub open spec fn namespace_view(kind: Seq<char>) -> JsonView {
    JsonView::Object(seq![("type"@, JsonView::Text(kind))])
}

/// The part of the configuration on Linux. There is no network namespace: the
/// container uses the network of the host.
pub open spec fn linux_view() -> JsonView {
    JsonView::Object(
        seq![
            (
                "namespaces"@,
                JsonView::List(
                    seq![
                        namespace_view("pid"@),
                        namespace_view("ipc"@),
                        namespace_view("uts"@),
                        namespace_view("mount"@),
                    ],
                ),
            ),
            (
                "resources"@,
                JsonView::Object(
                    seq![
                        (
                            "devices"@,
                            JsonView::List(
                                seq![
                                    JsonView::Object(
                                        seq![
                                            ("allow"@, JsonView::Bool(false)),
                                            ("access"@, JsonView::Text("rwm"@)),
                                        ],
                                    ),
                                ],
                            ),
                        ),
                    ],
                ),
            ),
        ],
    )
}

/// The configuration of a bundle.
pub open spec fn oci_config_view(
    sandbox_id: Seq<char>,
    vars: Seq<Pair>,
    entrypoint: Seq<Seq<char>>,
) -> JsonView {
    JsonView::Object(
        seq![
            ("ociVersion"@, JsonView::Text("1.0.2"@)),
            ("process"@, process_view(vars, entrypoint)),
            (
                "root"@,
                JsonView::Object(
                    seq![
                        ("path"@, JsonView::Text("rootfs"@)),
                        ("readonly"@, JsonView::Bool(false)),
                    ],
                ),
            ),
            ("hostname"@, JsonView::Text("sandbox-"@ + sandbox_id)),
            ("mounts"@, mounts_view()),
            ("linux"@, linux_view()),
        ],
    )
}

/// A list of text literals.
fn literals(v: &[&str]) -> (r: Json)
    ensures
        r@ == JsonView::List(json::text_views(v@.map_values(|s: &str| s@))),
{
    let mut out: Vec<Json> = Vec::new();
    let mut i: usize = 0;
    while i < v.len()
        invariant
            i <= v@.len(),
            out@.len() == i,
            forall|j: int| 0 <= j < i ==> (#[trigger] out@[j])@ == JsonView::Text(v@[j]@),
        decreases v@.len() - i,
    {
        out.push(text(v[i]));
        i = i + 1;
    }
    assert(crate::json::json_views(out@) =~= json::text_views(v@.map_values(|s: &str| s@)));
    list(out)
}

fn capability_list() -> (r: Json)
    ensures
        r@ == JsonView::List(json::text_views(capability_names())),
        r@->List_0.len() == 14,
        r@->List_0[0] == JsonView::Text("CAP_CHOWN"@),
        r@->List_0[1] == JsonView::Text("CAP_DAC_OVERRIDE"@),
        r@->List_0[2] == JsonView::Text("CAP_FSETID"@),
        r@->List_0[3] == JsonView::Text("CAP_FOWNER"@),
        r@->List_0[4] == JsonView::Text("CAP_MKNOD"@),
        r@->List_0[5] == JsonView::Text("CAP_NET_RAW"@),
        r@->List_0[6] == JsonView::Text("CAP_SETGID"@),
        r@->List_0[7] == JsonView::Text("CAP_SETUID"@),
        r@->List_0[8] == JsonView::Text("CAP_SETFCAP"@),
        r@->List_0[9] == JsonView::Text("CAP_SETPCAP"@),
        r@->List_0[10] == JsonView::Text("CAP_NET_BIND_SERVICE"@),
        r@->List_0[11] == JsonView::Text("CAP_SYS_CHROOT"@),
        r@->List_0[12] == JsonView::Text("CAP_KILL"@),
        r@->List_0[13] == JsonView::Text("CAP_AUDIT_WRITE"@),
{
    let names = [
        "CAP_CHOWN",
        "CAP_DAC_OVERRIDE",
        "CAP_FSETID",
        "CAP_FOWNER",
        "CAP_MKNOD",
        "CAP_NET_RAW",
        "CAP_SETGID",
        "CAP_SETUID",
        "CAP_SETFCAP",
        "CAP_SETPCAP",
        "CAP_NET_BIND_SERVICE",
        "CAP_SYS_CHROOT",
        "CAP_KILL",
        "CAP_AUDIT_WRITE",
    ];
    assert(names@.map_values(|s: &str| s@) =~= capability_names());
    literals(names.as_slice())
}

fn capabilities() -> (r: Json)
    ensures
        r@ == capabilities_view(),
        ({
            let members = r@->Object_0;
            &&& r@ is Object && members.len() == 4
            &&& members[0].0 == "bounding"@ && members[0].1->List_0.len() == 14
            &&& members[1].0 == "effective"@ && members[1].1 == members[0].1
            &&& members[2].0 == "inheritable"@ && members[2].1->List_0.len() == 0
            &&& members[3].0 == "permitted"@ && members[3].1 == members[0].1
        }),
{
    let members = vec![
        member("bounding", capability_list()),
        member("effective", capability_list()),
        member("inheritable", list(Vec::new())),
        member("permitted", capability_list()),
    ];
    proof {
        assert(crate::json::json_views(Seq::<Json>::empty()) =~= seq![]);
        assert(crate::json::member_views(members@) =~= capabilities_view()->Object_0);
    }
    object(members)
}

/// The environment entries for the container process.
fn env_list(vars: &Vec<Pair>) -> (r: Vec<String>)
    ensures
        text::texts(r@) == env_entries(vars@),
{
    let mut out: Vec<String> = Vec::new();
    out.push("PATH=/usr/local/sbin:/usr/local/bin:/usr/sbin:/usr/bin:/sbin:/bin".to_owned());
    let mut i: usize = 0;
    while i < vars.len()
        invariant
            i <= vars@.len(),
            out@.len() == i + 1,
            out@[0]@ == "PATH=/usr/local/sbin:/usr/local/bin:/usr/sbin:/usr/bin:/sbin:/bin"@,
            forall|j: int| 0 <= j < i ==> (#[trigger] out@[j + 1])@ == env_entry(vars@[j]),
        decreases vars@.len() - i,
    {
        out.push(concat3(vars[i].key.as_str(), "=", vars[i].value.as_str()));
        i = i + 1;
    }
    assert(text::texts(out@) =~= env_entries(vars@)) by {
        assert forall|k: int| 0 <= k < out@.len() implies text::texts(out@)[k] == env_entries(
            vars@,
        )[k] by {
            if k > 0 {
                assert(out@[(k - 1) + 1]@ == env_entry(vars@[k - 1]));
            }
        }
    }
    out
}

fn process(vars: &Vec<Pair>, entrypoint: &Vec<String>) -> (r: Json)
    ensures
        r@ == process_view(vars@, text::texts(entrypoint@)),
        ({
            let members = r@->Object_0;
            &&& r@ is Object && members.len() == 6
            &&& members[1].0 == "user"@ && members[1].1->Object_0 == seq![
                ("uid"@, JsonView::Number(0)),
                ("gid"@, JsonView::Number(0)),
            ]
            &&& members[5].0 == "capabilities"@ && members[5].1->Object_0.len() == 4
        }),
{
    let args: Vec<String> = if entrypoint.len() == 0 {
        let v = vec!["sleep".to_owned(), "999999".to_owned()];
        assert(text::texts(v@) =~= process_args(text::texts(entrypoint@)));
        v
    } else {
        clone_strings(entrypoint)
    };
    let user = object(vec![member("uid", Json::Number(0)), member("gid", Json::Number(0))]);
    let members = vec![
        member("terminal", Json::Bool(false)),
        member("user", user),
        member("args", text_list(&args)),
        member("env", text_list(&env_list(vars))),
        member("cwd", text("/")),
        member("capabilities", capabilities()),
    ];
    proof {
        let view = process_view(vars@, text::texts(entrypoint@))->Object_0;
        assert(user@->Object_0 =~= view[1].1->Object_0);
        assert(crate::json::member_views(members@) =~= view);
    }
    object(members)
}

fn mount(destination: &str, kind: &str, source: &str, options: &[&str]) -> (r: Json)
    ensures
        r@ == JsonView::Object(
            if options@.len() == 0 {
                plain_mount(destination@, kind@, source@)
            } else {
                plain_mount(destination@, kind@, source@).push(
                    (
                        "options"@,
                        JsonView::List(json::text_views(options@.map_values(|s: &str| s@))),
                    ),
                )
            },
        ),
{
    let mut members = vec![
        member("destination", text(destination)),
        member("type", text(kind)),
        member("source", text(source)),
    ];
    let ghost plain = members@;
    assert(crate::json::member_views(plain) =~= plain_mount(destination@, kind@, source@));
    if options.len() > 0 {
        members.push(member("options", literals(options)));
        assert(crate::json::member_views(members@) =~= plain_mount(
            destination@,
            kind@,
            source@,
        ).push(
            ("options"@, JsonView::List(json::text_views(options@.map_values(|s: &str| s@)))),
        ));
    }
    object(members)
}

fn mounts() -> (r: Json)
    ensures
        r@ == mounts_view(),
        ({
            let all = r@->List_0;
            let dev = all[1]->Object_0;
            let sys = all[2]->Object_0;
            &&& all.len() == 3
            &&& all[0]->Object_0 == seq![
                ("destination"@, JsonView::Text("/proc"@)),
                ("type"@, JsonView::Text("proc"@)),
                ("source"@, JsonView::Text("proc"@)),
            ]
            &&& dev.len() == 4 && dev[1] == ("type"@, JsonView::Text("tmpfs"@)) && dev[2] == (
                "source"@,
                JsonView::Text("tmpfs"@),
            )
            &&& dev[3].0 == "options"@ && dev[3].1->List_0 == seq![
                JsonView::Text("nosuid"@),
                JsonView::Text("strictatime"@),
                JsonView::Text("mode=755"@),
                JsonView::Text("size=65536k"@),
            ]
            &&& sys.len() == 4 && sys[1] == ("type"@, JsonView::Text("sysfs"@)) && sys[2] == (
                "source"@,
                JsonView::Text("sysfs"@),
            )
            &&& sys[3].0 == "options"@ && sys[3].1->List_0 == seq![
                JsonView::Text("nosuid"@),
                JsonView::Text("noexec"@),
                JsonView::Text("nodev"@),
            ]
        }),
{
    let dev = ["nosuid", "strictatime", "mode=755", "size=65536k"];
    let sys = ["nosuid", "noexec", "nodev"];
    let none: [&str; 0] = [];
    assert(dev@.map_values(|s: &str| s@) =~= seq![
        "nosuid"@,
        "strictatime"@,
        "mode=755"@,
        "size=65536k"@,
    ]);
    assert(sys@.map_values(|s: &str| s@) =~= seq!["nosuid"@, "noexec"@, "nodev"@]);
    let items = vec![
        mount("/proc", "proc", "proc", none.as_slice()),
        mount("/dev", "tmpfs", "tmpfs", dev.as_slice()),
        mount("/sys", "sysfs", "sysfs", sys.as_slice()),
    ];
    assert(crate::json::json_views(items@) =~= mounts_view()->List_0);
    list(items)
}

fn namespace(kind: &str) -> (r: Json)
    ensures
        r@ == namespace_view(kind@),
{
    let members = vec![member("type", text(kind))];
    assert(crate::json::member_views(members@) =~= namespace_view(kind@)->Object_0);
    object(members)
}

fn linux() -> (r: Json)
    ensures
        r@ == linux_view(),
        ({
            let members = r@->Object_0;
            let devices = members[1].1->Object_0[0];
            &&& r@ is Object && members.len() == 2
            &&& members[0].0 == "namespaces"@ && members[1].0 == "resources"@
            &&& members[1].1->Object_0.len() == 1 && devices.0 == "devices"@
            &&& devices.1->List_0.len() == 1 && devices.1->List_0[0]->Object_0 == seq![
                ("allow"@, JsonView::Bool(false)),
                ("access"@, JsonView::Text("rwm"@)),
            ]
        }),
{
    let namespaces = list(
        vec![namespace("pid"), namespace("ipc"), namespace("uts"), namespace("mount")],
    );
    let device = object(
        vec![member("allow", Json::Bool(false)), member("access", text("rwm"))],
    );
    let devices = list(vec![device]);
    let resources = object(vec![member("devices", devices)]);
    let members = vec![member("namespaces", namespaces), member("resources", resources)];
    proof {
        let view = linux_view()->Object_0;
        let devices_view = view[1].1->Object_0[0].1;
        assert(namespaces@->List_0 =~= view[0].1->List_0);
        assert(device@->Object_0 =~= devices_view->List_0[0]->Object_0);
        assert(devices@->List_0 =~= devices_view->List_0);
        assert(resources@->Object_0 =~= view[1].1->Object_0);
        assert(crate::json::member_views(members@) =~= view);
    }
    object(members)
}

/// What to do with an entry of a directory that is copied.
#[derive(Debug, Clone, Copy, PartialEq, Eq, Structural)]
pub enum CopyAction {
    /// Create the directory and copy what is in it.
    Descend,
    /// Copy the content of the file that the link leads to.
    CopyTarget,
    /// Copy the file.
    CopyFile,
}

/// Where the root file system of a bundle lies.
pub open spec fn rootfs_path(bundle_dir: Seq<char>) -> Seq<char> {
    text::joined_path(bundle_dir, "rootfs"@)
}

impl DefaultRootfsManager {
    /// The manager.
    pub fn new() -> (r: Self)
        ensures
            r == DefaultRootfsManager,
    {
        DefaultRootfsManager
    }

    /// The configuration of a bundle for a sandbox.
    pub fn generate_oci_config(
        &self,
        sandbox_id: &str,
        env_vars: &Vec<Pair>,
        entrypoint: &Vec<String>,
    ) -> (r: Json)
        ensures
            r@ == oci_config_view(sandbox_id@, env_vars@, text::texts(entrypoint@)),
            ({
                let members = r@->Object_0;
                let process = members[1].1->Object_0;
                let args = process[2].1->List_0;
                let env = process[3].1->List_0;
                let mounts = members[4].1->List_0;
                let namespaces = members[5].1->Object_0[0].1->List_0;
                &&& r@ is Object && members.len() == 6
                &&& members[0] == ("ociVersion"@, JsonView::Text("1.0.2"@))
                &&& members[1].0 == "process"@ && process[0] == ("terminal"@, JsonView::Bool(false))
                &&& process[2].0 == "args"@ && process[3].0 == "env"@
                &&& process[4] == ("cwd"@, JsonView::Text("/"@))
                &&& entrypoint@.len() > 0 ==> args.len() == entrypoint@.len() && forall|i: int|
                    0 <= i < entrypoint@.len() ==> #[trigger] args[i] == JsonView::Text(
                        entrypoint@[i]@,
                    )
                &&& entrypoint@.len() == 0 ==> args == seq![
                    JsonView::Text("sleep"@),
                    JsonView::Text("999999"@),
                ]
                &&& env.len() == env_vars@.len() + 1
                &&& env[0] == JsonView::Text(
                    "PATH=/usr/local/sbin:/usr/local/bin:/usr/sbin:/usr/bin:/sbin:/bin"@,
                )
                &&& forall|i: int|
                    0 <= i < env_vars@.len() ==> #[trigger] env[i + 1] == JsonView::Text(
                        env_vars@[i].key@ + "="@ + env_vars@[i].value@,
                    )
                &&& members[2].0 == "root"@ && members[2].1->Object_0 == seq![
                    ("path"@, JsonView::Text("rootfs"@)),
                    ("readonly"@, JsonView::Bool(false)),
                ]
                &&& members[3] == ("hostname"@, JsonView::Text("sandbox-"@ + sandbox_id@))
                &&& members[4].0 == "mounts"@ && mounts.len() == 3
                &&& mounts[0]->Object_0[0] == ("destination"@, JsonView::Text("/proc"@))
                &&& mounts[1]->Object_0[0] == ("destination"@, JsonView::Text("/dev"@))
                &&& mounts[2]->Object_0[0] == ("destination"@, JsonView::Text("/sys"@))
                &&& members[5].0 == "linux"@ && namespaces.len() == 4
                &&& namespaces[0]->Object_0[0] == ("type"@, JsonView::Text("pid"@))
                &&& namespaces[1]->Object_0[0] == ("type"@, JsonView::Text("ipc"@))
                &&& namespaces[2]->Object_0[0] == ("type"@, JsonView::Text("uts"@))
                &&& namespaces[3]->Object_0[0] == ("type"@, JsonView::Text("mount"@))
            }),
    {
        let hostname = concat2("sandbox-", sandbox_id);
        let root = object(
            vec![member("path", text("rootfs")), member("readonly", Json::Bool(false))],
        );
        let members = vec![
            member("ociVersion", text("1.0.2")),
            member("process", process(env_vars, entrypoint)),
            member("root", root),
            member("hostname", text(hostname.as_str())),
            member("mounts", mounts()),
            member("linux", linux()),
        ];
        proof {
            let view = oci_config_view(sandbox_id@, env_vars@, text::texts(entrypoint@))->Object_0;
            assert(root@->Object_0 =~= view[2].1->Object_0);
            assert(crate::json::member_views(members@) =~= view);
            let args = view[1].1->Object_0[2].1->List_0;
            let env = view[1].1->Object_0[3].1->List_0;
            assert(args == json::text_views(process_args(text::texts(entrypoint@))));
            assert(env == json::text_views(env_entries(env_vars@)));
            if entrypoint@.len() == 0 {
                assert(args =~= seq![JsonView::Text("sleep"@), JsonView::Text("999999"@)]);
            }
            assert forall|i: int| 0 <= i < env_vars@.len() implies #[trigger] env[i + 1]
                == JsonView::Text(env_vars@[i].key@ + "="@ + env_vars@[i].value@) by {
                assert(env_entries(env_vars@)[i + 1] == env_entry(env_vars@[i]));
            }
        }
        object(members)
    }

    /// Where the root file system of a bundle lies.
    pub fn rootfs_dir(bundle_dir: &str) -> (r: String)
        ensures
            r@ == rootfs_path(bundle_dir@),
            r@ == text::joined_path(bundle_dir@, "rootfs"@),
    {
        join_path(bundle_dir, "rootfs")
    }

    /// Where the worker goes in a bundle.
    pub fn worker_destination(bundle_dir: &str) -> (r: String)
        ensures
            r@ == text::joined_path(rootfs_path(bundle_dir@), "usr/local/bin/bastion-worker"@),
    {
        join_path(Self::rootfs_dir(bundle_dir).as_str(), "usr/local/bin/bastion-worker")
    }

    /// Where the workspace of the worker lies in a bundle.
    pub fn workspace_dir(bundle_dir: &str) -> (r: String)
        ensures
            r@ == text::joined_path(rootfs_path(bundle_dir@), "workspace"@),
    {
        join_path(Self::rootfs_dir(bundle_dir).as_str(), "workspace")
    }

    /// Where the configuration of a bundle goes.
    pub fn config_path(bundle_dir: &str) -> (r: String)
        ensures
            r@ == text::joined_path(bundle_dir@, "config.json"@),
    {
        join_path(bundle_dir, "config.json")
    }

    /// The permissions of a file after everyone may execute it.
    pub fn executable_mode(mode: u32) -> (r: u32)
        ensures
            r == mode | 0o111,
            r & 0o111 == 0o111,
            r & !0o111u32 == mode & !0o111u32,
    {
        assert((mode | 0o111) & 0o111 == 0o111) by (bit_vector);
        assert((mode | 0o111) & !0o111u32 == mode & !0o111u32) by (bit_vector);
        mode | 0o111
    }

    /// What to do with an entry of a directory that is copied.
    pub fn copy_action(is_dir: bool, is_symlink: bool) -> (r: CopyAction)
        ensures
            r == (if is_dir {
                CopyAction::Descend
            } else if is_symlink {
                CopyAction::CopyTarget
            } else {
                CopyAction::CopyFile
            }),
    {
        if is_dir {
            CopyAction::Descend
        } else if is_symlink {
            CopyAction::CopyTarget
        } else {
            CopyAction::CopyFile
        }
    }
}

} // verus!
