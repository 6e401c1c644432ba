//! The TAP backend: each sandbox gets a device of its own on the host.
use vstd::prelude::*;

use crate::domain::{DomainError, DomainErrorView};
use crate::provider::network::{NetworkConfig, NetworkKind};
use crate::text;
use crate::text::{
    chars_of, concat2, concat3, concat5, contains, decimal_string, replace_char, string_of,
};

verus! {

/// The greatest length of the name of a network device.
pub const MAX_DEVICE_NAME: usize = 15;

/// Gives each sandbox a TAP device.
#[derive(Debug)]
pub struct TapBackend {
    gateway_ip: String,
    subnet_mask: u8,
}

/// The first characters of a text, no more than there are.
pub open spec fn first_chars(s: Seq<char>, n: int) -> Seq<char> {
    if s.len() <= n {
        s
    } else {
        s.take(n)
    }
}

/// The name of the device of a sandbox: a prefix and the id with dashes in place of
/// underscores, cut to the length that a device name may have.
pub open spec fn device_name(id: Seq<char>) -> Seq<char> {
    first_chars("tap-"@ + text::replaced(id, '_', "-"@), MAX_DEVICE_NAME as int)
}

/// Whether a character may stand in the name of a device.
pub open spec fn device_char(c: char) -> bool {
    ('a' <= c && c <= 'z') || ('A' <= c && c <= 'Z') || ('0' <= c && c <= '9') || c == '-'
}

/// Whether a text is the name of a device: not too long, of letters, digits and dashes.
pub open spec fn is_device_name(name: Seq<char>) -> bool {
    name.len() <= MAX_DEVICE_NAME && forall|i: int| 0 <= i < name.len() ==> device_char(#[trigger] name[i])
}

/// The message about a name that no device can have.
pub open spec fn device_name_message(name: Seq<char>) -> Seq<char> {
    "Invalid TAP device name: "@ + name
        + " (must be ≤15 chars, alphanumeric/dash/underscore only)"@
}

/// The part of a text up to its last dot, with the dot; nothing where there is none.
pub open spec fn up_to_last_dot(s: Seq<char>) -> Seq<char>
    decreases s.len(),
{
    if s.len() == 0 || s.last() == '.' {
        s
    } else {
        up_to_last_dot(s.drop_last())
    }
}

/// What came of the attempt to create a device.
#[derive(Debug)]
pub enum TapOutcome {
    Created,
    /// The command ran and failed, with this on its error output.
    Refused(String),
    /// The command could not be run.
    NotRun(String),
}

/// The error of an attempt to create a device, if it is one. A device that is there
/// already is as good as a new one.
pub open spec fn tap_error(name: Seq<char>, outcome: TapOutcome) -> Option<DomainErrorView> {
    match outcome {
        TapOutcome::Created => None,
        TapOutcome::Refused(stderr) => if text::contains_text(stderr@, "File exists"@) {
            None
        } else {
            Some(
                DomainErrorView::Internal(
                    "Failed to create TAP device '"@ + name + "': "@ + stderr@,
                ),
            )
        },
        TapOutcome::NotRun(e) => Some(
            DomainErrorView::Internal("Failed to create TAP device: "@ + e@),
        ),
    }
}

impl TapBackend {
    /// The address of the host in the network of the devices.
    pub closed spec fn gateway(self) -> Seq<char> {
        self.gateway_ip@
    }

    /// The length of the network prefix.
    pub closed spec fn mask(self) -> u8 {
        self.subnet_mask
    }

    /// A backend whose devices get the given address on the host.
    pub fn new(gateway_ip: String, subnet_mask: u8) -> (r: TapBackend)
        ensures
            r.gateway() == gateway_ip@,
            r.mask() == subnet_mask,
    {
        TapBackend { gateway_ip, subnet_mask }
    }

    /// The name of the device of a sandbox.
    pub fn tap_name_for_sandbox(&self, sandbox_id: &str) -> (r: String)
        ensures
            r@ == device_name(sandbox_id@),
            r@.len() <= 15,
            r@.len() == 15 || r@.len() == 4 + sandbox_id@.len(),
            text::has_prefix(r@, "tap-"@),
            forall|i: int|
                4 <= i < r@.len() ==> #[trigger] r@[i] == if sandbox_id@[i - 4] == '_' {
                    '-'
                } else {
                    sandbox_id@[i - 4]
                },
    {
        proof {
            reveal_strlit("tap-");
            lemma_dashes_one_for_one(sandbox_id@);
        }
        let dashed = replace_char(sandbox_id, '_', "-");
        let full = concat2("tap-", dashed.as_str());
        let mut cs = chars_of(full.as_str());
        if cs.len() > MAX_DEVICE_NAME {
            cs.truncate(MAX_DEVICE_NAME);
        }
        assert(cs@ =~= device_name(sandbox_id@));
        proof {
            assert(cs@.take(4) =~= "tap-"@);
            assert forall|i: int| 4 <= i < cs@.len() implies #[trigger] cs@[i]
                == if sandbox_id@[i - 4] == '_' {
                '-'
            } else {
                sandbox_id@[i - 4]
            } by {
                assert(cs@[i] == dashed@[i - 4]);
            }
        }
        string_of(cs.as_slice())
    }

    /// Whether a text is the name of a device.
    pub fn tap_name_valid(name: &str) -> (r: bool)
        ensures
            r == is_device_name(name@),
            r <==> name@.len() <= 15 && forall|i: int|
                0 <= i < name@.len() ==> {
                    let c = #[trigger] name@[i];
                    'a' <= c <= 'z' || 'A' <= c <= 'Z' || '0' <= c <= '9' || c == '-'
                },
    {
        let cs = chars_of(name);
        if cs.len() > MAX_DEVICE_NAME {
            return false;
        }
        let mut i: usize = 0;
        while i < cs.len()
            invariant
                i <= cs@.len(),
                cs@ == name@,
                forall|j: int| 0 <= j < i ==> device_char(#[trigger] name@[j]),
            decreases cs@.len() - i,
        {
            let c = cs[i];
            assert(c == name@[i as int]);
            if !(('a' <= c && c <= 'z') || ('A' <= c && c <= 'Z') || ('0' <= c && c <= '9') || c
                == '-') {
                assert(!device_char(name@[i as int]));
                return false;
            }
            i = i + 1;
        }
        true
    }

    /// The name of the device of a sandbox, where a device can have it.
    pub fn device_for(&self, sandbox_id: &str) -> (r: Result<String, DomainError>)
        ensures
            match r {
                Ok(name) => name@ == device_name(sandbox_id@) && is_device_name(name@),
                Err(e) => !is_device_name(device_name(sandbox_id@)) && e@
                    == DomainErrorView::Validation(
                    device_name_message(device_name(sandbox_id@)),
                ),
            },
            r is Err ==> r->Err_0@ == DomainErrorView::Validation(
                "Invalid TAP device name: "@ + device_name(sandbox_id@)
                    + " (must be ≤15 chars, alphanumeric/dash/underscore only)"@,
            ),
    {
        let name = self.tap_name_for_sandbox(sandbox_id);
        if Self::tap_name_valid(name.as_str()) {
            Ok(name)
        } else {
            Err(
                DomainError::Validation(
                    concat3(
                        "Invalid TAP device name: ",
                        name.as_str(),
                        " (must be ≤15 chars, alphanumeric/dash/underscore only)",
                    ),
                ),
            )
        }
    }

    /// The arguments of `ip` that create a device.
    pub fn create_args(name: &str) -> (r: Vec<String>)
        ensures
            text::texts(r@) == seq!["tuntap"@, "add"@, "dev"@, name@, "mode"@, "tap"@],
    {
        let v = vec![
            "tuntap".to_owned(),
            "add".to_owned(),
            "dev".to_owned(),
            name.to_owned(),
            "mode".to_owned(),
            "tap".to_owned(),
        ];
        assert(text::texts(v@) =~= seq!["tuntap"@, "add"@, "dev"@, name@, "mode"@, "tap"@]);
        v
    }

    /// The arguments of `ip` that delete a device.
    pub fn delete_args(name: &str) -> (r: Vec<String>)
        ensures
            text::texts(r@) == seq!["tuntap"@, "del"@, "dev"@, name@, "mode"@, "tap"@],
    {
        let v = vec![
            "tuntap".to_owned(),
            "del".to_owned(),
            "dev".to_owned(),
            name.to_owned(),
            "mode".to_owned(),
            "tap".to_owned(),
        ];
        assert(text::texts(v@) =~= seq!["tuntap"@, "del"@, "dev"@, name@, "mode"@, "tap"@]);
        v
    }

    /// The arguments of `ip` that switch a device on or off.
    pub fn link_args(name: &str, up: bool) -> (r: Vec<String>)
        ensures
            text::texts(r@) == seq![
                "link"@,
                "set"@,
                name@,
                if up {
                    "up"@
                } else {
                    "down"@
                },
            ],
    {
        let state: &str = if up {
            "up"
        } else {
            "down"
        };
        let v = vec!["link".to_owned(), "set".to_owned(), name.to_owned(), state.to_owned()];
        assert(text::texts(v@) =~= seq!["link"@, "set"@, name@, state@]);
        v
    }

    /// The arguments of `ip` that give a device the address of the host.
    pub fn address_args(&self, name: &str) -> (r: Vec<String>)
        ensures
            text::texts(r@) == seq![
                "addr"@,
                "add"@,
                self.gateway() + "/"@ + text::decimal(self.mask() as nat),
                "dev"@,
                name@,
            ],
    {
        let mask = decimal_string(self.subnet_mask as u64);
        let address = concat3(self.gateway_ip.as_str(), "/", mask.as_str());
        let v = vec![
            "addr".to_owned(),
            "add".to_owned(),
            address,
            "dev".to_owned(),
            name.to_owned(),
        ];
        assert(text::texts(v@) =~= seq![
            "addr"@,
            "add"@,
            self.gateway() + "/"@ + text::decimal(self.mask() as nat),
            "dev"@,
            name@,
        ]);
        v
    }

    /// The connection of a sandbox, given what came of the attempt to create its device. The
    /// guest has the address of the gateway with 2 as its last number: `10.0.2.2` beside the
    /// gateway `10.0.2.1`. On purpose one dot stands before that number, as an address with an
    /// empty part would be none.
    pub fn setup(&self, name: String, outcome: TapOutcome) -> (r: Result<
        NetworkConfig,
        DomainError,
    >)
        ensures
            match r {
                Ok(c) => {
                    &&& tap_error(name@, outcome) is None
                    &&& c.interface_name == name
                    &&& c.guest_ip@ == up_to_last_dot(self.gateway()) + "2"@
                    &&& c.gateway_ip@ == self.gateway()
                    &&& c.subnet_mask == self.mask()
                },
                Err(e) => tap_error(name@, outcome) == Some(e@),
            },
            outcome is Created ==> r is Ok,
            outcome matches TapOutcome::Refused(stderr) ==> (r is Ok <==> text::contains_text(
                stderr@,
                "File exists"@,
            )),
            outcome matches TapOutcome::Refused(stderr) ==> r is Err ==> r->Err_0@
                == DomainErrorView::Internal(
                "Failed to create TAP device '"@ + name@ + "': "@ + stderr@,
            ),
            outcome matches TapOutcome::NotRun(e) ==> r is Err && r->Err_0@
                == DomainErrorView::Internal("Failed to create TAP device: "@ + e@),
    {
        match outcome {
            TapOutcome::Created => {},
            TapOutcome::Refused(stderr) => {
                if !contains(stderr.as_str(), "File exists") {
                    let message = concat5(
                        "Failed to create TAP device '",
                        name.as_str(),
                        "': ",
                        stderr.as_str(),
                        "",
                    );
                    proof {
                        reveal_strlit("");
                        assert(message@ =~= "Failed to create TAP device '"@ + name@ + "': "@
                            + stderr@);
                    }
                    return Err(DomainError::Internal(message));
                }
            },
            TapOutcome::NotRun(e) => {
                return Err(
                    DomainError::Internal(concat2("Failed to create TAP device: ", e.as_str())),
                );
            },
        }
        let network = prefix_to_last_dot(self.gateway_ip.as_str());
        Ok(
            NetworkConfig {
                interface_name: name,
                guest_ip: concat2(network.as_str(), "2"),
                gateway_ip: self.gateway_ip.clone(),
                subnet_mask: self.subnet_mask,
            },
        )
    }

    /// What the backend connects sandboxes with.
    pub fn kind(&self) -> (r: NetworkKind)
        ensures
            r == NetworkKind::Tap,
    {
        NetworkKind::Tap
    }
}

fn prefix_to_last_dot(s: &str) -> (r: String)
    ensures
        r@ == up_to_last_dot(s@),
{
    let cs = chars_of(s);
    let mut to: usize = cs.len();
    assert(cs@.take(to as int) =~= s@);
    while to > 0 && cs[to - 1] != '.'
        invariant
            to <= cs@.len(),
            up_to_last_dot(cs@.take(to as int)) == up_to_last_dot(s@),
        decreases to,
    {
        assert(cs@.take(to as int).drop_last() =~= cs@.take(to - 1));
        to = to - 1;
    }
    let mut head = cs;
    head.truncate(to);
    assert(head@ =~= cs@.take(to as int));
    string_of(head.as_slice())
}

/// Whether the characters of an id may stand in the name of a device, underscores aside.
pub open spec fn plain_id(id: Seq<char>) -> bool {
    forall|i: int| 0 <= i < id.len() ==> device_char(#[trigger] id[i]) || id[i] == '_'
}

proof fn lemma_dashed(id: Seq<char>)
    requires
        plain_id(id),
    ensures
        forall|i: int|
            0 <= i < text::replaced(id, '_', "-"@).len() ==> device_char(
                #[trigger] text::replaced(id, '_', "-"@)[i],
            ),
    decreases id.len(),
{
    reveal_strlit("-");
    if id.len() > 0 {
        assert forall|i: int| 0 <= i < id.drop_last().len() implies device_char(
            #[trigger] id.drop_last()[i],
        ) || id.drop_last()[i] == '_' by {
            assert(id.drop_last()[i] == id[i]);
        }
        lemma_dashed(id.drop_last());
        assert(device_char(id[id.len() - 1]) || id[id.len() - 1] == '_');
        let before = text::replaced(id.drop_last(), '_', "-"@);
        let all = text::replaced(id, '_', "-"@);
        assert forall|i: int| 0 <= i < all.len() implies device_char(#[trigger] all[i]) by {
            if i < before.len() {
                assert(all[i] == before[i]);
            }
        }
    }
}

/// Every id of letters, digits, dashes and underscores gives a name that a device can
/// have, however long the id is.
pub proof fn law_plain_ids_give_device_names(id: Seq<char>)
    requires
        plain_id(id),
    ensures
        is_device_name(device_name(id)),
{
    reveal_strlit("tap-");
    lemma_dashed(id);
    let full = "tap-"@ + text::replaced(id, '_', "-"@);
    let name = device_name(id);
    assert forall|i: int| 0 <= i < name.len() implies device_char(#[trigger] name[i]) by {
        assert(name[i] == full[i]);
        if i >= 4 {
            assert(full[i] == text::replaced(id, '_', "-"@)[i - 4]);
        }
    }
}

proof fn lemma_dashes_one_for_one(id: Seq<char>)
    ensures
        text::replaced(id, '_', "-"@).len() == id.len(),
        forall|i: int|
            0 <= i < id.len() ==> #[trigger] text::replaced(id, '_', "-"@)[i] == if id[i] == '_' {
                '-'
            } else {
                id[i]
            },
    decreases id.len(),
{
    reveal_strlit("-");
    if id.len() > 0 {
        let front = id.drop_last();
        lemma_dashes_one_for_one(front);
        let before = text::replaced(front, '_', "-"@);
        let all = text::replaced(id, '_', "-"@);
        assert forall|i: int| 0 <= i < id.len() implies #[trigger] all[i] == if id[i] == '_' {
            '-'
        } else {
            id[i]
        } by {
            if i < front.len() {
                assert(all[i] == before[i]);
                assert(front[i] == id[i]);
            }
        }
    }
}

/// The guest of a network has the address of the gateway up to its last dot, that dot and the
/// number behind it: whatever stands behind the last dot of the gateway is left out.
pub proof fn law_guest_shares_the_network(network: Seq<char>, host: Seq<char>)
    requires
        !host.contains('.'),
    ensures
        up_to_last_dot(network + seq!['.'] + host) == network + seq!['.'],
        up_to_last_dot(host).len() == 0,
    decreases host.len(),
{
    let all = network + seq!['.'] + host;
    if host.len() == 0 {
        assert(all =~= network + seq!['.']);
    } else {
        let front = host.drop_last();
        assert(host.contains(host[host.len() - 1]));
        assert(!front.contains('.')) by {
            if front.contains('.') {
                let i = choose|i: int| 0 <= i < front.len() && front[i] == '.';
                assert(host[i] == '.');
            }
        }
        assert(all.drop_last() =~= network + seq!['.'] + front);
        assert(all.last() == host.last());
        law_guest_shares_the_network(network, front);
    }
}

} // verus!
