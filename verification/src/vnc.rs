use vstd::prelude::*;

use crate::text::clone_opt;

use crate::error::{is_bad_request, is_error, ApiError, ApiResult, ErrorKind};
use crate::numbers::{decimal_string, decimal_text};
use crate::ssh::safe_ssh_word;
use crate::text::{
    any_char, contains_control_char, contains_control_or_whitespace, control_pred, opt_view,
    starts_with_char, str_eq, trim, trim_optional, trim_optional_spec, trim_seq,
};

verus! {

/// The key of the VNC server of the machine the service runs on.
pub const LOCAL_TARGET_KEY: &'static str = "local-vnc";

pub const LOCAL_VNC_HOST: &'static str = "127.0.0.1";

pub const DEFAULT_VNC_PORT: u16 = 5900;

/// A VNC target as the API shows it.
#[derive(Debug)]
pub struct VncTargetRecord {
    pub key: String,
    pub name: String,
    pub target_type: String,
    pub host: String,
    pub port: u16,
    pub enabled: bool,
    pub requires_password: bool,
}

/// A configured remote VNC server.
#[derive(Debug)]
pub struct VncTargetConfig {
    pub key: String,
    pub name: String,
    pub host: String,
    pub port: Option<u16>,
    pub password: Option<String>,
    pub enabled: bool,
}

#[derive(Debug)]
pub struct CreateVncSessionParams {
    pub target_key: String,
}

#[derive(Debug)]
pub struct VncTicketRecord {
    pub ticket: String,
    pub expires_at: String,
    pub password: Option<String>,
}

#[derive(Debug)]
pub struct VncSessionRecord {
    pub id: String,
    pub target_key: String,
    pub target_name: String,
    pub target_type: String,
    pub host: String,
    pub port: u16,
    pub status: String,
    pub requires_password: bool,
    pub created_by: i32,
    pub created_at: String,
    pub updated_at: String,
}

/// What a ticket to attach a viewer grants.
#[derive(Debug)]
pub struct VncTicket {
    pub session_id: String,
    pub user_id: i32,
    pub operator: String,
    pub password: Option<String>,
}

/// A VNC target: the local server or a remote one.
#[derive(Debug)]
pub enum VncTarget {
    Local(VncTargetRecord),
    Remote(VncTargetConfig),
}

/// The local VNC server target.
pub fn local_target() -> (r: VncTargetRecord)
    ensures
        r.key@ == LOCAL_TARGET_KEY@,
        r.name@ == "本机 VNC"@,
        r.target_type@ == "local"@,
        r.host@ == LOCAL_VNC_HOST@,
        r.port == DEFAULT_VNC_PORT,
        r.enabled,
        !r.requires_password,
{
    VncTargetRecord {
        key: String::from_str(LOCAL_TARGET_KEY),
        name: String::from_str("本机 VNC"),
        target_type: String::from_str("local"),
        host: String::from_str(LOCAL_VNC_HOST),
        port: DEFAULT_VNC_PORT,
        enabled: true,
        requires_password: false,
    }
}

/// Why a configured VNC target is refused, once its texts are trimmed.
pub open spec fn remote_target_problem(t: VncTargetConfig) -> Option<Seq<char>> {
    let key = trim_seq(t.key@);
    let name = trim_seq(t.name@);
    let host = trim_seq(t.host@);
    if key.len() == 0 || name.len() == 0 || host.len() == 0 || !safe_ssh_word(key) || !safe_ssh_word(
        host,
    ) {
        Some("invalid vnc target configuration"@)
    } else if t.port == Some(0u16) {
        Some("invalid vnc target port"@)
    } else if match trim_optional_spec(opt_view(t.password)) {
        Some(p) => any_char(p, control_pred()),
        None => false,
    } {
        Some("invalid vnc password"@)
    } else {
        None
    }
}

/// Holds when `t` is `src` with its texts trimmed and a blank password
/// dropped.
pub open spec fn normalized_target(t: VncTargetConfig, src: VncTargetConfig) -> bool {
    &&& t.key@ == trim_seq(src.key@)
    &&& t.name@ == trim_seq(src.name@)
    &&& t.host@ == trim_seq(src.host@)
    &&& opt_view(t.password) == trim_optional_spec(opt_view(src.password))
    &&& t.port == src.port
    &&& t.enabled == src.enabled
}

/// A configured VNC target with its texts trimmed and a blank password
/// dropped, or why it is refused.
pub fn normalize_remote_target(target: VncTargetConfig) -> (r: ApiResult<VncTargetConfig>)
    ensures
        match r {
            Ok(t) => remote_target_problem(target) is None && normalized_target(t, target),
            Err(e) => remote_target_problem(target) matches Some(m) && is_bad_request(e, m),
        },
{
    let key = trim(target.key.as_str());
    let name = trim(target.name.as_str());
    let host = trim(target.host.as_str());
    let password = trim_optional(target.password);
    if key.as_str().is_empty() || name.as_str().is_empty() || host.as_str().is_empty()
        || contains_control_or_whitespace(key.as_str()) || contains_control_or_whitespace(
        host.as_str(),
    ) || starts_with_char(key.as_str(), '-') || starts_with_char(host.as_str(), '-') {
        return Err(ApiError::bad_request("invalid vnc target configuration"));
    }
    if target.port == Some(0u16) {
        return Err(ApiError::bad_request("invalid vnc target port"));
    }
    let bad_password = match &password {
        Some(p) => contains_control_char(p.as_str()),
        None => false,
    };
    if bad_password {
        return Err(ApiError::bad_request("invalid vnc password"));
    }
    Ok(VncTargetConfig { key, name, host, port: target.port, password, enabled: target.enabled })
}

/// The port a VNC connection uses: the configured one, or 5900.
pub open spec fn vnc_port(port: Option<u16>) -> u16 {
    match port {
        Some(p) => p,
        None => DEFAULT_VNC_PORT,
    }
}

/// Law: a remote VNC target is reached on its configured port, and on
/// 5900 only when none is set.
pub proof fn law_vnc_connects_to_configured_port()
    ensures
        forall|p: u16| #[trigger] vnc_port(Some(p)) == p,
        vnc_port(None) == 5900,
{
}

/// Holds when `r` is how the API shows `target`: the local server as it
/// is, a remote one as type "vnc" with its port defaulting to 5900 and a
/// password required when one is set.
pub open spec fn target_record_of(r: VncTargetRecord, target: VncTarget) -> bool {
    match target {
        VncTarget::Local(l) => r == l,
        VncTarget::Remote(t) => {
            &&& r.key == t.key && r.name == t.name
            &&& r.target_type@ == "vnc"@
            &&& r.host == t.host
            &&& r.port == vnc_port(t.port)
            &&& r.enabled == t.enabled
            &&& r.requires_password == t.password is Some
        },
    }
}

impl VncTarget {
    /// The target as the API shows it (see `target_record_of`).
    pub fn record(&self) -> (r: VncTargetRecord)
        ensures
            target_record_of(r, *self),
            self matches VncTarget::Remote(t) ==> {
                &&& (t.port matches Some(p) ==> r.port == p)
                &&& (t.port is None ==> r.port == 5900)
                &&& r.host == t.host
                &&& r.requires_password == t.password is Some
            },
    {
        proof {
            law_vnc_connects_to_configured_port();
        }
        match self {
            VncTarget::Local(l) => VncTargetRecord {
                key: l.key.clone(),
                name: l.name.clone(),
                target_type: l.target_type.clone(),
                host: l.host.clone(),
                port: l.port,
                enabled: l.enabled,
                requires_password: l.requires_password,
            },
            VncTarget::Remote(t) => VncTargetRecord {
                key: t.key.clone(),
                name: t.name.clone(),
                target_type: String::from_str("vnc"),
                host: t.host.clone(),
                port: match t.port {
                    Some(p) => p,
                    None => DEFAULT_VNC_PORT,
                },
                enabled: t.enabled,
                requires_password: t.password.is_some(),
            },
        }
    }

    /// The password a viewer needs: none for the local server.
    pub fn password(&self) -> (r: Option<String>)
        ensures
            r == match self {
                VncTarget::Local(_) => None,
                VncTarget::Remote(t) => t.password,
            },
    {
        match self {
            VncTarget::Local(_) => None,
            VncTarget::Remote(t) => clone_opt(&t.password),
        }
    }

    pub open spec fn key_of(&self) -> Seq<char> {
        match self {
            VncTarget::Local(l) => l.key@,
            VncTarget::Remote(t) => t.key@,
        }
    }
}

fn copy_target(t: &VncTargetConfig) -> (r: VncTargetConfig)
    ensures
        r == *t,
{
    VncTargetConfig {
        key: t.key.clone(),
        name: t.name.clone(),
        host: t.host.clone(),
        port: t.port,
        password: clone_opt(&t.password),
        enabled: t.enabled,
    }
}

/// The configured targets that are enabled, in order.
pub open spec fn enabled_targets(s: Seq<VncTargetConfig>) -> Seq<VncTargetConfig>
    decreases s.len(),
{
    if s.len() == 0 {
        s
    } else if s.last().enabled {
        enabled_targets(s.drop_last()).push(s.last())
    } else {
        enabled_targets(s.drop_last())
    }
}

/// The enabled targets of a concatenation are those of each part.
pub proof fn lemma_enabled_targets_append(a: Seq<VncTargetConfig>, b: Seq<VncTargetConfig>)
    ensures
        enabled_targets(a + b) == enabled_targets(a) + enabled_targets(b),
    decreases b.len(),
{
    if b.len() == 0 {
        assert(a + b =~= a);
        assert(enabled_targets(a) + enabled_targets(b) =~= enabled_targets(a));
    } else {
        lemma_enabled_targets_append(a, b.drop_last());
        assert((a + b).drop_last() =~= a + b.drop_last());
        assert((a + b).last() == b.last());
        if b.last().enabled {
            assert(enabled_targets(a) + enabled_targets(b) =~= (enabled_targets(a) + enabled_targets(
                b.drop_last(),
            )).push(b.last()));
        }
    }
}

/// The problem of the first target of `s` that is refused, if one is.
pub open spec fn first_target_problem(s: Seq<VncTargetConfig>) -> Option<Seq<char>>
    decreases s.len(),
{
    if s.len() == 0 {
        None
    } else {
        match first_target_problem(s.drop_last()) {
            Some(m) => Some(m),
            None => remote_target_problem(s.last()),
        }
    }
}

/// No target is refused exactly when none of them has a problem.
pub proof fn lemma_first_target_problem(s: Seq<VncTargetConfig>)
    ensures
        first_target_problem(s) is None <==> forall|i: int|
            0 <= i < s.len() ==> remote_target_problem(#[trigger] s[i]) is None,
    decreases s.len(),
{
    if s.len() > 0 {
        lemma_first_target_problem(s.drop_last());
        if first_target_problem(s) is None {
            assert forall|i: int| 0 <= i < s.len() implies remote_target_problem(
                #[trigger] s[i],
            ) is None by {
                if i < s.len() - 1 {
                    assert(s[i] == s.drop_last()[i]);
                }
            }
        } else if forall|i: int| 0 <= i < s.len() ==> remote_target_problem(#[trigger] s[i]) is None {
            assert forall|i: int| 0 <= i < s.drop_last().len() implies remote_target_problem(
                #[trigger] s.drop_last()[i],
            ) is None by {
                assert(s.drop_last()[i] == s[i]);
            }
            assert(remote_target_problem(s[s.len() - 1]) is None);
        }
    }
}

/// The first problem of a concatenation is found in its first part first.
pub proof fn lemma_first_target_problem_append(a: Seq<VncTargetConfig>, b: Seq<VncTargetConfig>)
    ensures
        first_target_problem(a + b) == match first_target_problem(a) {
            Some(m) => Some(m),
            None => first_target_problem(b),
        },
    decreases b.len(),
{
    if b.len() == 0 {
        assert(a + b =~= a);
    } else {
        lemma_first_target_problem_append(a, b.drop_last());
        assert((a + b).drop_last() =~= a + b.drop_last());
        assert((a + b).last() == b.last());
    }
}

/// The targets a viewer can open: the local server first, then every
/// enabled configured target, in order, normalized; the first enabled one
/// that is refused fails the whole list.
#[verifier::rlimit(60)]
pub fn all_targets(remote: Vec<VncTargetConfig>) -> (r: ApiResult<Vec<VncTarget>>)
    ensures
        match r {
            Ok(v) => {
                let en = enabled_targets(remote@);
                &&& v@.len() == en.len() + 1
                &&& v@[0] is Local
                &&& v@[0]->Local_0.key@ == LOCAL_TARGET_KEY@
                &&& v@[0]->Local_0.name@ == "本机 VNC"@
                &&& forall|i: int|
                    0 <= i < en.len() ==> (#[trigger] v@[i + 1]) is Remote && remote_target_problem(
                        en[i],
                    ) is None && normalized_target(v@[i + 1]->Remote_0, en[i])
            },
            Err(e) => first_target_problem(enabled_targets(remote@)) matches Some(m) && is_bad_request(
                e,
                m,
            ),
        },
{
    let mut targets: Vec<VncTarget> = Vec::new();
    targets.push(VncTarget::Local(local_target()));
    let ghost all = remote@;
    let mut taken: usize = 0;
    assert(all.take(0) =~= Seq::<VncTargetConfig>::empty());
    while taken < remote.len()
        invariant
            taken <= all.len(),
            all == remote@,
            targets@.len() == enabled_targets(all.take(taken as int)).len() + 1,
            targets@[0] is Local,
            targets@[0]->Local_0.key@ == LOCAL_TARGET_KEY@,
            targets@[0]->Local_0.name@ == "本机 VNC"@,
            forall|i: int|
                0 <= i < enabled_targets(all.take(taken as int)).len() ==> (#[trigger] targets@[i
                    + 1]) is Remote && remote_target_problem(enabled_targets(all.take(taken as int))[i])
                    is None && normalized_target(
                    targets@[i + 1]->Remote_0,
                    enabled_targets(all.take(taken as int))[i],
                ),
        decreases remote.len() - taken,
    {
        let ghost before = enabled_targets(all.take(taken as int));
        let t = copy_target(&remote[taken]);
        proof {
            assert(t == all[taken as int]);
            assert(all.take(taken + 1).drop_last() =~= all.take(taken as int));
            assert(all.take(taken + 1).last() == t);
        }
        if t.enabled {
            let ghost src = t;
            match normalize_remote_target(t) {
                Ok(n) => {
                    let ghost old_targets = targets@;
                    targets.push(VncTarget::Remote(n));
                    proof {
                        let now = enabled_targets(all.take(taken + 1));
                        assert(now == before.push(src));
                        assert forall|i: int| 0 <= i < now.len() implies (#[trigger] targets@[i
                            + 1]) is Remote && remote_target_problem(now[i]) is None
                            && normalized_target(targets@[i + 1]->Remote_0, now[i]) by {
                            if i < before.len() {
                                assert(targets@[i + 1] == old_targets[i + 1]);
                            }
                        }
                    }
                },
                Err(e) => {
                    proof {
                        let now = enabled_targets(all.take(taken + 1));
                        assert(now == before.push(src));
                        assert(all =~= all.take(taken + 1) + all.skip(taken + 1));
                        lemma_enabled_targets_append(all.take(taken + 1), all.skip(taken + 1));
                        assert forall|j: int| 0 <= j < before.len() implies remote_target_problem(
                            #[trigger] before[j],
                        ) is None by {
                            assert(targets@[j + 1] is Remote);
                        }
                        lemma_first_target_problem(before);
                        assert(now.drop_last() =~= before);
                        lemma_first_target_problem_append(now, enabled_targets(all.skip(taken + 1)));
                    }
                    return Err(e);
                },
            }
        }
        taken = taken + 1;
    }
    proof {
        assert(all.take(taken as int) =~= all);
    }
    Ok(targets)
}

/// Where the first target with key `key` stands.
fn target_position(targets: &Vec<VncTarget>, key: &str) -> (r: Option<usize>)
    ensures
        match r {
            Some(i) => i < targets@.len() && targets@[i as int].key_of() == key@ && forall|j: int|
                0 <= j < i ==> (#[trigger] targets@[j]).key_of() != key@,
            None => forall|j: int| 0 <= j < targets@.len() ==> (#[trigger] targets@[j]).key_of() != key@,
        },
{
    let mut i: usize = 0;
    while i < targets.len()
        invariant
            i <= targets@.len(),
            forall|j: int| 0 <= j < i ==> (#[trigger] targets@[j]).key_of() != key@,
        decreases targets.len() - i,
    {
        let key_matches = match &targets[i] {
            VncTarget::Local(l) => str_eq(l.key.as_str(), key),
            VncTarget::Remote(c) => str_eq(c.key.as_str(), key),
        };
        if key_matches {
            return Some(i);
        }
        i = i + 1;
    }
    None
}

/// The target a viewer asks for: the key is trimmed and required ("vnc
/// target is required"); the first target with that key is taken ("vnc
/// target not found" when there is none).
pub fn find_target(targets: Vec<VncTarget>, key: &str) -> (r: ApiResult<VncTarget>)
    ensures
        match r {
            Ok(t) => trim_seq(key@).len() > 0 && exists|i: int|
                0 <= i < targets@.len() && (#[trigger] targets@[i]) == t && t.key_of() == trim_seq(
                    key@,
                ) && forall|j: int| 0 <= j < i ==> (#[trigger] targets@[j]).key_of() != trim_seq(key@),
            Err(e) => if trim_seq(key@).len() == 0 {
                is_bad_request(e, "vnc target is required"@)
            } else {
                (forall|i: int| 0 <= i < targets@.len() ==> (#[trigger] targets@[i]).key_of() != trim_seq(key@))
                    && is_bad_request(e, "vnc target not found"@)
            },
        },
{
    let normalized = trim(key);
    if normalized.as_str().is_empty() {
        return Err(ApiError::bad_request("vnc target is required"));
    }
    match target_position(&targets, normalized.as_str()) {
        Some(i) => {
            let mut targets = targets;
            Ok(targets.remove(i))
        },
        None => Err(ApiError::bad_request("vnc target not found")),
    }
}

/// The state of a shared VNC session, apart from its connection.
#[derive(Debug)]
pub struct VncSessionState {
    pub id: String,
    pub target: VncTargetRecord,
    pub user_id: i32,
    pub status: String,
}

/// Where a VNC server is reached: `host:port`.
pub open spec fn vnc_address(host: Seq<char>, port: u16) -> Seq<char> {
    host + ":"@ + decimal_text(port as nat)
}

impl VncSessionState {
    /// A new session on `target`, ready for a viewer.
    pub fn new(id: String, target: &VncTarget, user_id: i32) -> (s: VncSessionState)
        ensures
            s.id == id,
            target_record_of(s.target, *target),
            s.user_id == user_id,
            s.status@ == "ready"@,
    {
        VncSessionState { id, target: target.record(), user_id, status: String::from_str("ready") }
    }

    /// Where the target is reached.
    pub fn address(&self) -> (a: String)
        ensures
            a@ == vnc_address(self.target.host@, self.target.port),
    {
        self.target.host.clone().concat(":").concat(decimal_string(self.target.port as u64).as_str())
    }

    /// Sets the session's status ("connected", "ready", "error", "closed").
    pub fn mark_status(&mut self, next_status: &str)
        ensures
            final(self).status@ == next_status@,
            final(self).target == old(self).target,
            final(self).id == old(self).id,
            final(self).user_id == old(self).user_id,
    {
        self.status = String::from_str(next_status);
    }

    /// The session as the API shows it.
    pub fn record(&self, created_at: String, updated_at: String) -> (r: VncSessionRecord)
        ensures
            r.id == self.id,
            r.target_key == self.target.key && r.target_name == self.target.name
                && r.target_type == self.target.target_type,
            r.host == self.target.host && r.port == self.target.port,
            r.status == self.status,
            r.requires_password == self.target.requires_password,
            r.created_by == self.user_id,
            r.created_at == created_at && r.updated_at == updated_at,
    {
        VncSessionRecord {
            id: self.id.clone(),
            target_key: self.target.key.clone(),
            target_name: self.target.name.clone(),
            target_type: self.target.target_type.clone(),
            host: self.target.host.clone(),
            port: self.target.port,
            status: self.status.clone(),
            requires_password: self.target.requires_password,
            created_by: self.user_id,
            created_at,
            updated_at,
        }
    }
}

/// A viewer may only attach to the session its ticket was issued for.
pub fn check_ticket_session(ticket_session: &str, id: &str) -> (r: ApiResult<()>)
    ensures
        r is Ok <==> ticket_session@ == id@,
        r matches Err(e) ==> is_error(e, ErrorKind::Unauthorized, "invalid vnc session ticket"@),
{
    if str_eq(ticket_session, id) {
        Ok(())
    } else {
        Err(ApiError::unauthorized("invalid vnc session ticket"))
    }
}

} // verus!
