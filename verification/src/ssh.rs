use vstd::prelude::*;

use std::collections::VecDeque;

use crate::text::clone_opt;

use crate::error::{is_bad_request, is_error, ApiError, ApiResult, ErrorKind};
use crate::numbers::{decimal_string, decimal_text};
use crate::text::{
    chars_of, lemma_text_le_reflexive, lemma_text_le_total, lemma_text_le_transitive, push_char,
    text_le, text_le_exec,
};
use vstd::multiset::Multiset;
use crate::text::{
    any_char, contains_control_char, contains_control_or_whitespace, control_or_ws_pred,
    control_pred, is_blank, is_blank_seq, opt_view, starts_with_char, str_eq, trim, trim_optional,
    trim_optional_spec, trim_seq,
};

verus! {

/// The key of the shell of the machine the service runs on.
pub const LOCAL_TARGET_KEY: &'static str = "local-shell";

/// How many output chunks a session keeps for terminals that attach later.
pub const OUTPUT_BUFFER_CHUNKS: usize = 500;

/// A terminal target as the API shows it.
#[derive(Debug)]
pub struct SshTargetRecord {
    pub key: String,
    pub name: String,
    pub target_type: String,
    pub host: Option<String>,
    pub port: Option<u16>,
    pub username: Option<String>,
    pub enabled: bool,
}

/// A configured remote machine reached over SSH.
#[derive(Debug)]
pub struct SshTargetConfig {
    pub key: String,
    pub name: String,
    pub host: String,
    pub port: Option<u16>,
    pub username: String,
    pub key_path: Option<String>,
    pub enabled: bool,
}

#[derive(Debug)]
pub struct CreateSshTicketParams {
    pub target_key: String,
    pub cols: Option<u16>,
    pub rows: Option<u16>,
}

#[derive(Debug)]
pub struct CreateSshSessionParams {
    pub target_key: String,
    pub cols: Option<u16>,
    pub rows: Option<u16>,
}

#[derive(Debug)]
pub struct SshTicketRecord {
    pub ticket: String,
    pub expires_at: String,
}

#[derive(Debug)]
pub struct SshSessionRecord {
    pub id: String,
    pub target_key: String,
    pub target_name: String,
    pub target_type: String,
    pub host: Option<String>,
    pub port: Option<u16>,
    pub username: Option<String>,
    pub status: String,
    pub cols: u16,
    pub rows: u16,
    pub current_directory: String,
    pub created_by: i32,
    pub created_at: String,
    pub updated_at: String,
}

#[derive(Debug)]
pub struct SshFileRecord {
    pub name: String,
    pub path: String,
    pub is_dir: bool,
    pub extension: Option<String>,
    pub size_bytes: i64,
    pub updated_at: Option<String>,
}

#[derive(Debug)]
pub struct SshFileBrowserRecord {
    pub session_id: String,
    pub current_directory: String,
    pub path: String,
    pub directories: Vec<SshFileRecord>,
    pub files: Vec<SshFileRecord>,
}

#[derive(Debug)]
pub struct SshFileBrowserParams {
    pub path: Option<String>,
}

/// What a ticket to attach a terminal grants.
#[derive(Debug)]
pub struct SshTicket {
    pub session_id: String,
    pub user_id: i32,
    pub operator: String,
}

/// A terminal target: the local shell or a remote machine.
#[derive(Debug)]
pub enum SshTarget {
    Local(SshTargetRecord),
    Remote(SshTargetConfig),
}

/// The local shell target.
pub fn local_target() -> (r: SshTargetRecord)
    ensures
        r.key@ == LOCAL_TARGET_KEY@,
        r.name@ == "本机 Shell"@,
        r.target_type@ == "local"@,
        r.host is None && r.port is None && r.username is None,
        r.enabled,
{
    SshTargetRecord {
        key: String::from_str(LOCAL_TARGET_KEY),
        name: String::from_str("本机 Shell"),
        target_type: String::from_str("local"),
        host: None,
        port: None,
        username: None,
        enabled: true,
    }
}

/// Holds when `value` may stand as an SSH argument that names something: it
/// has no control or whitespace character and does not start with `-` (so
/// it cannot pass for an option).
pub open spec fn safe_ssh_word(value: Seq<char>) -> bool {
    !any_char(value, control_or_ws_pred()) && !(value.len() > 0 && value[0] == '-')
}

/// Why a configured remote target is refused, once its texts are trimmed.
pub open spec fn remote_target_problem(t: SshTargetConfig) -> Option<Seq<char>> {
    let key = trim_seq(t.key@);
    let name = trim_seq(t.name@);
    let host = trim_seq(t.host@);
    let user = trim_seq(t.username@);
    if key.len() == 0 || name.len() == 0 || host.len() == 0 || user.len() == 0 || !safe_ssh_word(key)
        || !safe_ssh_word(host) || !safe_ssh_word(user) {
        Some("invalid ssh target configuration"@)
    } else if t.port == Some(0u16) {
        Some("invalid ssh target port"@)
    } else if match trim_optional_spec(opt_view(t.key_path)) {
        Some(p) => any_char(p, control_pred()),
        None => false,
    } {
        Some("invalid ssh key path"@)
    } else {
        None
    }
}

/// A configured remote target with its texts trimmed and a blank key path
/// dropped, or why it is refused.
pub fn normalize_remote_target(target: SshTargetConfig) -> (r: ApiResult<SshTargetConfig>)
    ensures
        match r {
            Ok(t) => {
                &&& remote_target_problem(target) is None
                &&& t.key@ == trim_seq(target.key@)
                &&& t.name@ == trim_seq(target.name@)
                &&& t.host@ == trim_seq(target.host@)
                &&& t.username@ == trim_seq(target.username@)
                &&& opt_view(t.key_path) == trim_optional_spec(opt_view(target.key_path))
                &&& t.port == target.port
                &&& t.enabled == target.enabled
            },
            Err(e) => remote_target_problem(target) matches Some(m) && is_bad_request(e, m),
        },
{
    let key = trim(target.key.as_str());
    let name = trim(target.name.as_str());
    let host = trim(target.host.as_str());
    let username = trim(target.username.as_str());
    let key_path = trim_optional(target.key_path);
    if key.as_str().is_empty() || name.as_str().is_empty() || host.as_str().is_empty()
        || username.as_str().is_empty() || contains_control_or_whitespace(key.as_str())
        || contains_control_or_whitespace(host.as_str()) || contains_control_or_whitespace(
        username.as_str(),
    ) || starts_with_char(key.as_str(), '-') || starts_with_char(host.as_str(), '-')
        || starts_with_char(username.as_str(), '-') {
        return Err(ApiError::bad_request("invalid ssh target configuration"));
    }
    if target.port == Some(0u16) {
        return Err(ApiError::bad_request("invalid ssh target port"));
    }
    let bad_path = match &key_path {
        Some(p) => contains_control_char(p.as_str()),
        None => false,
    };
    if bad_path {
        return Err(ApiError::bad_request("invalid ssh key path"));
    }
    Ok(
        SshTargetConfig {
            key,
            name,
            host,
            port: target.port,
            username,
            key_path,
            enabled: target.enabled,
        },
    )
}

/// The port an SSH connection uses: the configured one, or 22.
pub open spec fn ssh_port(port: Option<u16>) -> u16 {
    match port {
        Some(p) => p,
        None => 22,
    }
}

/// Holds when `r` is how the API shows `target`: the local shell as it is,
/// a remote target as type "ssh" with its port defaulting to 22.
pub open spec fn target_record_of(r: SshTargetRecord, target: SshTarget) -> bool {
    match target {
        SshTarget::Local(l) => r == l,
        SshTarget::Remote(t) => {
            &&& r.key == t.key && r.name == t.name
            &&& r.target_type@ == "ssh"@
            &&& r.host == Some(t.host)
            &&& r.port == Some(ssh_port(t.port))
            &&& r.username == Some(t.username)
            &&& r.enabled == t.enabled
        },
    }
}

impl SshTarget {
    /// The target as the API shows it; a remote one is of type "ssh" with
    /// its port defaulting to 22.
    pub fn record(&self) -> (r: SshTargetRecord)
        ensures
            target_record_of(r, *self),
            self matches SshTarget::Remote(t) ==> {
                &&& (t.port matches Some(p) ==> r.port == Some(p))
                &&& (t.port is None ==> r.port == Some(22u16))
                &&& r.host == Some(t.host) && r.username == Some(t.username)
            },
    {
        match self {
            SshTarget::Local(l) => SshTargetRecord {
                key: l.key.clone(),
                name: l.name.clone(),
                target_type: l.target_type.clone(),
                host: clone_opt(&l.host),
                port: l.port,
                username: clone_opt(&l.username),
                enabled: l.enabled,
            },
            SshTarget::Remote(t) => SshTargetRecord {
                key: t.key.clone(),
                name: t.name.clone(),
                target_type: String::from_str("ssh"),
                host: Some(t.host.clone()),
                port: Some(
                    match t.port {
                        Some(p) => p,
                        None => 22,
                    },
                ),
                username: Some(t.username.clone()),
                enabled: t.enabled,
            },
        }
    }

    /// The key the target is found by.
    pub open spec fn key_of(&self) -> Seq<char> {
        match self {
            SshTarget::Local(l) => l.key@,
            SshTarget::Remote(t) => t.key@,
        }
    }

    pub open spec fn is_local(&self) -> bool {
        self is Local
    }
}

/// The program a terminal session runs, with its arguments and extra
/// environment.
#[derive(Debug)]
pub struct TerminalCommand {
    pub program: String,
    pub args: Vec<String>,
    pub env: Vec<(String, String)>,
}

/// The texts of a list of strings.
pub open spec fn string_views(v: Seq<String>) -> Seq<Seq<char>> {
    v.map_values(|s: String| s@)
}

/// The arguments `ssh` is started with for a remote target.
pub open spec fn ssh_args(t: SshTargetConfig) -> Seq<Seq<char>> {
    seq![
        "-tt"@,
        "-o"@,
        "StrictHostKeyChecking=accept-new"@,
        "-o"@,
        "ServerAliveInterval=30"@,
        "-p"@,
        decimal_text(ssh_port(t.port) as nat),
    ] + match t.key_path {
        Some(k) => seq!["-i"@, k@],
        None => Seq::empty(),
    } + seq![t.username@ + "@"@ + t.host@]
}

/// Law: `ssh` connects to the configured port (22 only when none is set),
/// with the configured key file when one is set, as `user@host` of the
/// target.
pub proof fn law_ssh_connects_as_configured(t: SshTargetConfig)
    ensures
        ssh_args(t).len() >= 8,
        ssh_args(t)[5] == "-p"@,
        t.port matches Some(p) ==> ssh_args(t)[6] == decimal_text(p as nat),
        t.port is None ==> ssh_args(t)[6] == decimal_text(22),
        t.key_path matches Some(k) ==> ssh_args(t)[7] == "-i"@ && ssh_args(t)[8] == k@,
        ssh_args(t).last() == t.username@ + "@"@ + t.host@,
{
}

/// The shell the local target runs: `$SHELL` unless it is unset or blank,
/// else `/bin/sh`.
pub open spec fn local_shell(shell_env: Option<String>) -> Seq<char> {
    match shell_env {
        Some(s) => if is_blank_seq(s@) {
            "/bin/sh"@
        } else {
            s@
        },
        None => "/bin/sh"@,
    }
}

fn push_text(v: &mut Vec<String>, text: &str)
    ensures
        string_views(final(v)@) == string_views(old(v)@).push(text@),
{
    let ghost before = v@;
    v.push(String::from_str(text));
    assert(string_views(v@) =~= string_views(before).push(text@));
}

impl SshTarget {
    /// What a session on this target runs. The local shell is `$SHELL -i`
    /// (`shell_env` is the value of `SHELL`, if set) with
    /// `TERM=xterm-256color`; a remote target runs `ssh` with a pseudo
    /// terminal, new host keys accepted, keep-alives every 30 seconds, the
    /// port, the key file when one is set, and `user@host`.
    pub fn command(&self, shell_env: Option<String>) -> (c: TerminalCommand)
        ensures
            match self {
                SshTarget::Local(_) => {
                    &&& c.program@ == local_shell(shell_env)
                    &&& string_views(c.args@) == seq!["-i"@]
                    &&& c.env@.len() == 1 && c.env@[0].0@ == "TERM"@ && c.env@[0].1@
                        == "xterm-256color"@
                },
                SshTarget::Remote(t) => {
                    &&& c.program@ == "ssh"@
                    &&& string_views(c.args@) == ssh_args(*t)
                    &&& c.env@.len() == 0
                },
            },
        self matches SshTarget::Remote(t) ==> {
            let a = string_views(c.args@);
            &&& a.len() >= 8
            &&& a[5] == "-p"@
            &&& (t.port matches Some(p) ==> a[6] == decimal_text(p as nat))
            &&& (t.port is None ==> a[6] == decimal_text(22))
            &&& (t.key_path matches Some(k) ==> a[7] == "-i"@ && a[8] == k@)
            &&& a.last() == t.username@ + "@"@ + t.host@
        },
    {
        proof {
            if self is Remote {
                law_ssh_connects_as_configured(self->Remote_0);
            }
        }
        match self {
            SshTarget::Local(_) => {
                let program = match shell_env {
                    Some(s) => if is_blank(s.as_str()) {
                        String::from_str("/bin/sh")
                    } else {
                        s
                    },
                    None => String::from_str("/bin/sh"),
                };
                let mut args: Vec<String> = Vec::new();
                push_text(&mut args, "-i");
                assert(string_views(args@) =~= seq!["-i"@]);
                let mut env: Vec<(String, String)> = Vec::new();
                env.push((String::from_str("TERM"), String::from_str("xterm-256color")));
                TerminalCommand { program, args, env }
            },
            SshTarget::Remote(t) => {
                let mut args: Vec<String> = Vec::new();
                push_text(&mut args, "-tt");
                push_text(&mut args, "-o");
                push_text(&mut args, "StrictHostKeyChecking=accept-new");
                push_text(&mut args, "-o");
                push_text(&mut args, "ServerAliveInterval=30");
                push_text(&mut args, "-p");
                let port = decimal_string(
                    match t.port {
                        Some(p) => p,
                        None => 22,
                    } as u64,
                );
                push_text(&mut args, port.as_str());
                let ghost fixed = string_views(args@);
                match &t.key_path {
                    Some(k) => {
                        push_text(&mut args, "-i");
                        push_text(&mut args, k.as_str());
                    },
                    None => {},
                }
                let destination = t.username.clone().concat("@").concat(t.host.as_str());
                push_text(&mut args, destination.as_str());
                proof {
                    assert(string_views(args@) =~= ssh_args(*t));
                }
                TerminalCommand { program: String::from_str("ssh"), args, env: Vec::new() }
            },
        }
    }
}

/// `cols.clamp(20, 300)`.
pub open spec fn clamp_cols(cols: u16) -> u16 {
    if cols < 20 {
        20
    } else if cols > 300 {
        300
    } else {
        cols
    }
}

/// `rows.clamp(8, 100)`.
pub open spec fn clamp_rows(rows: u16) -> u16 {
    if rows < 8 {
        8
    } else if rows > 100 {
        100
    } else {
        rows
    }
}

/// The size a terminal is opened with: the requested columns and rows
/// (120 and 32 when absent), clamped to 20..=300 and 8..=100.
pub fn terminal_size(cols: Option<u16>, rows: Option<u16>) -> (r: (u16, u16))
    ensures
        r.0 == clamp_cols(
            match cols {
                Some(c) => c,
                None => 120,
            },
        ),
        r.1 == clamp_rows(
            match rows {
                Some(v) => v,
                None => 32,
            },
        ),
{
    let c = match cols {
        Some(c) => c,
        None => 120,
    };
    let r = match rows {
        Some(v) => v,
        None => 32,
    };
    (clamp_cols_value(c), clamp_rows_value(r))
}

/// `cols.clamp(20, 300)`.
pub fn clamp_cols_value(cols: u16) -> (r: u16)
    ensures
        r == clamp_cols(cols),
{
    if cols < 20 {
        20
    } else if cols > 300 {
        300
    } else {
        cols
    }
}

/// `rows.clamp(8, 100)`.
pub fn clamp_rows_value(rows: u16) -> (r: u16)
    ensures
        r == clamp_rows(rows),
{
    if rows < 8 {
        8
    } else if rows > 100 {
        100
    } else {
        rows
    }
}

/// The configured targets that are enabled, in order.
pub open spec fn enabled_targets(s: Seq<SshTargetConfig>) -> Seq<SshTargetConfig>
    decreases s.len(),
{
    if s.len() == 0 {
        s
    } else if s.last().enabled {
        enabled_targets(s.drop_last()).push(s.last())
    } else {
        enabled_targets(s.drop_last())
    }
}

/// The enabled targets of a concatenation are those of each part.
pub proof fn lemma_enabled_targets_append(a: Seq<SshTargetConfig>, b: Seq<SshTargetConfig>)
    ensures
        enabled_targets(a + b) == enabled_targets(a) + enabled_targets(b),
    decreases b.len(),
{
    if b.len() == 0 {
        assert(a + b =~= a);
        assert(enabled_targets(a) + enabled_targets(b) =~= enabled_targets(a));
    } else {
        lemma_enabled_targets_append(a, b.drop_last());
        assert((a + b).drop_last() =~= a + b.drop_last());
        assert((a + b).last() == b.last());
        if b.last().enabled {
            assert(enabled_targets(a) + enabled_targets(b) =~= (enabled_targets(a) + enabled_targets(
                b.drop_last(),
            )).push(b.last()));
        }
    }
}

/// The problem of the first target of `s` that is refused, if one is.
pub open spec fn first_target_problem(s: Seq<SshTargetConfig>) -> Option<Seq<char>>
    decreases s.len(),
{
    if s.len() == 0 {
        None
    } else {
        match first_target_problem(s.drop_last()) {
            Some(m) => Some(m),
            None => remote_target_problem(s.last()),
        }
    }
}

/// No target is refused exactly when none of them has a problem.
pub proof fn lemma_first_target_problem(s: Seq<SshTargetConfig>)
    ensures
        first_target_problem(s) is None <==> forall|i: int|
            0 <= i < s.len() ==> remote_target_problem(#[trigger] s[i]) is None,
    decreases s.len(),
{
    if s.len() > 0 {
        lemma_first_target_problem(s.drop_last());
        if first_target_problem(s) is None {
            assert forall|i: int| 0 <= i < s.len() implies remote_target_problem(
                #[trigger] s[i],
            ) is None by {
                if i < s.len() - 1 {
                    assert(s[i] == s.drop_last()[i]);
                }
            }
        } else if forall|i: int| 0 <= i < s.len() ==> remote_target_problem(#[trigger] s[i]) is None {
            assert forall|i: int| 0 <= i < s.drop_last().len() implies remote_target_problem(
                #[trigger] s.drop_last()[i],
            ) is None by {
                assert(s.drop_last()[i] == s[i]);
            }
            assert(remote_target_problem(s[s.len() - 1]) is None);
        }
    }
}

/// The first problem of a concatenation is found in its first part first.
pub proof fn lemma_first_target_problem_append(a: Seq<SshTargetConfig>, b: Seq<SshTargetConfig>)
    ensures
        first_target_problem(a + b) == match first_target_problem(a) {
            Some(m) => Some(m),
            None => first_target_problem(b),
        },
    decreases b.len(),
{
    if b.len() == 0 {
        assert(a + b =~= a);
    } else {
        lemma_first_target_problem_append(a, b.drop_last());
        assert((a + b).drop_last() =~= a + b.drop_last());
        assert((a + b).last() == b.last());
    }
}

/// Holds when `t` is `src` with its texts trimmed and a blank key path
/// dropped.
pub open spec fn normalized_target(t: SshTargetConfig, src: SshTargetConfig) -> bool {
    &&& t.key@ == trim_seq(src.key@)
    &&& t.name@ == trim_seq(src.name@)
    &&& t.host@ == trim_seq(src.host@)
    &&& t.username@ == trim_seq(src.username@)
    &&& opt_view(t.key_path) == trim_optional_spec(opt_view(src.key_path))
    &&& t.port == src.port
    &&& t.enabled == src.enabled
}

/// A copy of a configured target.
fn copy_target(t: &SshTargetConfig) -> (r: SshTargetConfig)
    ensures
        r == *t,
{
    SshTargetConfig {
        key: t.key.clone(),
        name: t.name.clone(),
        host: t.host.clone(),
        port: t.port,
        username: t.username.clone(),
        key_path: clone_opt(&t.key_path),
        enabled: t.enabled,
    }
}

/// The targets a terminal can open: the local shell first, then every
/// enabled configured target, in order, normalized; the first enabled one
/// that is refused fails the whole list.
#[verifier::rlimit(60)]
pub fn all_targets(remote: Vec<SshTargetConfig>) -> (r: ApiResult<Vec<SshTarget>>)
    ensures
        match r {
            Ok(v) => {
                let en = enabled_targets(remote@);
                &&& v@.len() == en.len() + 1
                &&& v@[0] is Local
                &&& v@[0]->Local_0.key@ == LOCAL_TARGET_KEY@
                &&& v@[0]->Local_0.name@ == "本机 Shell"@
                &&& forall|i: int|
                    0 <= i < en.len() ==> (#[trigger] v@[i + 1]) is Remote && remote_target_problem(
                        en[i],
                    ) is None && normalized_target(v@[i + 1]->Remote_0, en[i])
            },
            Err(e) => first_target_problem(enabled_targets(remote@)) matches Some(m) && is_bad_request(
                e,
                m,
            ),
        },
{
    let mut targets: Vec<SshTarget> = Vec::new();
    targets.push(SshTarget::Local(local_target()));
    let ghost all = remote@;
    let mut taken: usize = 0;
    assert(all.take(0) =~= Seq::<SshTargetConfig>::empty());
    assert(all.len() == remote.len());
    while taken < remote.len()
        invariant
            taken <= all.len(),
            all == remote@,
            targets@.len() == enabled_targets(all.take(taken as int)).len() + 1,
            targets@[0] is Local,
            targets@[0]->Local_0.key@ == LOCAL_TARGET_KEY@,
            targets@[0]->Local_0.name@ == "本机 Shell"@,
            forall|i: int|
                0 <= i < enabled_targets(all.take(taken as int)).len() ==> (#[trigger] targets@[i
                    + 1]) is Remote && remote_target_problem(enabled_targets(all.take(taken as int))[i])
                    is None && normalized_target(
                    targets@[i + 1]->Remote_0,
                    enabled_targets(all.take(taken as int))[i],
                ),
        decreases remote.len() - taken,
    {
        let ghost before = enabled_targets(all.take(taken as int));
        let t = copy_target(&remote[taken]);
        proof {
            assert(t == all[taken as int]);
            assert(all.take(taken + 1).drop_last() =~= all.take(taken as int));
            assert(all.take(taken + 1).last() == t);
        }
        if t.enabled {
            let ghost src = t;
            match normalize_remote_target(t) {
                Ok(n) => {
                    let ghost old_targets = targets@;
                    targets.push(SshTarget::Remote(n));
                    proof {
                        let now = enabled_targets(all.take(taken + 1));
                        assert(now == before.push(src));
                        assert forall|i: int| 0 <= i < now.len() implies (#[trigger] targets@[i
                            + 1]) is Remote && remote_target_problem(now[i]) is None
                            && normalized_target(targets@[i + 1]->Remote_0, now[i]) by {
                            if i < before.len() {
                                assert(targets@[i + 1] == old_targets[i + 1]);
                            }
                        }
                    }
                },
                Err(e) => {
                    proof {
                        let now = enabled_targets(all.take(taken + 1));
                        assert(now == before.push(src));
                        assert(all =~= all.take(taken + 1) + all.skip(taken + 1));
                        lemma_enabled_targets_append(all.take(taken + 1), all.skip(taken + 1));
                        assert forall|j: int| 0 <= j < before.len() implies remote_target_problem(
                            #[trigger] before[j],
                        ) is None by {
                            assert(targets@[j + 1] is Remote);
                        }
                        lemma_first_target_problem(before);
                        assert(now.drop_last() =~= before);
                        lemma_first_target_problem_append(now, enabled_targets(all.skip(taken + 1)));
                        assert(first_target_problem(now) == remote_target_problem(src));
                        assert(enabled_targets(all) == now + enabled_targets(all.skip(taken + 1)));
                        assert(first_target_problem(enabled_targets(all)) == remote_target_problem(src));
                        assert(remote_target_problem(src) matches Some(m) && is_bad_request(e, m));
                    }
                    return Err(e);
                },
            }
        }
        taken = taken + 1;
    }
    proof {
        assert(all.take(taken as int) =~= all);
    }
    Ok(targets)
}

/// Where the first target with key `key` stands.
fn target_position(targets: &Vec<SshTarget>, key: &str) -> (r: Option<usize>)
    ensures
        match r {
            Some(i) => i < targets@.len() && targets@[i as int].key_of() == key@ && forall|j: int|
                0 <= j < i ==> (#[trigger] targets@[j]).key_of() != key@,
            None => forall|j: int| 0 <= j < targets@.len() ==> (#[trigger] targets@[j]).key_of() != key@,
        },
{
    let mut i: usize = 0;
    while i < targets.len()
        invariant
            i <= targets@.len(),
            forall|j: int| 0 <= j < i ==> (#[trigger] targets@[j]).key_of() != key@,
        decreases targets.len() - i,
    {
        let key_matches = match &targets[i] {
            SshTarget::Local(l) => str_eq(l.key.as_str(), key),
            SshTarget::Remote(c) => str_eq(c.key.as_str(), key),
        };
        if key_matches {
            return Some(i);
        }
        i = i + 1;
    }
    None
}

/// The target a terminal asks for: the key is trimmed and required ("ssh
/// target is required"); the first target with that key is taken ("ssh
/// target not found" when there is none).
pub fn find_target(targets: Vec<SshTarget>, key: &str) -> (r: ApiResult<SshTarget>)
    ensures
        match r {
            Ok(t) => trim_seq(key@).len() > 0 && exists|i: int|
                0 <= i < targets@.len() && (#[trigger] targets@[i]) == t && t.key_of() == trim_seq(
                    key@,
                ) && forall|j: int| 0 <= j < i ==> (#[trigger] targets@[j]).key_of() != trim_seq(key@),
            Err(e) => if trim_seq(key@).len() == 0 {
                is_bad_request(e, "ssh target is required"@)
            } else {
                (forall|i: int| 0 <= i < targets@.len() ==> (#[trigger] targets@[i]).key_of() != trim_seq(key@))
                    && is_bad_request(e, "ssh target not found"@)
            },
        },
{
    let normalized = trim(key);
    if normalized.as_str().is_empty() {
        return Err(ApiError::bad_request("ssh target is required"));
    }
    match target_position(&targets, normalized.as_str()) {
        Some(i) => {
            let mut targets = targets;
            Ok(targets.remove(i))
        },
        None => Err(ApiError::bad_request("ssh target not found")),
    }
}

/// The last `n` items of `s` (all of them when there are fewer).
pub open spec fn last_n<A>(s: Seq<A>, n: nat) -> Seq<A> {
    if s.len() <= n {
        s
    } else {
        s.skip(s.len() - n)
    }
}

/// The latest output of a terminal, kept for terminals that attach later:
/// at most `OUTPUT_BUFFER_CHUNKS` chunks, oldest first.
#[derive(Debug)]
pub struct OutputBuffer {
    chunks: VecDeque<String>,
}

impl OutputBuffer {
    /// The chunks kept, oldest first.
    pub closed spec fn chunks(&self) -> Seq<String> {
        self.chunks@
    }

    pub closed spec fn wf(&self) -> bool {
        self.chunks@.len() <= OUTPUT_BUFFER_CHUNKS
    }

    /// An empty buffer.
    pub fn new() -> (b: OutputBuffer)
        ensures
            b.wf(),
            b.chunks() == Seq::<String>::empty(),
    {
        OutputBuffer { chunks: VecDeque::new() }
    }

    /// Appends a chunk; the oldest chunk is dropped past the limit.
    pub fn push(&mut self, data: String)
        requires
            old(self).wf(),
        ensures
            final(self).wf(),
            final(self).chunks() == last_n(old(self).chunks().push(data), OUTPUT_BUFFER_CHUNKS as nat),
    {
        let ghost all = self.chunks@.push(data);
        self.chunks.push_back(data);
        if self.chunks.len() > OUTPUT_BUFFER_CHUNKS {
            let _ = self.chunks.pop_front();
            assert(self.chunks@ =~= all.skip(all.len() - OUTPUT_BUFFER_CHUNKS));
        }
    }

    /// A copy of the chunks kept, oldest first.
    pub fn history(&self) -> (h: Vec<String>)
        ensures
            h@ == self.chunks(),
    {
        let mut h: Vec<String> = Vec::new();
        let mut i: usize = 0;
        while i < self.chunks.len()
            invariant
                i <= self.chunks@.len(),
                h@ == self.chunks@.take(i as int),
            decreases self.chunks@.len() - i,
        {
            h.push(self.chunks[i].clone());
            assert(h@ =~= self.chunks@.take(i + 1));
            i = i + 1;
        }
        assert(self.chunks@.take(self.chunks@.len() as int) =~= self.chunks@);
        h
    }
}

/// Law: the output buffer holds exactly the latest `OUTPUT_BUFFER_CHUNKS`
/// chunks ever written: keeping the tail after each write gives the tail of
/// everything written.
pub proof fn law_output_buffer_keeps_latest(written: Seq<String>, data: String, n: nat)
    requires
        n > 0,
    ensures
        last_n(last_n(written, n).push(data), n) == last_n(written.push(data), n),
{
    let all = written.push(data);
    if written.len() <= n {
        assert(last_n(written, n) == written);
    } else {
        let kept = written.skip(written.len() - n);
        assert(kept.push(data).skip(1) =~= all.skip(all.len() - n));
    }
}

/// What a buffer holding `kept` holds after `writes`, one push at a time,
/// each keeping the last `n` chunks.
pub open spec fn kept_after(kept: Seq<String>, writes: Seq<String>, n: nat) -> Seq<String>
    decreases writes.len(),
{
    if writes.len() == 0 {
        kept
    } else {
        kept_after(last_n(kept.push(writes[0]), n), writes.drop_first(), n)
    }
}

/// Writing chunks to a buffer that kept the last `n` of what came before
/// keeps the last `n` of everything written.
pub proof fn lemma_kept_after(before: Seq<String>, writes: Seq<String>, n: nat)
    requires
        n > 0,
    ensures
        kept_after(last_n(before, n), writes, n) == last_n(before + writes, n),
    decreases writes.len(),
{
    if writes.len() == 0 {
        assert(before + writes =~= before);
    } else {
        law_output_buffer_keeps_latest(before, writes[0], n);
        lemma_kept_after(before.push(writes[0]), writes.drop_first(), n);
        assert(before.push(writes[0]) + writes.drop_first() =~= before + writes);
    }
}

/// Law: however many chunks are written, one after another, to a buffer
/// that kept the last `n` of what came before, it holds the last `n` of
/// everything written; from an empty buffer, the last `n` of the writes.
pub proof fn law_output_buffer_keeps_last_writes(before: Seq<String>, writes: Seq<String>, n: nat)
    requires
        n > 0,
    ensures
        kept_after(last_n(before, n), writes, n) == last_n(before + writes, n),
        kept_after(Seq::empty(), writes, n) == last_n(writes, n),
{
    lemma_kept_after(before, writes, n);
    lemma_kept_after(Seq::empty(), writes, n);
    assert(last_n(Seq::<String>::empty(), n) == Seq::<String>::empty());
    assert(Seq::<String>::empty() + writes =~= writes);
}

/// The state of a shared terminal session, apart from its process.
#[derive(Debug)]
pub struct SshSessionState {
    pub id: String,
    pub target: SshTargetRecord,
    pub is_local: bool,
    pub user_id: i32,
    pub current_directory: String,
    pub status: String,
    pub cols: u16,
    pub rows: u16,
    pub output: OutputBuffer,
}

impl SshSessionState {
    /// A new running session on `target`; a local one starts in
    /// `local_directory`, a remote one in "~".
    pub fn new(id: String, target: &SshTarget, user_id: i32, cols: u16, rows: u16, local_directory: String) -> (s:
        SshSessionState)
        ensures
            s.id == id,
            target_record_of(s.target, *target),
            s.is_local == target.is_local(),
            s.user_id == user_id,
            s.current_directory@ == if target.is_local() {
                local_directory@
            } else {
                "~"@
            },
            s.status@ == "running"@,
            s.cols == cols && s.rows == rows,
            s.output.wf() && s.output.chunks().len() == 0,
    {
        let record = target.record();
        let is_local = match target {
            SshTarget::Local(_) => true,
            SshTarget::Remote(_) => false,
        };
        let current_directory = if is_local {
            local_directory
        } else {
            String::from_str("~")
        };
        SshSessionState {
            id,
            target: record,
            is_local,
            user_id,
            current_directory,
            status: String::from_str("running"),
            cols,
            rows,
            output: OutputBuffer::new(),
        }
    }

    /// Keeps a chunk of the terminal's output.
    pub fn append_output(&mut self, data: String)
        requires
            old(self).output.wf(),
        ensures
            final(self).output.wf(),
            final(self).output.chunks() == last_n(
                old(self).output.chunks().push(data),
                OUTPUT_BUFFER_CHUNKS as nat,
            ),
            final(self).status == old(self).status,
            final(self).cols == old(self).cols && final(self).rows == old(self).rows,
    {
        self.output.push(data);
    }

    /// Marks the session closed.
    pub fn mark_closed(&mut self)
        ensures
            final(self).status@ == "closed"@,
            final(self).output == old(self).output,
            final(self).cols == old(self).cols && final(self).rows == old(self).rows,
    {
        self.status = String::from_str("closed");
    }

    /// Resizes the terminal, clamped to 20..=300 columns and 8..=100 rows;
    /// gives the size the pseudo terminal is set to.
    pub fn resize(&mut self, cols: u16, rows: u16) -> (r: (u16, u16))
        ensures
            r == (clamp_cols(cols), clamp_rows(rows)),
            final(self).cols == r.0 && final(self).rows == r.1,
            final(self).status == old(self).status,
            final(self).output == old(self).output,
    {
        let c = clamp_cols_value(cols);
        let r = clamp_rows_value(rows);
        self.cols = c;
        self.rows = r;
        (c, r)
    }

    /// Only the local shell's files can be browsed.
    pub fn check_file_browser(&self) -> (r: ApiResult<()>)
        ensures
            r is Ok <==> self.is_local,
            r matches Err(e) ==> is_bad_request(e, "remote ssh file browser is not supported yet"@),
    {
        if self.is_local {
            Ok(())
        } else {
            Err(ApiError::bad_request("remote ssh file browser is not supported yet"))
        }
    }

    /// The session as the API shows it.
    pub fn record(&self, created_at: String, updated_at: String) -> (r: SshSessionRecord)
        ensures
            r.id == self.id,
            r.target_key == self.target.key && r.target_name == self.target.name
                && r.target_type == self.target.target_type,
            r.host == self.target.host && r.port == self.target.port && r.username
                == self.target.username,
            r.status == self.status,
            r.cols == self.cols && r.rows == self.rows,
            r.current_directory == self.current_directory,
            r.created_by == self.user_id,
            r.created_at == created_at && r.updated_at == updated_at,
    {
        SshSessionRecord {
            id: self.id.clone(),
            target_key: self.target.key.clone(),
            target_name: self.target.name.clone(),
            target_type: self.target.target_type.clone(),
            host: clone_opt(&self.target.host),
            port: self.target.port,
            username: clone_opt(&self.target.username),
            status: self.status.clone(),
            cols: self.cols,
            rows: self.rows,
            current_directory: self.current_directory.clone(),
            created_by: self.user_id,
            created_at,
            updated_at,
        }
    }
}

/// What a terminal asks for in a text message.
#[derive(Debug)]
pub enum ClientAction {
    /// Keystrokes to write to the terminal.
    Input(String),
    /// A new terminal size (clamped when applied).
    Resize(u16, u16),
    Ignore,
}

/// What a text message of a terminal asks for: "input" with data writes it,
/// "resize" resizes (120 columns and 32 rows when not given); anything else
/// is ignored.
pub fn client_action(message_type: &str, data: Option<String>, cols: Option<u16>, rows: Option<u16>) -> (a:
    ClientAction)
    ensures
        message_type@ == "input"@ ==> match data {
            Some(d) => a == ClientAction::Input(d),
            None => a == ClientAction::Ignore,
        },
        message_type@ == "resize"@ ==> a == ClientAction::Resize(
            match cols {
                Some(c) => c,
                None => 120,
            },
            match rows {
                Some(r) => r,
                None => 32,
            },
        ),
        !(message_type@ == "input"@ || message_type@ == "resize"@) ==> a == ClientAction::Ignore,
{
    proof {
        reveal_strlit("input");
        reveal_strlit("resize");
        assert("input"@.len() != "resize"@.len());
    }
    if str_eq(message_type, "input") {
        match data {
            Some(d) => ClientAction::Input(d),
            None => ClientAction::Ignore,
        }
    } else if str_eq(message_type, "resize") {
        ClientAction::Resize(
            match cols {
                Some(c) => c,
                None => 120,
            },
            match rows {
                Some(r) => r,
                None => 32,
            },
        )
    } else {
        ClientAction::Ignore
    }
}

/// A websocket may only attach to the session its ticket was issued for.
pub fn check_ticket_session(ticket_session: &str, id: &str) -> (r: ApiResult<()>)
    ensures
        r is Ok <==> ticket_session@ == id@,
        r matches Err(e) ==> is_error(e, ErrorKind::Unauthorized, "invalid ssh session ticket"@),
{
    if str_eq(ticket_session, id) {
        Ok(())
    } else {
        Err(ApiError::unauthorized("invalid ssh session ticket"))
    }
}

// ---------------------------------------------------------------------------
// Local file browsing
// ---------------------------------------------------------------------------

/// The directories a path reaches once one more component is read: empty
/// components and "." change nothing, ".." goes up (never above the start),
/// any other name goes down into it.
pub open spec fn apply_component(stack: Seq<Seq<char>>, seg: Seq<char>) -> Seq<Seq<char>> {
    if seg.len() == 0 || seg == "."@ {
        stack
    } else if seg == ".."@ {
        if stack.len() > 0 {
            stack.drop_last()
        } else {
            stack
        }
    } else {
        stack.push(seg)
    }
}

/// Reading a path left to right: the directories reached by its complete
/// components, and the component being read.
pub open spec fn path_state(s: Seq<char>) -> (Seq<Seq<char>>, Seq<char>)
    decreases s.len(),
{
    if s.len() == 0 {
        (Seq::empty(), Seq::empty())
    } else {
        let (stack, cur) = path_state(s.drop_last());
        if s.last() == '/' {
            (apply_component(stack, cur), Seq::empty())
        } else {
            (stack, cur.push(s.last()))
        }
    }
}

/// The directories a whole path reaches.
pub open spec fn path_components(s: Seq<char>) -> Seq<Seq<char>> {
    apply_component(path_state(s).0, path_state(s).1)
}

/// Names joined by "/".
pub open spec fn joined_names(parts: Seq<Seq<char>>) -> Seq<char>
    decreases parts.len(),
{
    if parts.len() == 0 {
        Seq::empty()
    } else if parts.len() == 1 {
        parts[0]
    } else {
        joined_names(parts.drop_last()) + "/"@ + parts.last()
    }
}

/// A path with its "." and ".." components resolved and its empty ones
/// dropped, as Unix paths are; `None` when nothing is left of a relative
/// path.
pub open spec fn normalized_path(s: Seq<char>) -> Option<Seq<char>> {
    let absolute = s.len() > 0 && s[0] == '/';
    let parts = path_components(s);
    if absolute {
        Some("/"@ + joined_names(parts))
    } else if parts.len() == 0 {
        None
    } else {
        Some(joined_names(parts))
    }
}

/// The path a browsing request names before it is normalized: the requested
/// path (or the current directory), trimmed; when that is empty, the current
/// directory; when it is absolute, itself; else it is taken relative to the
/// current directory.
pub open spec fn browser_candidate(current: Seq<char>, requested: Option<Seq<char>>) -> Seq<char> {
    let value = trim_seq(
        match requested {
            Some(p) => p,
            None => current,
        },
    );
    if value.len() == 0 {
        current
    } else if value[0] == '/' {
        value
    } else if current.len() == 0 {
        value
    } else {
        current + "/"@ + value
    }
}

/// The directory a browsing request opens, or `None` for "invalid path":
/// the trimmed request may hold no control character, and the normalized
/// path may not be empty.
pub open spec fn browser_path(current: Seq<char>, requested: Option<Seq<char>>) -> Option<Seq<char>> {
    let value = trim_seq(
        match requested {
            Some(p) => p,
            None => current,
        },
    );
    if any_char(value, control_pred()) {
        None
    } else {
        normalized_path(browser_candidate(current, requested))
    }
}

fn apply_component_exec(stack: &mut Vec<String>, seg: String)
    ensures
        string_views(final(stack)@) == apply_component(string_views(old(stack)@), seg@),
{
    let ghost before = string_views(stack@);
    if seg.as_str().is_empty() || str_eq(seg.as_str(), ".") {
        return;
    }
    if str_eq(seg.as_str(), "..") {
        if stack.len() > 0 {
            let _ = stack.pop();
            assert(string_views(stack@) =~= before.drop_last());
        }
        return;
    }
    stack.push(seg);
    assert(string_views(stack@) =~= before.push(seg@));
}

fn join_names(parts: &Vec<String>) -> (r: String)
    ensures
        r@ == joined_names(string_views(parts@)),
{
    let mut r = String::new();
    let mut i: usize = 0;
    while i < parts.len()
        invariant
            i <= parts@.len(),
            r@ == joined_names(string_views(parts@.take(i as int))),
        decreases parts.len() - i,
    {
        let ghost prev = string_views(parts@.take(i as int));
        proof {
            assert(string_views(parts@.take(i + 1)) =~= prev.push(parts@[i as int]@));
            assert(string_views(parts@.take(i + 1)).drop_last() =~= prev);
        }
        if i == 0 {
            r = parts[i].clone();
        } else {
            r = r.concat("/").concat(parts[i].as_str());
        }
        i = i + 1;
    }
    proof {
        assert(parts@.take(parts@.len() as int) =~= parts@);
    }
    r
}

/// A name a normalized path is made of: not empty, neither "." nor "..",
/// and without "/".
pub open spec fn clean_name(w: Seq<char>) -> bool {
    &&& w.len() > 0
    &&& w != "."@
    &&& w != ".."@
    &&& forall|i: int| 0 <= i < w.len() ==> w[i] != '/'
}

/// Reading a path only ever keeps clean names, and the component being read
/// holds no "/".
pub proof fn lemma_path_state_clean(s: Seq<char>)
    ensures
        forall|k: int| 0 <= k < path_state(s).0.len() ==> clean_name(#[trigger] path_state(s).0[k]),
        forall|i: int| 0 <= i < path_state(s).1.len() ==> path_state(s).1[i] != '/',
    decreases s.len(),
{
    if s.len() > 0 {
        lemma_path_state_clean(s.drop_last());
        let (stack, cur) = path_state(s.drop_last());
        if s.last() == '/' {
            let next = apply_component(stack, cur);
            assert forall|k: int| 0 <= k < next.len() implies clean_name(#[trigger] next[k]) by {
                if cur.len() == 0 || cur == "."@ {
                } else if cur == ".."@ {
                    if stack.len() > 0 {
                        assert(next[k] == stack[k]);
                    }
                } else {
                    if k < stack.len() {
                        assert(next[k] == stack[k]);
                    }
                }
            }
        } else {
            let c2 = cur.push(s.last());
            assert forall|i: int| 0 <= i < c2.len() implies c2[i] != '/' by {
                if i < cur.len() {
                    assert(c2[i] == cur[i]);
                }
            }
        }
    }
}

/// Reading "/" alone reaches nothing.
pub proof fn lemma_path_state_root()
    ensures
        path_state(seq!['/']) == (Seq::<Seq<char>>::empty(), Seq::<char>::empty()),
{
    let s = seq!['/'];
    assert(s.drop_last() =~= Seq::<char>::empty());
    assert(path_state(s.drop_last()) == (Seq::<Seq<char>>::empty(), Seq::<char>::empty()));
    assert(s.last() == '/');
}

/// Reading a name without "/" only extends the component being read.
pub proof fn lemma_path_state_name(s: Seq<char>, w: Seq<char>)
    requires
        forall|i: int| 0 <= i < w.len() ==> w[i] != '/',
    ensures
        path_state(s + w) == (path_state(s).0, path_state(s).1 + w),
    decreases w.len(),
{
    if w.len() == 0 {
        assert(s + w =~= s);
        assert(path_state(s).1 + w =~= path_state(s).1);
    } else {
        lemma_path_state_name(s, w.drop_last());
        assert((s + w).drop_last() =~= s + w.drop_last());
        assert((s + w).last() == w.last());
        assert((path_state(s).1 + w.drop_last()).push(w.last()) =~= path_state(s).1 + w);
    }
}

/// Reading the clean names `parts` joined by "/" (after `lead`, which is
/// empty or "/") reaches all of them but the last, which is being read.
pub proof fn lemma_path_state_joined(lead: Seq<char>, parts: Seq<Seq<char>>)
    requires
        lead == Seq::<char>::empty() || lead == seq!['/'],
        parts.len() > 0,
        forall|k: int| 0 <= k < parts.len() ==> clean_name(#[trigger] parts[k]),
    ensures
        path_state(lead + joined_names(parts)) == (parts.drop_last(), parts.last()),
    decreases parts.len(),
{
    reveal_strlit("/");
    let w = parts.last();
    assert(clean_name(parts[parts.len() - 1]));
    if parts.len() == 1 {
        assert(joined_names(parts) == parts[0]);
        if lead.len() == 0 {
            assert(path_state(lead) == (Seq::<Seq<char>>::empty(), Seq::<char>::empty()));
        } else {
            lemma_path_state_root();
        }
        lemma_path_state_name(lead, w);
        assert(Seq::<char>::empty() + w =~= w);
        assert(parts.drop_last() =~= Seq::<Seq<char>>::empty());
    } else {
        let q = parts.drop_last();
        assert forall|k: int| 0 <= k < q.len() implies clean_name(#[trigger] q[k]) by {
            assert(q[k] == parts[k]);
        }
        lemma_path_state_joined(lead, q);
        let head = lead + joined_names(q);
        assert(lead + joined_names(parts) =~= head.push('/') + w);
        lemma_path_state_name(head.push('/'), w);
        assert(head.push('/').drop_last() =~= head);
        assert(clean_name(q.last()));
        assert(apply_component(q.drop_last(), q.last()) =~= q);
        assert(Seq::<char>::empty() + w =~= w);
    }
}

/// The joined names start with the first name.
pub proof fn lemma_joined_names_first(parts: Seq<Seq<char>>)
    requires
        parts.len() > 0,
        parts[0].len() > 0,
    ensures
        joined_names(parts).len() > 0,
        joined_names(parts)[0] == parts[0][0],
    decreases parts.len(),
{
    if parts.len() > 1 {
        lemma_joined_names_first(parts.drop_last());
    }
}

/// Law: a normalized path is its own normal form, so a directory the
/// browser has opened opens as itself again.
pub proof fn law_normalized_path_is_stable(s: Seq<char>)
    requires
        normalized_path(s) is Some,
    ensures
        normalized_path(normalized_path(s)->0) == normalized_path(s),
{
    reveal_strlit("/");
    let parts = path_components(s);
    lemma_path_state_clean(s);
    let (stack, cur) = path_state(s);
    assert forall|k: int| 0 <= k < parts.len() implies clean_name(#[trigger] parts[k]) by {
        if cur.len() == 0 || cur == "."@ {
        } else if cur == ".."@ {
            if stack.len() > 0 {
                assert(parts[k] == stack[k]);
            }
        } else {
            if k < stack.len() {
                assert(parts[k] == stack[k]);
            }
        }
    }
    let q = normalized_path(s)->0;
    let absolute = s.len() > 0 && s[0] == '/';
    if absolute {
        assert(q == seq!['/'] + joined_names(parts));
        if parts.len() == 0 {
            assert(q =~= seq!['/']);
            lemma_path_state_root();
            assert(path_components(q) =~= Seq::<Seq<char>>::empty());
        } else {
            lemma_path_state_joined(seq!['/'], parts);
            assert(parts.drop_last().push(parts.last()) =~= parts);
        }
        assert(path_components(q) == parts);
    } else {
        assert(parts.len() > 0);
        assert(clean_name(parts[0]));
        lemma_joined_names_first(parts);
        assert(q[0] != '/');
        lemma_path_state_joined(Seq::<char>::empty(), parts);
        assert(Seq::<char>::empty() + joined_names(parts) =~= joined_names(parts));
        assert(parts.drop_last().push(parts.last()) =~= parts);
        assert(path_components(q) == parts);
    }
}

/// The normalized form of `path` (see `normalized_path`).
pub fn normalize_path_components(path: &str) -> (r: ApiResult<String>)
    ensures
        match r {
            Ok(p) => normalized_path(path@) == Some(p@),
            Err(e) => normalized_path(path@) is None && is_bad_request(e, "invalid path"@),
        },
{
    let v = chars_of(path);
    let mut stack: Vec<String> = Vec::new();
    let mut cur = String::new();
    let mut i: usize = 0;
    while i < v.len()
        invariant
            i <= v@.len(),
            v@ == path@,
            (string_views(stack@), cur@) == path_state(path@.take(i as int)),
        decreases v.len() - i,
    {
        proof {
            assert(path@.take(i + 1).drop_last() =~= path@.take(i as int));
        }
        if v[i] == '/' {
            let seg = cur;
            cur = String::new();
            apply_component_exec(&mut stack, seg);
        } else {
            push_char(&mut cur, v[i]);
        }
        i = i + 1;
    }
    proof {
        assert(path@.take(v@.len() as int) =~= path@);
    }
    apply_component_exec(&mut stack, cur);
    let absolute = v.len() > 0 && v[0] == '/';
    if absolute {
        Ok(String::from_str("/").concat(join_names(&stack).as_str()))
    } else if stack.len() == 0 {
        Err(ApiError::bad_request("invalid path"))
    } else {
        Ok(join_names(&stack))
    }
}

/// The directory a request to browse the local machine opens, from the
/// session's current directory (see `browser_path`).
pub fn resolve_local_browser_path(current_directory: &str, path: Option<&str>) -> (r: ApiResult<String>)
    ensures
        match r {
            Ok(p) => browser_path(
                current_directory@,
                match path {
                    Some(p) => Some(p@),
                    None => None,
                },
            ) == Some(p@),
            Err(e) => browser_path(
                current_directory@,
                match path {
                    Some(p) => Some(p@),
                    None => None,
                },
            ) is None && is_bad_request(e, "invalid path"@),
        },
{
    let value = trim(
        match path {
            Some(p) => p,
            None => current_directory,
        },
    );
    if contains_control_char(value.as_str()) {
        return Err(ApiError::bad_request("invalid path"));
    }
    let candidate = if value.as_str().is_empty() {
        String::from_str(current_directory)
    } else if starts_with_char(value.as_str(), '/') {
        value
    } else if current_directory.is_empty() {
        value
    } else {
        String::from_str(current_directory).concat("/").concat(value.as_str())
    };
    normalize_path_components(candidate.as_str())
}

/// The extension `Path::extension` gives for a file name: what follows its
/// last ".", unless that dot starts the name or there is none (and never
/// for "..").
pub open spec fn name_extension(name: Seq<char>) -> Option<Seq<char>> {
    let dot = crate::files::last_index(name, '.');
    if name == ".."@ || dot <= 0 {
        None
    } else {
        Some(name.subrange(dot + 1, name.len() as int))
    }
}

/// A directory entry of the local machine as the browser shows it; the size
/// saturates at `i64::MAX`.
pub fn ssh_file_record(name: &str, path: String, is_dir: bool, size: u64, updated_at: Option<String>) -> (r:
    SshFileRecord)
    ensures
        r.name@ == name@,
        r.path == path,
        r.is_dir == is_dir,
        opt_view(r.extension) == name_extension(name@),
        r.size_bytes == if size <= i64::MAX as u64 {
            size as i64
        } else {
            i64::MAX
        },
        r.updated_at == updated_at,
{
    let v = chars_of(name);
    proof {
        crate::files::lemma_last_index(name@, '.');
    }
    let extension = if str_eq(name, "..") {
        None
    } else {
        match crate::files::rfind(&v, '.') {
            Some(dot) => if dot == 0 {
                None
            } else {
                Some(crate::text::string_of_range(&v, dot + 1, v.len()))
            },
            None => None,
        }
    };
    let size_bytes = if size <= 9223372036854775807u64 {
        size as i64
    } else {
        9223372036854775807i64
    };
    SshFileRecord { name: String::from_str(name), path, is_dir, extension, size_bytes, updated_at }
}


/// Holds when the records run in the order of their names.
pub open spec fn sorted_by_name(s: Seq<SshFileRecord>) -> bool {
    forall|i: int, j: int| 0 <= i <= j < s.len() ==> text_le(#[trigger] s[i].name@, #[trigger] s[j].name@)
}

/// Directory entries in the order of their names.
pub fn sort_by_name(v: Vec<SshFileRecord>) -> (r: Vec<SshFileRecord>)
    ensures
        sorted_by_name(r@),
        r@.to_multiset() == v@.to_multiset(),
{
    broadcast use vstd::seq_lib::group_to_multiset_ensures;
    let ghost all = v@;
    let mut rest = v;
    let mut out: Vec<SshFileRecord> = Vec::new();
    while rest.len() > 0
        invariant
            sorted_by_name(out@),
            out@.to_multiset().add(rest@.to_multiset()) == all.to_multiset(),
        decreases rest.len(),
    {
        let ghost rest_before = rest@;
        let x = rest.pop().unwrap();
        proof {
            assert(rest_before =~= rest@.push(x));
            rest@.to_multiset_ensures();
        }
        let mut pos: usize = 0;
        while pos < out.len() && text_le_exec(out[pos].name.as_str(), x.name.as_str())
            invariant
                pos <= out@.len(),
                sorted_by_name(out@),
                forall|k: int| 0 <= k < pos ==> text_le(#[trigger] out@[k].name@, x.name@),
            decreases out.len() - pos,
        {
            pos = pos + 1;
        }
        let ghost old_out = out@;
        let ghost xn = x.name@;
        out.insert(pos, x);
        proof {
            assert(out@ =~= old_out.insert(pos as int, x));
            assert forall|a: int, b: int| 0 <= a <= b < out@.len() implies text_le(
                #[trigger] out@[a].name@,
                #[trigger] out@[b].name@,
            ) by {
                if a < pos && b < pos {
                    assert(out@[a] == old_out[a] && out@[b] == old_out[b]);
                } else if a < pos && b == pos {
                    assert(out@[a] == old_out[a]);
                } else if a < pos && b > pos {
                    assert(out@[a] == old_out[a] && out@[b] == old_out[b - 1]);
                    assert(text_le(old_out[a].name@, old_out[b - 1].name@));
                } else if a == pos && b == pos {
                    lemma_text_le_reflexive(xn, 0);
                } else if a == pos {
                    assert(out@[b] == old_out[b - 1]);
                    assert(pos < old_out.len());
                    assert(!text_le(old_out[pos as int].name@, xn));
                    lemma_text_le_total(old_out[pos as int].name@, xn, 0);
                    assert(text_le(old_out[pos as int].name@, old_out[b - 1].name@));
                    lemma_text_le_transitive(xn, old_out[pos as int].name@, old_out[b - 1].name@, 0);
                } else {
                    assert(out@[a] == old_out[a - 1] && out@[b] == old_out[b - 1]);
                    assert(text_le(old_out[a - 1].name@, old_out[b - 1].name@));
                }
            }
            assert(out@.remove(pos as int) =~= old_out);
            out@.to_multiset_ensures();
            assert(out@.contains(x));
            assert(old_out.to_multiset().insert(x) =~= out@.to_multiset());
            assert(out@.to_multiset().add(rest@.to_multiset()) =~= old_out.to_multiset().add(
                rest_before.to_multiset(),
            ));
        }
    }
    proof {
        assert(rest@.to_multiset() =~= Multiset::empty());
        assert(out@.to_multiset().add(rest@.to_multiset()) =~= out@.to_multiset());
    }
    out
}

/// The entries of `s` that are directories.
pub open spec fn directories_of(s: Seq<(SshFileRecord, bool)>) -> Seq<SshFileRecord>
    decreases s.len(),
{
    if s.len() == 0 {
        Seq::empty()
    } else if s.last().0.is_dir {
        directories_of(s.drop_last()).push(s.last().0)
    } else {
        directories_of(s.drop_last())
    }
}

/// The entries of `s` that are plain files (neither directories nor
/// anything else, such as a dangling link).
pub open spec fn files_of(s: Seq<(SshFileRecord, bool)>) -> Seq<SshFileRecord>
    decreases s.len(),
{
    if s.len() == 0 {
        Seq::empty()
    } else if !s.last().0.is_dir && s.last().1 {
        files_of(s.drop_last()).push(s.last().0)
    } else {
        files_of(s.drop_last())
    }
}

/// The listing of a browsed directory: `entries` holds each entry's record
/// and whether it is a plain file. Directories and files are listed apart,
/// each in the order of their names; other entries are left out.
pub fn file_browser_record(session_id: String, path: String, entries: Vec<(SshFileRecord, bool)>) -> (r:
    SshFileBrowserRecord)
    ensures
        r.session_id == session_id,
        r.current_directory == path && r.path == path,
        sorted_by_name(r.directories@),
        r.directories@.to_multiset() == directories_of(entries@).to_multiset(),
        sorted_by_name(r.files@),
        r.files@.to_multiset() == files_of(entries@).to_multiset(),
{
    broadcast use vstd::seq_lib::group_to_multiset_ensures;
    let ghost all = entries@;
    let mut rest = entries;
    let mut directories: Vec<SshFileRecord> = Vec::new();
    let mut files: Vec<SshFileRecord> = Vec::new();
    while rest.len() > 0
        invariant
            directories@.to_multiset().add(directories_of(rest@).to_multiset())
                == directories_of(all).to_multiset(),
            files@.to_multiset().add(files_of(rest@).to_multiset()) == files_of(all).to_multiset(),
        decreases rest.len(),
    {
        let ghost rest_before = rest@;
        let (record, is_file) = rest.pop().unwrap();
        proof {
            assert(rest_before.drop_last() =~= rest@);
            directories_of(rest@).to_multiset_ensures();
            files_of(rest@).to_multiset_ensures();
            directories@.to_multiset_ensures();
            files@.to_multiset_ensures();
        }
        if record.is_dir {
            let ghost before = directories@;
            directories.push(record);
            proof {
                assert(directories@ =~= before.push(record));
                assert(directories@.to_multiset().add(directories_of(rest@).to_multiset())
                    =~= before.to_multiset().add(directories_of(rest_before).to_multiset()));
                assert(files_of(rest_before) == files_of(rest@));
            }
        } else if is_file {
            let ghost before = files@;
            files.push(record);
            proof {
                assert(files@ =~= before.push(record));
                assert(files@.to_multiset().add(files_of(rest@).to_multiset()) =~= before.to_multiset().add(
                    files_of(rest_before).to_multiset(),
                ));
                assert(directories_of(rest_before) == directories_of(rest@));
            }
        } else {
            proof {
                assert(directories_of(rest_before) == directories_of(rest@));
                assert(files_of(rest_before) == files_of(rest@));
            }
        }
    }
    proof {
        assert(directories_of(rest@) =~= Seq::<SshFileRecord>::empty());
        assert(files_of(rest@) =~= Seq::<SshFileRecord>::empty());
        assert(directories@.to_multiset().add(directories_of(rest@).to_multiset())
            =~= directories@.to_multiset());
        assert(files@.to_multiset().add(files_of(rest@).to_multiset()) =~= files@.to_multiset());
    }
    let directories = sort_by_name(directories);
    let files = sort_by_name(files);
    let current_directory = path.clone();
    SshFileBrowserRecord { session_id, current_directory, path, directories, files }
}

} // verus!
