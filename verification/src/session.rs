//! The decisions the worker takes while it opens a session: whether to trust
//! the server's host key, and in which order to try the ways to log in. The
//! worker does the network and disk work and reports back after each step.
//!
//! Unknown host keys are shown to the user (with the SHA256 fingerprint)
//! before being added to known_hosts; a mismatching key aborts. Logins try
//! the connection's key file (asking for its passphrase if needed, at most
//! three times), then ssh-agent, then the default `~/.ssh/id_*` keys.

use vstd::prelude::*;

use crate::text::{append_chars, chars_of, string_of};
use crate::sftp::RequestView;
use crate::worker::{known_hosts_entry, known_hosts_name, SftpRequest};

verus! {

// ------------------------------------------------------------------ host keys

/// What the known_hosts check said of the server's key.
#[derive(PartialEq, Eq, Structural, Clone, Copy)]
pub enum HostKeyCheck {
    Match,
    Mismatch,
    NotFound,
    Failure,
}

/// What the worker does next about the host key.
pub enum HostKeyStep {
    /// The key is known: go on.
    Proceed,
    /// Show the key to the user (`HostKeyUnknown`) and wait for the answer.
    Ask,
    /// Add the key to known_hosts under this name, save the file, go on.
    Trust(String),
    /// Give up with this message.
    Abort(String),
    /// Not an answer: keep waiting.
    Wait,
}

pub enum HostKeyStepView {
    Proceed,
    Ask,
    Trust(Seq<char>),
    Abort(Seq<char>),
    Wait,
}

impl View for HostKeyStep {
    type V = HostKeyStepView;

    open spec fn view(&self) -> HostKeyStepView {
        match self {
            HostKeyStep::Proceed => HostKeyStepView::Proceed,
            HostKeyStep::Ask => HostKeyStepView::Ask,
            HostKeyStep::Trust(n) => HostKeyStepView::Trust(n@),
            HostKeyStep::Abort(m) => HostKeyStepView::Abort(m@),
            HostKeyStep::Wait => HostKeyStepView::Wait,
        }
    }
}

pub open spec fn mismatch_message(host: Seq<char>, fingerprint: Seq<char>) -> Seq<char> {
    "HOST KEY MISMATCH for "@ + host + " ("@ + fingerprint
        + ") — possible man-in-the-middle. Fix ~/.ssh/known_hosts manually if the host legitimately changed."@
}

/// A known key goes on, a mismatching key aborts, and an unknown one (or a
/// failed check) is shown to the user.
pub open spec fn host_key_step(check: HostKeyCheck, host: Seq<char>, fingerprint: Seq<char>) -> HostKeyStepView {
    match check {
        HostKeyCheck::Match => HostKeyStepView::Proceed,
        HostKeyCheck::Mismatch => HostKeyStepView::Abort(mismatch_message(host, fingerprint)),
        _ => HostKeyStepView::Ask,
    }
}

pub fn host_key_checked(check: HostKeyCheck, host: &str, fingerprint: &str) -> (r: HostKeyStep)
    ensures
        r@ == host_key_step(check, host@, fingerprint@),
{
    match check {
        HostKeyCheck::Match => HostKeyStep::Proceed,
        HostKeyCheck::Mismatch => {
            let mut m = chars_of("HOST KEY MISMATCH for ");
            let h = chars_of(host);
            append_chars(&mut m, &h);
            let open = chars_of(" (");
            append_chars(&mut m, &open);
            let f = chars_of(fingerprint);
            append_chars(&mut m, &f);
            let tail = chars_of(
                ") — possible man-in-the-middle. Fix ~/.ssh/known_hosts manually if the host legitimately changed.",
            );
            append_chars(&mut m, &tail);
            HostKeyStep::Abort(string_of(&m))
        },
        _ => HostKeyStep::Ask,
    }
}

/// The user's answer about an unknown key (`None`: the screen went away).
pub open spec fn host_key_reply(reply: Option<RequestView>, host: Seq<char>, port: u16) -> HostKeyStepView {
    match reply {
        Some(RequestView::AcceptHostKey(true)) => HostKeyStepView::Trust(known_hosts_name(host, port)),
        Some(RequestView::AcceptHostKey(false)) => HostKeyStepView::Abort("host key rejected"@),
        Some(RequestView::Shutdown) | None => HostKeyStepView::Abort("cancelled"@),
        _ => HostKeyStepView::Wait,
    }
}

pub fn host_key_answered(reply: Option<&SftpRequest>, host: &str, port: u16) -> (r: HostKeyStep)
    ensures
        r@ == host_key_reply(reply_view(reply), host@, port),
{
    match reply {
        Some(SftpRequest::AcceptHostKey(true)) => HostKeyStep::Trust(known_hosts_entry(host, port)),
        Some(SftpRequest::AcceptHostKey(false)) => HostKeyStep::Abort("host key rejected".to_owned()),
        Some(SftpRequest::Shutdown) | None => HostKeyStep::Abort("cancelled".to_owned()),
        _ => HostKeyStep::Wait,
    }
}

pub open spec fn reply_view(r: Option<&SftpRequest>) -> Option<RequestView> {
    match r {
        Some(q) => Some(q@),
        None => None,
    }
}

// ------------------------------------------------------------------ logging in

/// How far the login has come.
#[derive(PartialEq, Eq, Structural, Clone, Copy)]
pub enum AuthStage {
    /// The key file was tried without a passphrase.
    KeyFile,
    /// A passphrase was asked for; `attempts` passphrases were tried before.
    AskingPassphrase { attempts: u8 },
    /// The key file was tried with a passphrase, the `attempts`-th.
    KeyWithPassphrase { attempts: u8 },
    /// ssh-agent was tried.
    Agent,
    /// The default key `default_key_name(index)` was tried.
    DefaultKey { index: u8 },
    /// Logged in, or given up.
    Done,
}

/// What the worker does next to log in.
pub enum AuthStep {
    /// Try the connection's key file, with this passphrase.
    TryKey(Option<String>),
    /// Ask for the key's passphrase (`PassphraseNeeded`) and wait for the reply.
    AskPassphrase,
    /// Try ssh-agent.
    TryAgent,
    /// Try this key file under `~/.ssh`, if it is a file.
    TryDefault(String),
    /// Logged in.
    Succeeded,
    /// Give up with this message.
    Failed(String),
}

pub enum AuthStepView {
    TryKey(Option<Seq<char>>),
    AskPassphrase,
    TryAgent,
    TryDefault(Seq<char>),
    Succeeded,
    Failed(Seq<char>),
}

impl View for AuthStep {
    type V = AuthStepView;

    open spec fn view(&self) -> AuthStepView {
        match self {
            AuthStep::TryKey(p) => AuthStepView::TryKey(match p {
                Some(x) => Some(x@),
                None => None,
            }),
            AuthStep::AskPassphrase => AuthStepView::AskPassphrase,
            AuthStep::TryAgent => AuthStepView::TryAgent,
            AuthStep::TryDefault(n) => AuthStepView::TryDefault(n@),
            AuthStep::Succeeded => AuthStepView::Succeeded,
            AuthStep::Failed(m) => AuthStepView::Failed(m@),
        }
    }
}

/// A login in progress for `user` at `host`.
pub struct Login {
    pub user: String,
    pub host: String,
    pub stage: AuthStage,
}

pub type AuthOut = (AuthStage, AuthStepView);

pub open spec fn default_key_name(i: int) -> Seq<char> {
    if i == 0 {
        "id_ed25519"@
    } else if i == 1 {
        "id_rsa"@
    } else {
        "id_ecdsa"@
    }
}

pub open spec fn passphrase_limit() -> int {
    3
}

pub open spec fn auth_failed_message(user: Seq<char>, host: Seq<char>) -> Seq<char> {
    "authentication failed for "@ + user + "@"@ + host + " (tried key file, ssh-agent, default keys)"@
}

/// Past the key file: ssh-agent, unless already logged in.
pub open spec fn after_key(authenticated: bool) -> AuthOut {
    if authenticated {
        (AuthStage::Done, AuthStepView::Succeeded)
    } else {
        (AuthStage::Agent, AuthStepView::TryAgent)
    }
}

/// Ask for a passphrase while fewer than three were tried.
pub open spec fn passphrase_loop(attempts: u8, authenticated: bool) -> AuthOut {
    if attempts < passphrase_limit() && !authenticated {
        (AuthStage::AskingPassphrase { attempts }, AuthStepView::AskPassphrase)
    } else {
        after_key(authenticated)
    }
}

pub open spec fn auth_start(has_key: bool) -> AuthOut {
    if has_key {
        (AuthStage::KeyFile, AuthStepView::TryKey(None))
    } else {
        after_key(false)
    }
}

pub open spec fn auth_key_tried(stage: AuthStage, ok: bool, authenticated: bool) -> AuthOut {
    if ok {
        (AuthStage::Done, AuthStepView::Succeeded)
    } else {
        match stage {
            AuthStage::KeyWithPassphrase { attempts } => passphrase_loop(attempts, authenticated),
            _ => passphrase_loop(0, authenticated),
        }
    }
}

/// The reply to a passphrase prompt: a passphrase is tried; none (the prompt
/// was cancelled) moves on to the agent; a closed screen ends the login;
/// anything else asks again.
pub open spec fn auth_passphrase(attempts: u8, reply: Option<RequestView>, authenticated: bool) -> AuthOut {
    match reply {
        Some(RequestView::Passphrase(Some(p))) => (
            AuthStage::KeyWithPassphrase { attempts: (attempts + 1) as u8 },
            AuthStepView::TryKey(Some(p)),
        ),
        Some(RequestView::Passphrase(None)) => after_key(authenticated),
        Some(RequestView::Shutdown) | None => (AuthStage::Done, AuthStepView::Failed("cancelled"@)),
        _ => passphrase_loop(attempts, authenticated),
    }
}

pub open spec fn auth_agent_tried(user: Seq<char>, host: Seq<char>, authenticated: bool, has_home: bool) -> AuthOut {
    if authenticated {
        (AuthStage::Done, AuthStepView::Succeeded)
    } else if has_home {
        (AuthStage::DefaultKey { index: 0 }, AuthStepView::TryDefault(default_key_name(0)))
    } else {
        (AuthStage::Done, AuthStepView::Failed(auth_failed_message(user, host)))
    }
}

pub open spec fn auth_default_tried(user: Seq<char>, host: Seq<char>, index: u8, authenticated: bool) -> AuthOut {
    if authenticated {
        (AuthStage::Done, AuthStepView::Succeeded)
    } else if index + 1 < 3 {
        (AuthStage::DefaultKey { index: (index + 1) as u8 }, AuthStepView::TryDefault(default_key_name(index + 1)))
    } else {
        (AuthStage::Done, AuthStepView::Failed(auth_failed_message(user, host)))
    }
}

/// The stages in the order they are passed through.
pub open spec fn stage_rank(s: AuthStage) -> int {
    match s {
        AuthStage::KeyFile => 0,
        AuthStage::AskingPassphrase { attempts } => 1 + 2 * attempts,
        AuthStage::KeyWithPassphrase { attempts } => 2 * attempts,
        AuthStage::Agent => 10,
        AuthStage::DefaultKey { index } => 11 + index,
        AuthStage::Done => 20,
    }
}

pub open spec fn stage_ok(s: AuthStage) -> bool {
    match s {
        AuthStage::AskingPassphrase { attempts } => attempts < 3,
        AuthStage::KeyWithPassphrase { attempts } => 1 <= attempts <= 3,
        AuthStage::DefaultKey { index } => index < 3,
        _ => true,
    }
}

/// Logging in only moves forward: the key file (with at most three
/// passphrases), then ssh-agent, then the default keys, and never back.
pub proof fn lemma_login_moves_forward(
    user: Seq<char>,
    host: Seq<char>,
    stage: AuthStage,
    ok: bool,
    authenticated: bool,
    has_home: bool,
    reply: Option<RequestView>,
)
    requires
        stage_ok(stage),
    ensures
        stage_ok(auth_start(true).0) && stage_ok(auth_start(false).0),
        (stage == AuthStage::KeyFile || stage is KeyWithPassphrase) ==> stage_ok(auth_key_tried(stage, ok, authenticated).0)
            && stage_rank(auth_key_tried(stage, ok, authenticated).0) > stage_rank(stage),
        stage is AskingPassphrase ==> stage_ok(auth_passphrase(stage->AskingPassphrase_attempts, reply, authenticated).0)
            && stage_rank(auth_passphrase(stage->AskingPassphrase_attempts, reply, authenticated).0) >= stage_rank(stage),
        stage == AuthStage::Agent ==> stage_ok(auth_agent_tried(user, host, authenticated, has_home).0) && stage_rank(
            auth_agent_tried(user, host, authenticated, has_home).0,
        ) > stage_rank(stage),
        stage is DefaultKey ==> stage_ok(auth_default_tried(user, host, stage->DefaultKey_index, authenticated).0) && stage_rank(
            auth_default_tried(user, host, stage->DefaultKey_index, authenticated).0,
        ) > stage_rank(stage),
{
}

/// A key that does not match the one on record aborts the connection; an
/// unknown key is trusted only when the user says yes.
pub proof fn lemma_host_key_trust(check: HostKeyCheck, host: Seq<char>, fingerprint: Seq<char>, reply: Option<RequestView>, port: u16)
    ensures
        check == HostKeyCheck::Mismatch ==> host_key_step(check, host, fingerprint) is Abort,
        host_key_step(check, host, fingerprint) is Proceed <==> check == HostKeyCheck::Match,
        host_key_reply(reply, host, port) is Trust <==> reply == Some(RequestView::AcceptHostKey(true)),
{
}

fn auth_failure(user: &str, host: &str) -> (r: String)
    ensures
        r@ == auth_failed_message(user@, host@),
{
    let mut m = chars_of("authentication failed for ");
    let u = chars_of(user);
    append_chars(&mut m, &u);
    let at = chars_of("@");
    append_chars(&mut m, &at);
    let h = chars_of(host);
    append_chars(&mut m, &h);
    let tail = chars_of(" (tried key file, ssh-agent, default keys)");
    append_chars(&mut m, &tail);
    string_of(&m)
}

fn default_key(i: u8) -> (r: String)
    requires
        i < 3,
    ensures
        r@ == default_key_name(i as int),
{
    if i == 0 {
        "id_ed25519".to_owned()
    } else if i == 1 {
        "id_rsa".to_owned()
    } else {
        "id_ecdsa".to_owned()
    }
}

fn passphrase_step(attempts: u8, authenticated: bool) -> (r: (AuthStage, AuthStep))
    ensures
        (r.0, r.1@) == passphrase_loop(attempts, authenticated),
{
    if attempts < 3 && !authenticated {
        (AuthStage::AskingPassphrase { attempts }, AuthStep::AskPassphrase)
    } else if authenticated {
        (AuthStage::Done, AuthStep::Succeeded)
    } else {
        (AuthStage::Agent, AuthStep::TryAgent)
    }
}

impl Login {
    /// Start logging in: with the connection's key file when it has one,
    /// else with ssh-agent.
    pub fn start(user: String, host: String, has_key: bool) -> (r: (Login, AuthStep))
        ensures
            r.0.user@ == user@,
            r.0.host@ == host@,
            (r.0.stage, r.1@) == auth_start(has_key),
    {
        let (stage, step) = if has_key {
            (AuthStage::KeyFile, AuthStep::TryKey(None))
        } else {
            (AuthStage::Agent, AuthStep::TryAgent)
        };
        (Login { user, host, stage }, step)
    }

    fn finish(&mut self, out: (AuthStage, AuthStep)) -> (r: AuthStep)
        ensures
            final(self).stage == out.0,
            final(self).user == old(self).user,
            final(self).host == old(self).host,
            r@ == out.1@,
    {
        self.stage = out.0;
        out.1
    }

    /// The key file was tried (`ok`: the server accepted it).
    pub fn key_tried(&mut self, ok: bool, authenticated: bool) -> (r: AuthStep)
        requires
            old(self).stage == AuthStage::KeyFile || old(self).stage is KeyWithPassphrase,
        ensures
            final(self).user == old(self).user,
            final(self).host == old(self).host,
            (final(self).stage, r@) == auth_key_tried(old(self).stage, ok, authenticated),
    {
        if ok {
            return self.finish((AuthStage::Done, AuthStep::Succeeded));
        }
        let attempts: u8 = match self.stage {
            AuthStage::KeyWithPassphrase { attempts } => attempts,
            _ => 0,
        };
        let out = passphrase_step(attempts, authenticated);
        self.finish(out)
    }

    /// The reply to a passphrase prompt arrived (`None`: the screen went away).
    pub fn passphrase_replied(&mut self, reply: Option<SftpRequest>, authenticated: bool) -> (r: AuthStep)
        requires
            old(self).stage is AskingPassphrase,
            old(self).stage->AskingPassphrase_attempts < 3,
        ensures
            final(self).user == old(self).user,
            final(self).host == old(self).host,
            (final(self).stage, r@) == auth_passphrase(
                old(self).stage->AskingPassphrase_attempts,
                match reply {
                    Some(q) => Some(q@),
                    None => None,
                },
                authenticated,
            ),
    {
        let attempts: u8 = match self.stage {
            AuthStage::AskingPassphrase { attempts } => attempts,
            _ => 0,
        };
        let out = match reply {
            Some(SftpRequest::Passphrase(Some(p))) => {
                (AuthStage::KeyWithPassphrase { attempts: attempts + 1 }, AuthStep::TryKey(Some(p)))
            },
            Some(SftpRequest::Passphrase(None)) => {
                if authenticated {
                    (AuthStage::Done, AuthStep::Succeeded)
                } else {
                    (AuthStage::Agent, AuthStep::TryAgent)
                }
            },
            Some(SftpRequest::Shutdown) | None => (AuthStage::Done, AuthStep::Failed("cancelled".to_owned())),
            _ => passphrase_step(attempts, authenticated),
        };
        self.finish(out)
    }

    /// ssh-agent was tried; `has_home` says whether a home directory is known.
    pub fn agent_tried(&mut self, authenticated: bool, has_home: bool) -> (r: AuthStep)
        requires
            old(self).stage == AuthStage::Agent,
        ensures
            final(self).user == old(self).user,
            final(self).host == old(self).host,
            (final(self).stage, r@) == auth_agent_tried(old(self).user@, old(self).host@, authenticated, has_home),
    {
        let out = if authenticated {
            (AuthStage::Done, AuthStep::Succeeded)
        } else if has_home {
            (AuthStage::DefaultKey { index: 0 }, AuthStep::TryDefault(default_key(0)))
        } else {
            (AuthStage::Done, AuthStep::Failed(auth_failure(self.user.as_str(), self.host.as_str())))
        };
        self.finish(out)
    }

    /// The default key asked for was tried (or was not a file).
    pub fn default_tried(&mut self, authenticated: bool) -> (r: AuthStep)
        requires
            old(self).stage is DefaultKey,
            old(self).stage->DefaultKey_index < 3,
        ensures
            final(self).user == old(self).user,
            final(self).host == old(self).host,
            (final(self).stage, r@) == auth_default_tried(
                old(self).user@,
                old(self).host@,
                old(self).stage->DefaultKey_index,
                authenticated,
            ),
    {
        let index: u8 = match self.stage {
            AuthStage::DefaultKey { index } => index,
            _ => 0,
        };
        let out = if authenticated {
            (AuthStage::Done, AuthStep::Succeeded)
        } else if index + 1 < 3 {
            (AuthStage::DefaultKey { index: index + 1 }, AuthStep::TryDefault(default_key(index + 1)))
        } else {
            (AuthStage::Done, AuthStep::Failed(auth_failure(self.user.as_str(), self.host.as_str())))
        };
        self.finish(out)
    }
}

} // verus!
