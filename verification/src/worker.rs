//! Messages between the SFTP screen and the background worker that owns the
//! SSH/SFTP session, and the pure parts of the worker's work.

use vstd::prelude::*;

use crate::graphics::{base64_text, encode_base64};
use crate::model::{clone_opt, opt_view, Connection};
use crate::pane::FsEntry;
use crate::paths::{path_file_name, path_with_file_name, std_path_file_name, std_path_with_file_name};
use crate::text::{append_chars, chars_of, decimal, decimal_chars, string_of};

verus! {

pub struct ConnectParams {
    pub host: String,
    pub port: u16,
    pub user: String,
    pub key_path: Option<String>,
}

impl ConnectParams {
    /// What the worker needs to open a session for the connection; the user
    /// is `Connection::ssh_user` with the local login name `login_user`.
    pub fn for_connection(conn: &Connection, login_user: Option<String>) -> (r: ConnectParams)
        ensures
            r.host@ == conn.host@,
            r.port == conn.port,
            r.user@ == match conn.user {
                Some(u) => u@,
                None => match login_user {
                    Some(l) => l@,
                    None => "root"@,
                },
            },
            opt_view(r.key_path) == opt_view(conn.identity_file),
    {
        ConnectParams {
            host: conn.host.clone(),
            port: conn.port,
            user: conn.ssh_user(login_user),
            key_path: clone_opt(&conn.identity_file),
        }
    }
}

pub enum SftpRequest {
    AcceptHostKey(bool),
    Passphrase(Option<String>),
    ReadDir(String),
    StatRemote(String),
    Upload { local: String, remote: String },
    Download { remote: String, local: String },
    Rename { from: String, to: String },
    Delete { path: String, is_dir: bool },
    Preview { remote: String, local: String },
    Shutdown,
}

#[derive(PartialEq, Eq, Structural, Clone, Copy)]
pub enum Direction {
    Upload,
    Download,
}

impl Direction {
    pub fn verb(&self) -> (r: &'static str)
        ensures
            r@ == match self {
                Direction::Upload => "Uploaded"@,
                Direction::Download => "Downloaded"@,
            },
    {
        match self {
            Direction::Upload => "Uploaded",
            Direction::Download => "Downloaded",
        }
    }
}

pub enum SftpEvent {
    HostKeyUnknown { host: String, fingerprint: String },
    PassphraseNeeded { key_path: String },
    Connected { remote_home: String },
    DirListing { path: String, result: Result<Vec<FsEntry>, String> },
    StatResult { exists: bool, is_dir: bool, size: u64 },
    Progress { transferred: u64, total: u64 },
    TransferDone { direction: Direction, name: String, bytes: u64 },
    TransferFailed { error: String, cancelled: bool },
    /// A remote rename or delete finished: the status message, or the error.
    OpFinished(Result<String, String>),
    /// A remote file was downloaded for preview to this local path.
    PreviewReady(String),
    Fatal(String),
}

/// Base64 without padding, as OpenSSH prints key fingerprints.
pub fn base64_nopad(data: &[u8]) -> (r: String)
    ensures
        r@ == base64_text(data@, false),
{
    encode_base64(data, false)
}

/// `SHA256:<base64>` of the host key hash, or `unknown fingerprint`.
pub fn fingerprint_text(hash: Option<&[u8]>) -> (r: String)
    ensures
        r@ == match hash {
            Some(h) => "SHA256:"@ + base64_text(h@, false),
            None => "unknown fingerprint"@,
        },
{
    match hash {
        Some(h) => {
            let mut out = chars_of("SHA256:");
            let b = base64_nopad(h);
            let bc = chars_of(b.as_str());
            append_chars(&mut out, &bc);
            string_of(&out)
        },
        None => "unknown fingerprint".to_owned(),
    }
}

/// The `known_hosts` entry name: the host on port 22, else `[host]:port`.
pub open spec fn known_hosts_name(host: Seq<char>, port: u16) -> Seq<char> {
    if port == 22 {
        host
    } else {
        seq!['['] + host + "]:"@ + decimal(port as nat)
    }
}

pub fn known_hosts_entry(host: &str, port: u16) -> (r: String)
    ensures
        r@ == known_hosts_name(host@, port),
{
    if port == 22 {
        return host.to_owned();
    }
    let mut out: Vec<char> = Vec::new();
    out.push('[');
    let h = chars_of(host);
    append_chars(&mut out, &h);
    let close = chars_of("]:");
    append_chars(&mut out, &close);
    let p = decimal_chars(port as u128);
    append_chars(&mut out, &p);
    assert(out@ =~= known_hosts_name(host@, port));
    string_of(&out)
}

/// The file type bits of a mode say "symbolic link" (`S_IFLNK`).
pub open spec fn mode_is_symlink(perm: u32) -> bool {
    (perm / 4096) % 16 == 10
}

pub fn is_symlink_mode(perm: u32) -> (r: bool)
    ensures
        r == mode_is_symlink(perm),
{
    let r = perm & 0o170000 == 0o120000;
    assert((perm & 0o170000 == 0o120000) == ((perm / 4096) % 16 == 10)) by (bit_vector);
    r
}

/// The name of the temporary file a transfer writes: the destination's file
/// name with `.part` appended.
pub open spec fn part_path_of(dst: Seq<char>) -> Seq<char> {
    let name = match std_path_file_name(dst) {
        Some(n) => n,
        None => Seq::empty(),
    };
    std_path_with_file_name(dst, name + ".part"@)
}

pub fn part_path(dst: &str) -> (r: String)
    ensures
        r@ == part_path_of(dst@),
{
    let mut name = match path_file_name(dst) {
        Some(n) => chars_of(n.as_str()),
        None => Vec::new(),
    };
    let suffix = chars_of(".part");
    append_chars(&mut name, &suffix);
    let n = string_of(&name);
    path_with_file_name(dst, n.as_str())
}

/// The name a finished transfer reports: the destination's file name, or empty.
pub fn transfer_name(dst: &str) -> (r: String)
    ensures
        r@ == match std_path_file_name(dst@) {
            Some(n) => n,
            None => Seq::empty(),
        },
{
    match path_file_name(dst) {
        Some(n) => n,
        None => String::new(),
    }
}

} // verus!
