use vstd::prelude::*;

use crate::text::{chars_of, decimal, decimal_chars, string_of, append_chars};

verus! {

/// A saved SSH connection.
pub struct Connection {
    pub name: String,
    pub host: String,
    pub port: u16,
    pub user: Option<String>,
    /// Private key file, as a path.
    pub identity_file: Option<String>,
    /// Remote directory the SFTP browser opens in (`~` = remote home).
    pub sftp_dir: Option<String>,
    pub favorite: bool,
    pub last_used: Option<u64>,
}

pub struct ConnectionView {
    pub name: Seq<char>,
    pub host: Seq<char>,
    pub port: u16,
    pub user: Option<Seq<char>>,
    pub identity_file: Option<Seq<char>>,
    pub sftp_dir: Option<Seq<char>>,
    pub favorite: bool,
    pub last_used: Option<u64>,
}

pub open spec fn opt_view(o: Option<String>) -> Option<Seq<char>> {
    match o {
        Some(s) => Some(s@),
        None => None,
    }
}

impl View for Connection {
    type V = ConnectionView;

    open spec fn view(&self) -> ConnectionView {
        ConnectionView {
            name: self.name@,
            host: self.host@,
            port: self.port,
            user: opt_view(self.user),
            identity_file: opt_view(self.identity_file),
            sftp_dir: opt_view(self.sftp_dir),
            favorite: self.favorite,
            last_used: self.last_used,
        }
    }
}

/// A copy of an optional string.
pub fn clone_opt(o: &Option<String>) -> (r: Option<String>)
    ensures
        r == *o,
{
    match o {
        Some(s) => Some(s.clone()),
        None => None,
    }
}

impl Clone for Connection {
    fn clone(&self) -> (r: Self)
        ensures
            r == *self,
    {
        Connection {
            name: self.name.clone(),
            host: self.host.clone(),
            port: self.port,
            user: clone_opt(&self.user),
            identity_file: clone_opt(&self.identity_file),
            sftp_dir: clone_opt(&self.sftp_dir),
            favorite: self.favorite,
            last_used: self.last_used,
        }
    }
}

/// The port a connection uses when none is given.
pub fn default_port() -> (p: u16)
    ensures
        p == 22,
{
    22
}

/// `user@host:port`, the user part only when a user is set.
pub open spec fn label_text(c: ConnectionView) -> Seq<char> {
    let user = match c.user {
        Some(u) => u + seq!['@'],
        None => Seq::<char>::empty(),
    };
    user + c.host + seq![':'] + decimal(c.port as nat)
}

/// Name, a space, then the label: the text the fuzzy matcher runs against.
pub open spec fn search_text_of(c: ConnectionView) -> Seq<char> {
    c.name + seq![' '] + label_text(c)
}

impl Connection {
    /// Username to authenticate as: the explicit user, else the login name of the
    /// local user (`login_user`, read from the environment), else `root`.
    pub fn ssh_user(&self, login_user: Option<String>) -> (r: String)
        ensures
            r@ == match self.user {
                Some(u) => u@,
                None => match login_user {
                    Some(l) => l@,
                    None => "root"@,
                },
            },
    {
        match &self.user {
            Some(u) => u.clone(),
            None => match login_user {
                Some(l) => l,
                None => "root".to_owned(),
            },
        }
    }

    pub fn label_chars(&self) -> (r: Vec<char>)
        ensures
            r@ == label_text(self@),
    {
        let mut out: Vec<char> = Vec::new();
        match &self.user {
            Some(u) => {
                out = chars_of(u.as_str());
                out.push('@');
            },
            None => {},
        }
        let host = chars_of(self.host.as_str());
        append_chars(&mut out, &host);
        out.push(':');
        let port = decimal_chars(self.port as u128);
        append_chars(&mut out, &port);
        assert(out@ =~= label_text(self@));
        out
    }

    /// `user@host:port` display string.
    pub fn label(&self) -> (r: String)
        ensures
            r@ == label_text(self@),
    {
        let v = self.label_chars();
        string_of(&v)
    }

    /// Text the fuzzy matcher runs against.
    pub fn search_text(&self) -> (r: String)
        ensures
            r@ == search_text_of(self@),
    {
        let mut out = chars_of(self.name.as_str());
        out.push(' ');
        let label = self.label_chars();
        append_chars(&mut out, &label);
        assert(out@ =~= search_text_of(self@));
        string_of(&out)
    }
}

/// What the store file holds: the `[[connection]]` tables in file order.
pub struct StoreFile {
    pub connections: Vec<Connection>,
}

impl Default for StoreFile {
    fn default() -> (r: Self)
        ensures
            r.connections@.len() == 0,
    {
        StoreFile { connections: Vec::new() }
    }
}

/// Seconds since the Unix epoch, if the clock is past it.
#[verifier::external_body]
fn clock_seconds() -> Option<u64> {
    std::time::SystemTime::now().duration_since(std::time::UNIX_EPOCH).ok().map(|d| d.as_secs())
}

/// Current time in seconds since the Unix epoch; 0 when the clock is before it.
pub fn now_epoch() -> u64 {
    match clock_seconds() {
        Some(s) => s,
        None => 0,
    }
}

} // verus!
