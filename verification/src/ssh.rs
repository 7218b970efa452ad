use vstd::prelude::*;

use crate::model::{Connection, ConnectionView};
use crate::text::{append_chars, chars_of, decimal, decimal_chars, string_of};

verus! {

/// A program and its arguments, ready to be run.
pub struct SshCommand {
    pub program: String,
    pub args: Vec<String>,
}

/// The arguments of the interactive `ssh` call for a connection: `-p PORT` when
/// the port is not 22, `-i KEY` when a key file is set, then `user@host` or `host`.
pub open spec fn ssh_args(c: ConnectionView) -> Seq<Seq<char>> {
    let port = if c.port != 22 {
        seq!["-p"@, decimal(c.port as nat)]
    } else {
        Seq::empty()
    };
    let key = match c.identity_file {
        Some(k) => seq!["-i"@, k],
        None => Seq::empty(),
    };
    let target = match c.user {
        Some(u) => u + seq!['@'] + c.host,
        None => c.host,
    };
    port + key + seq![target]
}

/// The `ssh` arguments for any connection: a port other than 22 always comes
/// first as `-p` and its decimal digits, whatever the user and key file are;
/// a key file follows as `-i` and its path; the last argument is `user@host`,
/// or the host alone without a user; nothing else is passed.
pub proof fn lemma_ssh_args_shape(c: ConnectionView)
    ensures
        ({
            let args = ssh_args(c);
            let p: int = if c.port != 22 { 2 } else { 0 };
            let k: int = if c.identity_file is Some { 2 } else { 0 };
            &&& args.len() == p + k + 1
            &&& c.port != 22 ==> args[0] == "-p"@ && args[1] == decimal(c.port as nat)
            &&& c.identity_file matches Some(f) ==> args[p] == "-i"@ && args[p + 1] == f
            &&& args[p + k] == match c.user {
                Some(u) => u + seq!['@'] + c.host,
                None => c.host,
            }
        }),
{
}

/// Build the interactive `ssh` command for a connection. System ssh is used on
/// purpose: it picks up ~/.ssh/config, the agent, ProxyJump, etc. for free.
pub fn build_command(conn: &Connection) -> (cmd: SshCommand)
    ensures
        cmd.program@ == "ssh"@,
        cmd.args@.map_values(|a: String| a@) == ssh_args(conn@),
{
    let ghost c = conn@;
    let ghost port_part = if c.port != 22 {
        seq!["-p"@, decimal(c.port as nat)]
    } else {
        Seq::<Seq<char>>::empty()
    };
    let ghost key_part = match c.identity_file {
        Some(k) => seq!["-i"@, k],
        None => Seq::<Seq<char>>::empty(),
    };
    let mut args: Vec<String> = Vec::new();
    if conn.port != 22 {
        args.push("-p".to_owned());
        let p = decimal_chars(conn.port as u128);
        args.push(string_of(&p));
    }
    assert(args@.map_values(|a: String| a@) =~= port_part);
    match &conn.identity_file {
        Some(k) => {
            args.push("-i".to_owned());
            args.push(k.clone());
        },
        None => {},
    }
    assert(args@.map_values(|a: String| a@) =~= port_part + key_part);
    let ghost mid = args@.map_values(|a: String| a@);
    match &conn.user {
        Some(u) => {
            let mut t = chars_of(u.as_str());
            t.push('@');
            let h = chars_of(conn.host.as_str());
            append_chars(&mut t, &h);
            let ts = string_of(&t);
            assert(ts@ == u@ + seq!['@'] + conn.host@);
            args.push(ts);
        },
        None => {
            args.push(conn.host.clone());
        },
    }
    assert(args@.map_values(|a: String| a@) =~= mid.push(ssh_args(c).last()));
    assert(args@.map_values(|a: String| a@) =~= ssh_args(conn@));
    SshCommand { program: "ssh".to_owned(), args }
}

} // verus!
