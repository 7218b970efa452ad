//! Minimal `~/.ssh/config` reader used for the first-run import. System ssh
//! still reads the real config at connect time, so directives other than
//! `Host`, `Match`, `HostName`, `User`, `Port` and `IdentityFile` are ignored.

use vstd::prelude::*;

use crate::model::{Connection, ConnectionView, opt_view, clone_opt};
use crate::paths::{join_path, path_join};
use crate::text::{
    ascii_lower, ascii_lower_chars, chars_eq, chars_of, contains_char, is_whitespace, is_ws,
    parse_u16, parse_u16_chars, slice_of, string_of, trim, trim_chars, has_prefix, starts_with,
    append_chars,
};

verus! {

/// One `Host` pattern of the config with the directives that apply to it.
pub struct SshHost {
    pub alias: String,
    pub host_name: Option<String>,
    pub user: Option<String>,
    pub port: Option<u16>,
    pub identity_file: Option<String>,
}

pub struct SshHostView {
    pub alias: Seq<char>,
    pub host_name: Option<Seq<char>>,
    pub user: Option<Seq<char>>,
    pub port: Option<u16>,
    pub identity_file: Option<Seq<char>>,
}

impl View for SshHost {
    type V = SshHostView;

    open spec fn view(&self) -> SshHostView {
        SshHostView {
            alias: self.alias@,
            host_name: opt_view(self.host_name),
            user: opt_view(self.user),
            port: self.port,
            identity_file: opt_view(self.identity_file),
        }
    }
}

impl SshHost {
    pub fn copy(&self) -> (r: SshHost)
        ensures
            r@ == self@,
    {
        SshHost {
            alias: self.alias.clone(),
            host_name: clone_opt(&self.host_name),
            user: clone_opt(&self.user),
            port: self.port,
            identity_file: clone_opt(&self.identity_file),
        }
    }
}

impl Default for SshHost {
    fn default() -> (r: Self)
        ensures
            r@.alias.len() == 0,
            r.host_name is None,
            r.user is None,
            r.port is None,
            r.identity_file is None,
    {
        SshHost { alias: String::new(), host_name: None, user: None, port: None, identity_file: None }
    }
}

// ------------------------------------------------------------------ the spec

/// `value` without one pair of surrounding double quotes, if it has them.
pub open spec fn unquoted(v: Seq<char>) -> Seq<char> {
    if v.len() >= 2 && v[0] == '"' && v.last() == '"' {
        v.subrange(1, v.len() - 1)
    } else {
        v
    }
}

pub open spec fn is_sep(c: char) -> bool {
    is_ws(c) || c == '='
}

/// Index of the first white space or `=` in the line.
pub open spec fn first_sep(s: Seq<char>) -> Option<int> {
    if exists|i: int| 0 <= i < s.len() && is_sep(#[trigger] s[i]) {
        Some(choose|i: int| 0 <= i < s.len() && is_sep(s[i]) && forall|j: int| 0 <= j < i ==> !is_sep(#[trigger] s[j]))
    } else {
        None
    }
}

pub open spec fn skip_seps(s: Seq<char>) -> Seq<char>
    decreases s.len(),
{
    if s.len() > 0 && is_sep(s[0]) {
        skip_seps(s.drop_first())
    } else {
        s
    }
}

/// `Keyword value`, `Keyword=value` or `Keyword = value`: the keyword and the
/// unquoted value; `None` when either part is empty or the line has no separator.
pub open spec fn directive(line: Seq<char>) -> Option<(Seq<char>, Seq<char>)> {
    match first_sep(line) {
        None => None,
        Some(idx) => {
            let keyword = line.subrange(0, idx);
            let rest = trim(skip_seps(line.subrange(idx, line.len() as int)));
            if keyword.len() == 0 || rest.len() == 0 {
                None
            } else {
                Some((keyword, unquoted(rest)))
            }
        },
    }
}

/// Words split at white space, as `str::split_whitespace` returns them: the
/// finished words and the word still being read.
pub open spec fn word_scan(s: Seq<char>) -> (Seq<Seq<char>>, Seq<char>)
    decreases s.len(),
{
    if s.len() == 0 {
        (Seq::empty(), Seq::empty())
    } else {
        let (done, cur) = word_scan(s.drop_last());
        if is_ws(s.last()) {
            if cur.len() > 0 {
                (done.push(cur), Seq::empty())
            } else {
                (done, Seq::empty())
            }
        } else {
            (done, cur.push(s.last()))
        }
    }
}

pub open spec fn words(s: Seq<char>) -> Seq<Seq<char>> {
    let (done, cur) = word_scan(s);
    if cur.len() > 0 {
        done.push(cur)
    } else {
        done
    }
}

/// A `Host` pattern that names one concrete host: no wildcard, no negation.
pub open spec fn concrete_pattern(p: Seq<char>) -> bool {
    !p.contains('*') && !p.contains('?') && !(p.len() > 0 && p[0] == '!')
}

/// The aliases a `Host` line's value declares, in order.
pub open spec fn host_aliases(value: Seq<char>) -> Seq<Seq<char>>
    decreases words(value).len(),
{
    aliases_of(words(value))
}

pub open spec fn aliases_of(ws: Seq<Seq<char>>) -> Seq<Seq<char>>
    decreases ws.len(),
{
    if ws.len() == 0 {
        Seq::empty()
    } else {
        let prev = aliases_of(ws.drop_last());
        let p = unquoted(ws.last());
        if concrete_pattern(p) {
            prev.push(p)
        } else {
            prev
        }
    }
}

pub enum Field {
    HostName,
    User,
    Port(u16),
    IdentityFile,
}

pub open spec fn keep_first(o: Option<Seq<char>>, v: Seq<char>) -> Option<Seq<char>> {
    match o {
        Some(x) => Some(x),
        None => Some(v),
    }
}

/// A host after a directive: the field is set only if it was not set before.
pub open spec fn fill(h: SshHostView, f: Field, v: Seq<char>) -> SshHostView {
    match f {
        Field::HostName => SshHostView { host_name: keep_first(h.host_name, v), ..h },
        Field::User => SshHostView { user: keep_first(h.user, v), ..h },
        Field::Port(p) => SshHostView {
            port: match h.port {
                Some(q) => Some(q),
                None => Some(p),
            },
            ..h
        },
        Field::IdentityFile => SshHostView { identity_file: keep_first(h.identity_file, v), ..h },
    }
}

/// Reader state between lines: the hosts so far, the first index of the hosts
/// the last `Host` line declared (they run to the end), and whether a `Match`
/// block is being skipped.
pub struct ScanState {
    pub hosts: Seq<SshHostView>,
    pub cur_start: int,
    pub skipping: bool,
}

pub open spec fn fill_current(st: ScanState, f: Field, v: Seq<char>) -> ScanState {
    ScanState {
        hosts: Seq::new(
            st.hosts.len(),
            |i: int|
                if st.cur_start <= i {
                    fill(st.hosts[i], f, v)
                } else {
                    st.hosts[i]
                },
        ),
        ..st
    }
}

pub open spec fn new_host(alias: Seq<char>) -> SshHostView {
    SshHostView { alias, host_name: None, user: None, port: None, identity_file: None }
}

/// The reader after one line of the file.
pub open spec fn step(st: ScanState, line: Seq<char>) -> ScanState {
    let t = trim(line);
    if t.len() == 0 || t[0] == '#' {
        st
    } else {
        match directive(t) {
            None => st,
            Some((kw, value)) => {
                let k = ascii_lower(kw);
                if k == "host"@ {
                    let aliases = host_aliases(value);
                    ScanState {
                        hosts: st.hosts + aliases.map_values(|a: Seq<char>| new_host(a)),
                        cur_start: st.hosts.len() as int,
                        skipping: false,
                    }
                } else if k == "match"@ {
                    ScanState { hosts: st.hosts, cur_start: st.hosts.len() as int, skipping: true }
                } else if st.skipping {
                    st
                } else if k == "hostname"@ {
                    fill_current(st, Field::HostName, value)
                } else if k == "user"@ {
                    fill_current(st, Field::User, value)
                } else if k == "port"@ {
                    match parse_u16(value) {
                        Some(p) => fill_current(st, Field::Port(p), value),
                        None => st,
                    }
                } else if k == "identityfile"@ {
                    fill_current(st, Field::IdentityFile, value)
                } else {
                    st
                }
            },
        }
    }
}

/// Lines of the text split at `\n`: the finished lines and the line still being read.
pub open spec fn line_scan(s: Seq<char>) -> (Seq<Seq<char>>, Seq<char>)
    decreases s.len(),
{
    if s.len() == 0 {
        (Seq::empty(), Seq::empty())
    } else {
        let (done, cur) = line_scan(s.drop_last());
        if s.last() == '\n' {
            (done.push(cur), Seq::empty())
        } else {
            (done, cur.push(s.last()))
        }
    }
}

pub open spec fn lines(s: Seq<char>) -> Seq<Seq<char>> {
    line_scan(s).0.push(line_scan(s).1)
}

pub open spec fn initial_state() -> ScanState {
    ScanState { hosts: Seq::empty(), cur_start: 0, skipping: false }
}

pub open spec fn run(ls: Seq<Seq<char>>) -> ScanState
    decreases ls.len(),
{
    if ls.len() == 0 {
        initial_state()
    } else {
        step(run(ls.drop_last()), ls.last())
    }
}

/// The hosts a config text declares, with their directives.
pub open spec fn parse_config(content: Seq<char>) -> Seq<SshHostView> {
    run(lines(content)).hosts
}

// ------------------------------------------------------------ the reader

pub fn strip_quotes(v: &Vec<char>) -> (r: Vec<char>)
    ensures
        r@ == unquoted(v@),
{
    if v.len() >= 2 && v[0] == '"' && v[v.len() - 1] == '"' {
        slice_of(v, 1, v.len() - 1)
    } else {
        slice_of(v, 0, v.len())
    }
}

fn is_separator(c: char) -> (b: bool)
    ensures
        b == is_sep(c),
{
    is_whitespace(c) || c == '='
}

/// Split `Keyword value`, `Keyword=value` or `Keyword = value`.
pub fn split_directive(line: &Vec<char>) -> (r: Option<(Vec<char>, Vec<char>)>)
    ensures
        match (r, directive(line@)) {
            (None, None) => true,
            (Some((k, v)), Some((sk, sv))) => k@ == sk && v@ == sv,
            _ => false,
        },
{
    let mut i: usize = 0;
    while i < line.len() && !is_separator(line[i])
        invariant
            i <= line.len(),
            forall|j: int| 0 <= j < i ==> !is_sep(#[trigger] line@[j]),
        decreases line.len() - i,
    {
        i += 1;
    }
    if i == line.len() {
        assert(!exists|k: int| 0 <= k < line@.len() && is_sep(#[trigger] line@[k]));
        return None;
    }
    proof {
        let s = line@;
        assert(0 <= i < s.len() && is_sep(s[i as int]));
        let k = choose|k: int| 0 <= k < s.len() && is_sep(s[k]) && forall|j: int| 0 <= j < k ==> !is_sep(#[trigger] s[j]);
        assert(0 <= i < s.len() && is_sep(s[i as int]) && forall|j: int| 0 <= j < i ==> !is_sep(#[trigger] s[j]));
        if k < i {
            assert(!is_sep(s[k]));
        }
        if k > i {
            assert(!is_sep(s[i as int]));
        }
        assert(k == i);
        assert(first_sep(s) == Some(i as int));
    }
    let keyword = slice_of(line, 0, i);
    let mut j = i;
    let ghost tail = line@.subrange(i as int, line@.len() as int);
    assert(line@.subrange(j as int, line@.len() as int) =~= tail);
    while j < line.len() && is_separator(line[j])
        invariant
            i <= j <= line.len(),
            tail == line@.subrange(i as int, line@.len() as int),
            skip_seps(tail) == skip_seps(line@.subrange(j as int, line@.len() as int)),
        decreases line.len() - j,
    {
        assert(line@.subrange(j as int, line@.len() as int).drop_first() =~= line@.subrange(
            j + 1,
            line@.len() as int,
        ));
        j += 1;
    }
    let rest0 = slice_of(line, j, line.len());
    let rest = trim_chars(&rest0);
    if keyword.len() == 0 || rest.len() == 0 {
        return None;
    }
    Some((keyword, strip_quotes(&rest)))
}

/// `str::split_whitespace`.
pub fn split_words(s: &Vec<char>) -> (r: Vec<Vec<char>>)
    ensures
        r@.map_values(|w: Vec<char>| w@) == words(s@),
{
    let mut done: Vec<Vec<char>> = Vec::new();
    let mut cur: Vec<char> = Vec::new();
    let mut i: usize = 0;
    while i < s.len()
        invariant
            i <= s.len(),
            (done@.map_values(|w: Vec<char>| w@), cur@) == word_scan(s@.subrange(0, i as int)),
        decreases s.len() - i,
    {
        let ghost pre = s@.subrange(0, i as int);
        let ghost post = s@.subrange(0, i + 1);
        assert(post.drop_last() =~= pre);
        let c = s[i];
        if is_whitespace(c) {
            if cur.len() > 0 {
                let w = cur;
                done.push(w);
                cur = Vec::new();
            }
        } else {
            cur.push(c);
        }
        i += 1;
        assert(done@.map_values(|w: Vec<char>| w@) =~= word_scan(post).0);
        assert(cur@ =~= word_scan(post).1);
    }
    assert(s@.subrange(0, s.len() as int) =~= s@);
    if cur.len() > 0 {
        done.push(cur);
    }
    assert(done@.map_values(|w: Vec<char>| w@) =~= words(s@));
    done
}

/// The reader between lines.
struct Scan {
    hosts: Vec<SshHost>,
    cur_start: usize,
    skipping: bool,
}

impl View for Scan {
    type V = ScanState;

    closed spec fn view(&self) -> ScanState {
        ScanState {
            hosts: self.hosts@.map_values(|h: SshHost| h@),
            cur_start: self.cur_start as int,
            skipping: self.skipping,
        }
    }
}

impl Scan {
    spec fn wf(&self) -> bool {
        self.cur_start <= self.hosts@.len()
    }

    fn fill_current(&mut self, f: Field, value: &Vec<char>)
        requires
            old(self).wf(),
        ensures
            final(self).wf(),
            final(self)@ == fill_current(old(self)@, f, value@),
    {
        let ghost goal = fill_current(old(self)@, f, value@);
        let mut i = self.cur_start;
        while i < self.hosts.len()
            invariant
                self.cur_start <= i <= self.hosts@.len(),
                self.cur_start == old(self).cur_start,
                self.skipping == old(self).skipping,
                self.hosts@.len() == old(self).hosts@.len(),
                goal == fill_current(old(self)@, f, value@),
                forall|k: int|
                    0 <= k < self.hosts@.len() ==> #[trigger] self.hosts@[k]@ == if self.cur_start <= k < i {
                        goal.hosts[k]
                    } else {
                        old(self).hosts@[k]@
                    },
            decreases self.hosts@.len() - i,
        {
            let mut h = self.hosts[i].copy();
            match f {
                Field::HostName => {
                    if h.host_name.is_none() {
                        h.host_name = Some(string_of(value));
                    }
                },
                Field::User => {
                    if h.user.is_none() {
                        h.user = Some(string_of(value));
                    }
                },
                Field::Port(p) => {
                    if h.port.is_none() {
                        h.port = Some(p);
                    }
                },
                Field::IdentityFile => {
                    if h.identity_file.is_none() {
                        h.identity_file = Some(string_of(value));
                    }
                },
            }
            assert(h@ == fill(old(self).hosts@[i as int]@, f, value@));
            self.hosts.set(i, h);
            i += 1;
        }
        assert(self@.hosts =~= goal.hosts);
    }

    fn push_aliases(&mut self, value: &Vec<char>)
        requires
            old(self).wf(),
        ensures
            final(self).wf(),
            final(self)@ == (ScanState {
                hosts: old(self)@.hosts + host_aliases(value@).map_values(
                    |a: Seq<char>| new_host(a),
                ),
                cur_start: old(self)@.hosts.len() as int,
                skipping: false,
            }),
    {
        let ws = split_words(value);
        let ghost wv = ws@.map_values(|w: Vec<char>| w@);
        self.skipping = false;
        self.cur_start = self.hosts.len();
        let ghost base = self.hosts@.map_values(|h: SshHost| h@);
        let mut i: usize = 0;
        while i < ws.len()
            invariant
                i <= ws@.len(),
                wv == ws@.map_values(|w: Vec<char>| w@),
                wv == words(value@),
                self.cur_start == old(self).hosts@.len(),
                !self.skipping,
                base == old(self)@.hosts,
                self@.hosts == base + aliases_of(wv.subrange(0, i as int)).map_values(
                    |a: Seq<char>| new_host(a),
                ),
            decreases ws@.len() - i,
        {
            let ghost pre = wv.subrange(0, i as int);
            let ghost post = wv.subrange(0, i + 1);
            assert(post.drop_last() =~= pre);
            assert(post.last() == ws@[i as int]@);
            let p = strip_quotes(&ws[i]);
            let bad = contains_char(&p, '*') || contains_char(&p, '?') || (p.len() > 0 && p[0]
                == '!');
            assert(p@ == unquoted(post.last()));
            assert(bad == !concrete_pattern(p@));
            if !bad {
                let h = SshHost {
                    alias: string_of(&p),
                    host_name: None,
                    user: None,
                    port: None,
                    identity_file: None,
                };
                assert(h@ == new_host(p@));
                let ghost before = self@.hosts;
                self.hosts.push(h);
                assert(self@.hosts =~= before.push(new_host(p@)));
                assert(aliases_of(post) == aliases_of(pre).push(p@));
                assert(aliases_of(post).map_values(|a: Seq<char>| new_host(a)) =~= aliases_of(pre).map_values(|a: Seq<char>| new_host(a)).push(new_host(p@)));
            } else {
                assert(aliases_of(post) == aliases_of(pre));
            }
            i += 1;
            assert(self@.hosts =~= base + aliases_of(post).map_values(
                |a: Seq<char>| new_host(a),
            ));
        }
        assert(wv.subrange(0, ws@.len() as int) =~= wv);
    }

    fn step(&mut self, line: &Vec<char>, kw_host: &Vec<char>, kw_match: &Vec<char>, kw_hostname: &Vec<char>, kw_user: &Vec<char>, kw_port: &Vec<char>, kw_identityfile: &Vec<char>)
        requires
            old(self).wf(),
            kw_host@ == "host"@,
            kw_match@ == "match"@,
            kw_hostname@ == "hostname"@,
            kw_user@ == "user"@,
            kw_port@ == "port"@,
            kw_identityfile@ == "identityfile"@,
        ensures
            final(self).wf(),
            final(self)@ == step(old(self)@, line@),
    {
        let t = trim_chars(line);
        if t.len() == 0 || t[0] == '#' {
            return ;
        }
        match split_directive(&t) {
            None => {},
            Some((kw, value)) => {
                let k = ascii_lower_chars(&kw);
                if chars_eq(&k, kw_host) {
                    self.push_aliases(&value);
                } else if chars_eq(&k, kw_match) {
                    self.skipping = true;
                    self.cur_start = self.hosts.len();
                } else if self.skipping {
                } else if chars_eq(&k, kw_hostname) {
                    self.fill_current(Field::HostName, &value);
                } else if chars_eq(&k, kw_user) {
                    self.fill_current(Field::User, &value);
                } else if chars_eq(&k, kw_port) {
                    match parse_u16_chars(&value) {
                        Some(p) => self.fill_current(Field::Port(p), &value),
                        None => {},
                    }
                } else if chars_eq(&k, kw_identityfile) {
                    self.fill_current(Field::IdentityFile, &value);
                }
            },
        }
    }
}

/// The hosts the config text declares, in file order, each with the first value
/// of each directive that applies to it (`Match` blocks ignored, wildcard and
/// negated patterns skipped).
pub fn parse(content: &str) -> (r: Vec<SshHost>)
    ensures
        r@.map_values(|h: SshHost| h@) == parse_config(content@),
{
    let kw_host = chars_of("host");
    let kw_match = chars_of("match");
    let kw_hostname = chars_of("hostname");
    let kw_user = chars_of("user");
    let kw_port = chars_of("port");
    let kw_identityfile = chars_of("identityfile");
    let s = chars_of(content);
    let mut scan = Scan { hosts: Vec::new(), cur_start: 0, skipping: false };
    assert(scan@.hosts =~= initial_state().hosts);
    let mut cur: Vec<char> = Vec::new();
    let mut i: usize = 0;
    while i < s.len()
        invariant
            i <= s.len(),
            s@ == content@,
            scan.wf(),
            kw_host@ == "host"@,
            kw_match@ == "match"@,
            kw_hostname@ == "hostname"@,
            kw_user@ == "user"@,
            kw_port@ == "port"@,
            kw_identityfile@ == "identityfile"@,
            scan@ == run(line_scan(s@.subrange(0, i as int)).0),
            cur@ == line_scan(s@.subrange(0, i as int)).1,
        decreases s.len() - i,
    {
        let ghost pre = s@.subrange(0, i as int);
        let ghost post = s@.subrange(0, i + 1);
        assert(post.drop_last() =~= pre);
        let c = s[i];
        if c == '\n' {
            scan.step(&cur, &kw_host, &kw_match, &kw_hostname, &kw_user, &kw_port, &kw_identityfile);
            cur = Vec::new();
            proof {
                let ls = line_scan(pre).0.push(line_scan(pre).1);
                assert(ls.drop_last() =~= line_scan(pre).0);
            }
        } else {
            cur.push(c);
        }
        i += 1;
    }
    assert(s@.subrange(0, s.len() as int) =~= s@);
    scan.step(&cur, &kw_host, &kw_match, &kw_hostname, &kw_user, &kw_port, &kw_identityfile);
    proof {
        let ls = lines(s@);
        assert(ls.drop_last() =~= line_scan(s@).0);
    }
    scan.hosts
}

// ------------------------------------------------------------ to connections

/// `~` is the home directory and `~/rest` lies in it; any other path stays as it is.
pub open spec fn tilde_expanded(path: Seq<char>, home: Seq<char>) -> Seq<char> {
    if path == seq!['~'] {
        home
    } else if has_prefix(path, seq!['~', '/']) {
        path_join(home, path.subrange(2, path.len() as int))
    } else {
        path
    }
}

pub fn expand_tilde(path: &str, home: &str) -> (r: String)
    ensures
        r@ == tilde_expanded(path@, home@),
{
    let p = chars_of(path);
    let h = chars_of(home);
    if p.len() == 1 && p[0] == '~' {
        assert(p@ =~= seq!['~']);
        return home.to_owned();
    }
    assert(p@ != seq!['~'] || (p.len() == 1 && p@[0] == '~'));
    let mut pre: Vec<char> = Vec::new();
    pre.push('~');
    pre.push('/');
    assert(pre@ =~= seq!['~', '/']);
    if starts_with(&p, &pre) {
        let rest = slice_of(&p, 2, p.len());
        let j = join_path(&h, &rest);
        string_of(&j)
    } else {
        path.to_owned()
    }
}

/// The connection imported for a config host.
pub open spec fn connection_of(h: SshHostView, home: Seq<char>) -> ConnectionView {
    ConnectionView {
        name: h.alias,
        host: match h.host_name {
            Some(n) => n,
            None => h.alias,
        },
        port: match h.port {
            Some(p) => p,
            None => 22,
        },
        user: h.user,
        identity_file: match h.identity_file {
            Some(f) => Some(tilde_expanded(f, home)),
            None => None,
        },
        sftp_dir: None,
        favorite: false,
        last_used: None,
    }
}

pub open spec fn alias_seen(hs: Seq<SshHostView>, a: Seq<char>) -> bool {
    exists|j: int| 0 <= j < hs.len() && (#[trigger] hs[j]).alias == a
}

/// The hosts whose alias did not occur earlier, in order.
pub open spec fn first_of_each_alias(hs: Seq<SshHostView>) -> Seq<SshHostView>
    decreases hs.len(),
{
    if hs.len() == 0 {
        Seq::empty()
    } else {
        let d = first_of_each_alias(hs.drop_last());
        if alias_seen(hs.drop_last(), hs.last().alias) {
            d
        } else {
            d.push(hs.last())
        }
    }
}

pub open spec fn imported(hs: Seq<SshHostView>, home: Seq<char>) -> Seq<ConnectionView> {
    first_of_each_alias(hs).map_values(|h: SshHostView| connection_of(h, home))
}

fn to_connection(h: &SshHost, home: &str) -> (c: Connection)
    ensures
        c@ == connection_of(h@, home@),
{
    Connection {
        name: h.alias.clone(),
        host: match &h.host_name {
            Some(n) => n.clone(),
            None => h.alias.clone(),
        },
        port: match h.port {
            Some(p) => p,
            None => 22,
        },
        user: clone_opt(&h.user),
        identity_file: match &h.identity_file {
            Some(f) => Some(expand_tilde(f.as_str(), home)),
            None => None,
        },
        sftp_dir: None,
        favorite: false,
        last_used: None,
    }
}

fn seen_before(seen: &Vec<Vec<char>>, a: &Vec<char>) -> (r: bool)
    ensures
        r == exists|j: int| 0 <= j < seen@.len() && (#[trigger] seen@[j])@ == a@,
{
    let mut i: usize = 0;
    while i < seen.len()
        invariant
            i <= seen@.len(),
            forall|j: int| 0 <= j < i ==> (#[trigger] seen@[j])@ != a@,
        decreases seen@.len() - i,
    {
        if chars_eq(&seen[i], a) {
            return true;
        }
        i += 1;
    }
    false
}

/// Connections for the config hosts: the first host of each alias, in order,
/// with `HostName` defaulting to the alias, `Port` to 22, and `~` in the key
/// file path expanded against `home`.
pub fn to_connections(hosts: Vec<SshHost>, home: &str) -> (r: Vec<Connection>)
    ensures
        r@.map_values(|c: Connection| c@) == imported(hosts@.map_values(|h: SshHost| h@), home@),
{
    let ghost hv = hosts@.map_values(|h: SshHost| h@);
    let mut out: Vec<Connection> = Vec::new();
    let mut seen: Vec<Vec<char>> = Vec::new();
    let mut i: usize = 0;
    while i < hosts.len()
        invariant
            i <= hosts@.len(),
            hv == hosts@.map_values(|h: SshHost| h@),
            seen@.len() == i,
            forall|j: int| 0 <= j < i ==> (#[trigger] seen@[j])@ == hv[j].alias,
            out@.map_values(|c: Connection| c@) == first_of_each_alias(hv.subrange(0, i as int)).map_values(
                |h: SshHostView| connection_of(h, home@),
            ),
        decreases hosts@.len() - i,
    {
        let ghost pre = hv.subrange(0, i as int);
        let ghost post = hv.subrange(0, i + 1);
        assert(post.drop_last() =~= pre);
        let a = chars_of(hosts[i].alias.as_str());
        let dup = seen_before(&seen, &a);
        assert(dup == alias_seen(pre, post.last().alias)) by {
            if dup {
                let j = choose|j: int| 0 <= j < seen@.len() && (#[trigger] seen@[j])@ == a@;
                assert(pre[j].alias == post.last().alias);
            }
            if alias_seen(pre, post.last().alias) {
                let j = choose|j: int| 0 <= j < pre.len() && (#[trigger] pre[j]).alias == post.last().alias;
                assert(seen@[j]@ == a@);
            }
        }
        if !dup {
            let c = to_connection(&hosts[i], home);
            let ghost before = out@.map_values(|c: Connection| c@);
            out.push(c);
            assert(out@.map_values(|c: Connection| c@) =~= before.push(connection_of(hv[i as int], home@)));
            assert(first_of_each_alias(post) == first_of_each_alias(pre).push(post.last()));
            assert(first_of_each_alias(post).map_values(|h: SshHostView| connection_of(h, home@)) =~=
                first_of_each_alias(pre).map_values(|h: SshHostView| connection_of(h, home@)).push(connection_of(post.last(), home@)));
        }
        seen.push(a);
        i += 1;
    }
    assert(hv.subrange(0, hosts@.len() as int) =~= hv);
    out
}

proof fn lemma_aliases_concrete(ws: Seq<Seq<char>>)
    ensures
        forall|k: int| 0 <= k < aliases_of(ws).len() ==> concrete_pattern(#[trigger] aliases_of(ws)[k]),
    decreases ws.len(),
{
    if ws.len() > 0 {
        lemma_aliases_concrete(ws.drop_last());
        let prev = aliases_of(ws.drop_last());
        assert forall|k: int| 0 <= k < aliases_of(ws).len() implies concrete_pattern(#[trigger] aliases_of(ws)[k]) by {
            if k < prev.len() {
                assert(aliases_of(ws)[k] == prev[k]);
            }
        }
    }
}

proof fn lemma_run_concrete(ls: Seq<Seq<char>>)
    ensures
        forall|k: int| 0 <= k < run(ls).hosts.len() ==> concrete_pattern(#[trigger] run(ls).hosts[k].alias),
    decreases ls.len(),
{
    if ls.len() > 0 {
        lemma_run_concrete(ls.drop_last());
        let st = run(ls.drop_last());
        let t = trim(ls.last());
        if t.len() > 0 && t[0] != '#' {
            match directive(t) {
                Some((kw, value)) => {
                    if ascii_lower(kw) == "host"@ {
                        lemma_aliases_concrete(words(value));
                        let added = host_aliases(value).map_values(|a: Seq<char>| new_host(a));
                        assert forall|k: int| 0 <= k < run(ls).hosts.len() implies concrete_pattern(
                            #[trigger] run(ls).hosts[k].alias,
                        ) by {
                            if k >= st.hosts.len() {
                                assert(run(ls).hosts[k] == added[k - st.hosts.len()]);
                                assert(added[k - st.hosts.len()].alias == host_aliases(value)[k - st.hosts.len()]);
                            }
                        }
                    }
                },
                None => {},
            }
        }
    }
}

/// Wildcard entries are skipped: every host the reader returns is named by
/// a concrete alias, without `*`, `?` or a leading `!`.
pub proof fn lemma_parsed_aliases_concrete(content: Seq<char>)
    ensures
        forall|k: int| 0 <= k < parse_config(content).len() ==> concrete_pattern(#[trigger] parse_config(content)[k].alias),
{
    lemma_run_concrete(lines(content));
}

/// The first value wins: a line never changes a field that an earlier line
/// of the same host already set, nor the hosts declared before it.
pub proof fn lemma_first_value_wins(st: ScanState, line: Seq<char>, k: int)
    requires
        0 <= k < st.hosts.len(),
    ensures
        k < step(st, line).hosts.len(),
        step(st, line).hosts[k].alias == st.hosts[k].alias,
        st.hosts[k].host_name is Some ==> step(st, line).hosts[k].host_name == st.hosts[k].host_name,
        st.hosts[k].user is Some ==> step(st, line).hosts[k].user == st.hosts[k].user,
        st.hosts[k].port is Some ==> step(st, line).hosts[k].port == st.hosts[k].port,
        st.hosts[k].identity_file is Some ==> step(st, line).hosts[k].identity_file == st.hosts[k].identity_file,
{
}

/// No two imported connections share a name.
pub proof fn lemma_imported_names_distinct(hs: Seq<SshHostView>, home: Seq<char>)
    ensures
        forall|i: int, j: int|
            0 <= i < j < imported(hs, home).len() ==> (#[trigger] imported(hs, home)[i]).name
                != (#[trigger] imported(hs, home)[j]).name,
{
    lemma_first_of_each_alias_distinct(hs);
}

/// Keeping the first host of each alias leaves no alias twice.
pub proof fn lemma_first_of_each_alias_distinct(hs: Seq<SshHostView>)
    ensures
        forall|i: int, j: int|
            0 <= i < j < first_of_each_alias(hs).len() ==> (#[trigger] first_of_each_alias(hs)[i]).alias
                != (#[trigger] first_of_each_alias(hs)[j]).alias,
        forall|i: int|
            0 <= i < first_of_each_alias(hs).len() ==> alias_seen(hs, (#[trigger] first_of_each_alias(hs)[i]).alias),
    decreases hs.len(),
{
    if hs.len() > 0 {
        let pre = hs.drop_last();
        lemma_first_of_each_alias_distinct(pre);
        let d = first_of_each_alias(pre);
        assert forall|i: int| 0 <= i < d.len() implies alias_seen(hs, (#[trigger] d[i]).alias) by {
            let j = choose|j: int| 0 <= j < pre.len() && (#[trigger] pre[j]).alias == d[i].alias;
            assert(hs[j] == pre[j]);
        }
        if !alias_seen(pre, hs.last().alias) {
            assert(alias_seen(hs, hs.last().alias)) by {
                assert(hs[hs.len() - 1] == hs.last());
            }
        }
    }
}

} // verus!
