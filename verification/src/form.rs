//! Add/edit connection form.

use vstd::prelude::*;

use crate::app::{Action, ActionView};
use crate::keys::{KeyCode, KeyEvent};
use crate::model::{Connection, ConnectionView, clone_opt, opt_view};
use crate::paths::{path_parent, std_path_parent};
use crate::text::{
    append_chars, chars_eq, chars_of, decimal, decimal_chars, is_digit, lemma_decimal_injective,
    lemma_decimal_value, parse_u16, parse_u16_chars, sign_stripped, string_of, trim, trim_end, trim_start,
    trimmed,
};

verus! {

/// Index of the favorite toggle; the text fields are 0..5
/// (name, host, port, user, key file).
pub const FAVORITE_FIELD: usize = 5;

pub struct FormScreen {
    pub editing: Option<usize>,
    pub fields: [String; 5],
    pub favorite: bool,
    pub focus: usize,
    pub error: Option<String>,
    /// Preserved so an edit keeps its last_used timestamp.
    pub last_used: Option<u64>,
    /// Preserved so an edit keeps the connection's SFTP start directory.
    pub sftp_dir: Option<String>,
}

pub struct FormView {
    pub editing: Option<usize>,
    pub fields: Seq<Seq<char>>,
    pub favorite: bool,
    pub focus: usize,
    pub error: Option<Seq<char>>,
    pub last_used: Option<u64>,
    pub sftp_dir: Option<Seq<char>>,
}

impl View for FormScreen {
    type V = FormView;

    open spec fn view(&self) -> FormView {
        FormView {
            editing: self.editing,
            fields: self.fields@.map_values(|f: String| f@),
            favorite: self.favorite,
            focus: self.focus,
            error: opt_view(self.error),
            last_used: self.last_used,
            sftp_dir: opt_view(self.sftp_dir),
        }
    }
}

// ------------------------------------------------------------------ names

pub open spec fn copy_open() -> Seq<char> {
    seq![' ', '(', 'c', 'o', 'p', 'y']
}

/// `base (copy)` for `n < 2`, else `base (copy n)`.
pub open spec fn copy_name(base: Seq<char>, n: nat) -> Seq<char> {
    if n < 2 {
        base + copy_open() + seq![')']
    } else {
        base + copy_open() + seq![' '] + decimal(n) + seq![')']
    }
}

pub open spec fn name_taken(conns: Seq<ConnectionView>, name: Seq<char>) -> bool {
    exists|i: int| 0 <= i < conns.len() && (#[trigger] conns[i]).name == name
}

/// The name `duplicate_name` picks: `base (copy)` if free, else
/// `base (copy n)` for the least `n >= 2` that is free.
pub open spec fn is_first_free_copy_name(conns: Seq<ConnectionView>, base: Seq<char>, r: Seq<char>) -> bool {
    ||| (!name_taken(conns, copy_name(base, 1)) && r == copy_name(base, 1))
    ||| (name_taken(conns, copy_name(base, 1)) && exists|n: nat|
        2 <= n && r == copy_name(base, n) && !name_taken(conns, copy_name(base, n)) && forall|m: nat|
            2 <= m < n ==> name_taken(conns, #[trigger] copy_name(base, m)))
}

pub open spec fn is_later_copy(s: Seq<char>, base: Seq<char>, n: nat) -> bool {
    exists|m: nat| n <= m && 2 <= m && s == #[trigger] copy_name(base, m)
}

pub open spec fn later_copies(conns: Seq<ConnectionView>, base: Seq<char>, n: nat) -> nat
    decreases conns.len(),
{
    if conns.len() == 0 {
        0
    } else {
        later_copies(conns.drop_last(), base, n) + if is_later_copy(conns.last().name, base, n) {
            1nat
        } else {
            0nat
        }
    }
}

proof fn lemma_copy_name_injective(base: Seq<char>, a: nat, b: nat)
    requires
        2 <= a,
        2 <= b,
        copy_name(base, a) == copy_name(base, b),
    ensures
        a == b,
{
    let p = base + copy_open() + seq![' '];
    let da = decimal(a);
    let db = decimal(b);
    assert(copy_name(base, a) == p + da + seq![')']);
    assert(copy_name(base, b) == p + db + seq![')']);
    assert(da.len() == db.len());
    assert(da =~= copy_name(base, a).subrange(p.len() as int, (p.len() + da.len()) as int));
    assert(db =~= copy_name(base, b).subrange(p.len() as int, (p.len() + db.len()) as int));
    lemma_decimal_injective(a, b);
}

proof fn lemma_later_copies(conns: Seq<ConnectionView>, base: Seq<char>, n: nat)
    requires
        2 <= n,
    ensures
        later_copies(conns, base, n) <= conns.len(),
        later_copies(conns, base, n + 1) <= later_copies(conns, base, n),
        name_taken(conns, copy_name(base, n)) ==> later_copies(conns, base, n + 1) < later_copies(
            conns,
            base,
            n,
        ),
    decreases conns.len(),
{
    if conns.len() > 0 {
        let pre = conns.drop_last();
        lemma_later_copies(pre, base, n);
        let s = conns.last().name;
        if is_later_copy(s, base, n + 1) {
            let m = choose|m: nat| n + 1 <= m && 2 <= m && s == #[trigger] copy_name(base, m);
            assert(is_later_copy(s, base, n));
        }
        if s == copy_name(base, n) {
            assert(is_later_copy(s, base, n));
            if is_later_copy(s, base, n + 1) {
                let m = choose|m: nat| n + 1 <= m && 2 <= m && s == #[trigger] copy_name(base, m);
                lemma_copy_name_injective(base, m, n);
            }
        }
        if name_taken(conns, copy_name(base, n)) && s != copy_name(base, n) {
            let i = choose|i: int| 0 <= i < conns.len() && (#[trigger] conns[i]).name == copy_name(base, n);
            assert(pre[i] == conns[i]);
            assert(name_taken(pre, copy_name(base, n)));
        }
    }
}

fn is_taken(connections: &[Connection], name: &Vec<char>) -> (r: bool)
    ensures
        r == name_taken(connections@.map_values(|c: Connection| c@), name@),
{
    let ghost cv = connections@.map_values(|c: Connection| c@);
    let mut i: usize = 0;
    while i < connections.len()
        invariant
            i <= connections@.len(),
            cv == connections@.map_values(|c: Connection| c@),
            forall|k: int| 0 <= k < i ==> (#[trigger] cv[k]).name != name@,
        decreases connections@.len() - i,
    {
        let n = chars_of(connections[i].name.as_str());
        if chars_eq(&n, name) {
            assert(cv[i as int].name == name@);
            return true;
        }
        i += 1;
    }
    false
}

fn copy_name_chars(base: &Vec<char>, n: u128) -> (r: Vec<char>)
    ensures
        r@ == copy_name(base@, n as nat),
{
    let mut r = base.clone();
    r.push(' ');
    r.push('(');
    r.push('c');
    r.push('o');
    r.push('p');
    r.push('y');
    if n >= 2 {
        r.push(' ');
        let d = decimal_chars(n);
        append_chars(&mut r, &d);
    }
    r.push(')');
    assert(r@ =~= copy_name(base@, n as nat));
    r
}

/// "name (copy)", "name (copy 2)", ... — the first variant not already taken.
pub fn duplicate_name(base: &str, connections: &[Connection]) -> (r: String)
    ensures
        is_first_free_copy_name(connections@.map_values(|c: Connection| c@), base@, r@),
{
    let ghost cv = connections@.map_values(|c: Connection| c@);
    let b = chars_of(base);
    let first = copy_name_chars(&b, 1);
    if !is_taken(connections, &first) {
        return string_of(&first);
    }
    let len = connections.len();
    let mut n: u128 = 2;
    proof {
        lemma_later_copies(cv, base@, 2);
    }
    loop
        invariant
            b@ == base@,
            cv == connections@.map_values(|c: Connection| c@),
            name_taken(cv, copy_name(base@, 1)),
            2 <= n,
            cv.len() == connections@.len(),
            len == connections@.len(),
            n + later_copies(cv, base@, n as nat) <= cv.len() + 2,
            forall|m: nat| 2 <= m < n ==> name_taken(cv, #[trigger] copy_name(base@, m)),
        decreases later_copies(cv, base@, n as nat),
    {
        let c = copy_name_chars(&b, n);
        if !is_taken(connections, &c) {
            return string_of(&c);
        }
        proof {
            lemma_later_copies(cv, base@, n as nat);
            assert forall|m: nat| 2 <= m < n + 1 implies name_taken(cv, #[trigger] copy_name(base@, m)) by {
                if m < n {
                } else {
                    assert(m == n);
                }
            }
        }
        n = n + 1;
    }
}

// ------------------------------------------------------------------ validation

/// The port a port field gives: 22 when blank, else a number from 1 to 65535.
pub open spec fn port_of_field(s: Seq<char>) -> Option<u16> {
    let t = trim(s);
    if t.len() == 0 {
        Some(22)
    } else {
        match parse_u16(t) {
            Some(p) => if p > 0 {
                Some(p)
            } else {
                None
            },
            None => None,
        }
    }
}

pub open spec fn name_taken_by_other(conns: Seq<ConnectionView>, editing: Option<usize>, name: Seq<char>) -> bool {
    exists|i: int|
        0 <= i < conns.len() && editing != Some(i as usize) && (#[trigger] conns[i]).name == name
}

pub open spec fn nonempty(s: Seq<char>) -> Option<Seq<char>> {
    if s.len() == 0 {
        None
    } else {
        Some(s)
    }
}

/// What submitting the form yields: the connection it describes, or the
/// message shown. `key_file_exists` tells whether the trimmed key-file text
/// names an existing regular file.
pub open spec fn validated(f: FormView, conns: Seq<ConnectionView>, key_file_exists: bool) -> Result<ConnectionView, Seq<char>> {
    let name = trim(f.fields[0]);
    let host = trim(f.fields[1]);
    let key = trim(f.fields[4]);
    if name.len() == 0 {
        Err("Name is required"@)
    } else if host.len() == 0 {
        Err("Host is required"@)
    } else if name_taken_by_other(conns, f.editing, name) {
        Err("A connection named \""@ + name + "\" already exists"@)
    } else {
        match port_of_field(f.fields[2]) {
            None => Err("Port must be between 1 and 65535"@),
            Some(port) => if key.len() > 0 && !key_file_exists {
                Err("Key file not found: "@ + key)
            } else {
                Ok(
                    ConnectionView {
                        name,
                        host,
                        port,
                        user: nonempty(trim(f.fields[3])),
                        identity_file: nonempty(key),
                        sftp_dir: f.sftp_dir,
                        favorite: f.favorite,
                        last_used: f.last_used,
                    },
                )
            },
        }
    }
}

pub open spec fn is_ascii_digit(c: char) -> bool {
    48 <= (c as u32) <= 57
}

pub open spec fn with_field(f: FormView, i: int, v: Seq<char>) -> FormView {
    FormView { fields: f.fields.update(i, v), ..f }
}

/// The form and the action after one key.
pub open spec fn form_key(f: FormView, key: KeyEvent, conns: Seq<ConnectionView>, key_file_exists: bool) -> (FormView, ActionView) {
    match key.code {
        KeyCode::Esc => (f, ActionView::CancelForm),
        KeyCode::Tab | KeyCode::Down => (FormView { focus: ((f.focus + 1) % 6) as usize, ..f }, ActionView::Nothing),
        KeyCode::BackTab | KeyCode::Up => (FormView { focus: ((f.focus + 5) % 6) as usize, ..f }, ActionView::Nothing),
        KeyCode::Enter => match validated(f, conns, key_file_exists) {
            Ok(c) => (f, ActionView::SubmitForm(f.editing, c)),
            Err(msg) => (FormView { error: Some(msg), ..f }, ActionView::Nothing),
        },
        KeyCode::Char(c) => if key.ctrl && c == 'o' {
            if f.focus == 4 {
                (f, ActionView::OpenPicker(std_path_parent(trim(f.fields[4]))))
            } else {
                (f, ActionView::Nothing)
            }
        } else if c == ' ' && f.focus == FAVORITE_FIELD {
            (FormView { favorite: !f.favorite, ..f }, ActionView::Nothing)
        } else if !key.ctrl && f.focus < 5 {
            if f.focus == 2 && !is_ascii_digit(c) {
                (f, ActionView::Nothing)
            } else {
                (with_field(f, f.focus as int, f.fields[f.focus as int].push(c)), ActionView::Nothing)
            }
        } else {
            (f, ActionView::Nothing)
        },
        KeyCode::Backspace => if f.focus < 5 {
            let t = f.fields[f.focus as int];
            (with_field(f, f.focus as int, if t.len() > 0 { t.drop_last() } else { t }), ActionView::Nothing)
        } else {
            (f, ActionView::Nothing)
        },
        _ => (f, ActionView::Nothing),
    }
}

/// Duplicated names stay unique: the copy name is one no connection has.
pub proof fn lemma_copy_name_is_free(conns: Seq<ConnectionView>, base: Seq<char>, r: Seq<char>)
    requires
        is_first_free_copy_name(conns, base, r),
    ensures
        !name_taken(conns, r),
{
}

/// The empty form for a new connection.
pub open spec fn add_form(f: FormView) -> bool {
    &&& f.editing is None
    &&& f.fields.len() == 5
    &&& forall|i: int| 0 <= i < 5 ==> (#[trigger] f.fields[i]).len() == 0
    &&& !f.favorite
    &&& f.focus == 0
    &&& f.error is None
    &&& f.last_used is None
    &&& f.sftp_dir is None
}

pub open spec fn or_empty(o: Option<Seq<char>>) -> Seq<char> {
    match o {
        Some(s) => s,
        None => Seq::empty(),
    }
}

/// The fields after the name, filled from a connection.
pub open spec fn filled_from(f: FormView, c: ConnectionView) -> bool {
    &&& f.fields.len() == 5
    &&& f.fields[1] == c.host
    &&& f.fields[2] == decimal(c.port as nat)
    &&& f.fields[3] == or_empty(c.user)
    &&& f.fields[4] == or_empty(c.identity_file)
    &&& f.favorite == c.favorite
    &&& f.focus == 0
    &&& f.error is None
    &&& f.sftp_dir == c.sftp_dir
}

/// The form filled from `c`, editing the store entry `idx`.
pub open spec fn edit_form(f: FormView, idx: usize, c: ConnectionView) -> bool {
    &&& filled_from(f, c)
    &&& f.editing == Some(idx)
    &&& f.fields[0] == c.name
    &&& f.last_used == c.last_used
}

/// A copy of `c` under the first free copy name, saved as a new entry.
pub open spec fn duplicate_form(f: FormView, c: ConnectionView, conns: Seq<ConnectionView>) -> bool {
    &&& filled_from(f, c)
    &&& f.editing is None
    &&& is_first_free_copy_name(conns, c.name, f.fields[0])
    &&& f.last_used is None
}

impl FormScreen {
    pub open spec fn wf(&self) -> bool {
        self.focus < 6
    }

    pub fn new_add() -> (r: Self)
        ensures
            r.wf(),
            add_form(r@),
    {
        FormScreen {
            editing: None,
            fields: [String::new(), String::new(), String::new(), String::new(), String::new()],
            favorite: false,
            focus: 0,
            error: None,
            last_used: None,
            sftp_dir: None,
        }
    }

    /// The form filled from a connection, for editing the store entry `idx`.
    pub fn new_edit(idx: usize, conn: &Connection) -> (r: Self)
        ensures
            r.wf(),
            edit_form(r@, idx, conn@),
    {
        let port = decimal_chars(conn.port as u128);
        let user = match &conn.user {
            Some(u) => u.clone(),
            None => String::new(),
        };
        let key = match &conn.identity_file {
            Some(k) => k.clone(),
            None => String::new(),
        };
        FormScreen {
            editing: Some(idx),
            fields: [conn.name.clone(), conn.host.clone(), string_of(&port), user, key],
            favorite: conn.favorite,
            focus: 0,
            error: None,
            last_used: conn.last_used,
            sftp_dir: clone_opt(&conn.sftp_dir),
        }
    }

    /// Pre-filled copy of an existing connection, saved as a NEW entry.
    pub fn new_duplicate(conn: &Connection, connections: &[Connection]) -> (r: Self)
        ensures
            r.wf(),
            duplicate_form(r@, conn@, connections@.map_values(|c: Connection| c@)),
    {
        let mut form = Self::new_edit(0, conn);
        form.editing = None;
        form.fields[0] = duplicate_name(conn.name.as_str(), connections);
        form.last_used = None;
        form
    }

    pub fn set_key_path(&mut self, path: String)
        ensures
            final(self)@ == with_field(old(self)@, 4, path@),
            final(self).wf() == old(self).wf(),
    {
        self.fields[4] = path;
        assert(self@.fields =~= old(self)@.fields.update(4, path@));
    }

    /// The directory the key-file picker should start in, if the key field
    /// names a path that has one.
    pub fn picker_start(&self) -> (r: Option<String>)
        ensures
            opt_view(r) == std_path_parent(trim(self@.fields[4])),
    {
        let t = trimmed(self.fields[4].as_str());
        let ts = string_of(&t);
        path_parent(ts.as_str())
    }

    pub fn validate(&self, connections: &[Connection], key_file_exists: bool) -> (r: Result<Connection, String>)
        ensures
            match (r, validated(self@, connections@.map_values(|c: Connection| c@), key_file_exists)) {
                (Ok(c), Ok(cv)) => c@ == cv,
                (Err(e), Err(ev)) => e@ == ev,
                _ => false,
            },
    {
        let ghost cv = connections@.map_values(|c: Connection| c@);
        let name = trimmed(self.fields[0].as_str());
        let host = trimmed(self.fields[1].as_str());
        if name.len() == 0 {
            return Err("Name is required".to_owned());
        }
        if host.len() == 0 {
            return Err("Host is required".to_owned());
        }
        let mut i: usize = 0;
        while i < connections.len()
            invariant
                i <= connections@.len(),
                cv == connections@.map_values(|c: Connection| c@),
                name@ == trim(self@.fields[0]),
                host@ == trim(self@.fields[1]),
                name@.len() > 0,
                host@.len() > 0,
                forall|k: int| 0 <= k < i ==> !(self.editing != Some(k as usize) && (#[trigger] cv[k]).name == name@),
            decreases connections@.len() - i,
        {
            let other = match self.editing {
                Some(e) => e != i,
                None => true,
            };
            if other {
                let n = chars_of(connections[i].name.as_str());
                if chars_eq(&n, &name) {
                    assert(self.editing != Some(i) && cv[i as int].name == name@);
                    let mut msg = chars_of("A connection named \"");
                    append_chars(&mut msg, &name);
                    let tail = chars_of("\" already exists");
                    append_chars(&mut msg, &tail);
                    assert(name_taken_by_other(cv, self.editing, name@));
                    assert(msg@ == "A connection named \""@ + name@ + "\" already exists"@);
                    return Err(string_of(&msg));
                }
            }
            i += 1;
        }
        let port_text = trimmed(self.fields[2].as_str());
        let port: u16 = if port_text.len() == 0 {
            22
        } else {
            match parse_u16_chars(&port_text) {
                Some(p) => {
                    if p > 0 {
                        p
                    } else {
                        return Err("Port must be between 1 and 65535".to_owned());
                    }
                },
                None => {
                    return Err("Port must be between 1 and 65535".to_owned());
                },
            }
        };
        let user = trimmed(self.fields[3].as_str());
        let key = trimmed(self.fields[4].as_str());
        let identity_file = if key.len() == 0 {
            None
        } else {
            if !key_file_exists {
                let mut msg = chars_of("Key file not found: ");
                append_chars(&mut msg, &key);
                return Err(string_of(&msg));
            }
            Some(string_of(&key))
        };
        Ok(Connection {
            name: string_of(&name),
            host: string_of(&host),
            port,
            user: if user.len() == 0 {
                None
            } else {
                Some(string_of(&user))
            },
            identity_file,
            favorite: self.favorite,
            last_used: self.last_used,
            sftp_dir: clone_opt(&self.sftp_dir),
        })
    }

    /// One key press: edits the focused field, moves the focus, toggles the
    /// favorite, or asks to save (after validation), cancel or browse for a key.
    pub fn handle_key(&mut self, key: KeyEvent, connections: &[Connection], key_file_exists: bool) -> (r: Action)
        requires
            old(self).wf(),
        ensures
            final(self).wf(),
            (final(self)@, r@) == form_key(old(self)@, key, connections@.map_values(|c: Connection| c@), key_file_exists),
    {
        let ctrl = key.ctrl;
        match key.code {
            KeyCode::Esc => {
                return Action::CancelForm;
            },
            KeyCode::Tab | KeyCode::Down => {
                self.focus = (self.focus + 1) % 6;
            },
            KeyCode::BackTab | KeyCode::Up => {
                self.focus = (self.focus + 5) % 6;
            },
            KeyCode::Enter => match self.validate(connections, key_file_exists) {
                Ok(conn) => {
                    return Action::SubmitForm(self.editing, conn);
                },
                Err(msg) => {
                    self.error = Some(msg);
                },
            },
            KeyCode::Char(c) => {
                if ctrl && c == 'o' {
                    if self.focus == 4 {
                        return Action::OpenPicker(self.picker_start());
                    }
                } else if c == ' ' && self.focus == FAVORITE_FIELD {
                    self.favorite = !self.favorite;
                } else if !ctrl && self.focus < 5 {
                    let u = c as u32;
                    if self.focus == 2 && !(48 <= u && u <= 57) {
                        return Action::Nothing;
                    }
                    let mut t = chars_of(self.fields[self.focus].as_str());
                    t.push(c);
                    let i = self.focus;
                    self.fields[i] = string_of(&t);
                    assert(self@.fields =~= old(self)@.fields.update(i as int, old(self)@.fields[i as int].push(c)));
                }
            },
            KeyCode::Backspace => {
                if self.focus < 5 {
                    let mut t = chars_of(self.fields[self.focus].as_str());
                    let i = self.focus;
                    if t.len() > 0 {
                        t.pop();
                    }
                    self.fields[i] = string_of(&t);
                    assert(self@.fields =~= old(self)@.fields.update(
                        i as int,
                        if old(self)@.fields[i as int].len() > 0 {
                            old(self)@.fields[i as int].drop_last()
                        } else {
                            old(self)@.fields[i as int]
                        },
                    ));
                }
            },
            _ => {},
        }
        Action::Nothing
    }
}

proof fn lemma_decimal_trimmed(n: nat)
    ensures
        trim(decimal(n)) == decimal(n),
        sign_stripped(decimal(n)) == decimal(n),
{
    lemma_decimal_value(n);
    let d = decimal(n);
    assert(is_digit(d[0]));
    assert(is_digit(d[d.len() - 1]));
    assert(trim_start(d) == d);
    assert(trim_end(d) == d);
}

/// Saving an edit form that was not changed gives back the connection it was
/// filled from: its own name does not count as taken, the port text reads
/// back as the port, and the favorite mark, the last use and the SFTP start
/// directory are kept.
pub proof fn lemma_unchanged_edit_validates(
    f: FormView,
    i: usize,
    c: ConnectionView,
    conns: Seq<ConnectionView>,
    key_file_exists: bool,
)
    requires
        edit_form(f, i, c),
        c.name.len() > 0 && trim(c.name) == c.name,
        c.host.len() > 0 && trim(c.host) == c.host,
        c.port >= 1,
        c.user matches Some(u) ==> u.len() > 0 && trim(u) == u,
        c.identity_file matches Some(k) ==> k.len() > 0 && trim(k) == k && key_file_exists,
        forall|j: int| 0 <= j < conns.len() && j != i ==> (#[trigger] conns[j]).name != c.name,
    ensures
        validated(f, conns, key_file_exists) == Ok::<ConnectionView, Seq<char>>(c),
{
    lemma_decimal_trimmed(c.port as nat);
    lemma_decimal_value(c.port as nat);
    assert(trim(Seq::<char>::empty()) == Seq::<char>::empty());
    assert(port_of_field(f.fields[2]) == Some(c.port));
    assert(!name_taken_by_other(conns, f.editing, c.name));
}

/// A submitted form never yields a second connection under a name that
/// another entry already has (the entry being edited does not count), and
/// what it yields has the trimmed, non-empty name and host of the form, a
/// port from 1 to 65535, and a key file only when that file exists.
pub proof fn lemma_validated_names_stay_unique(f: FormView, conns: Seq<ConnectionView>, key_file_exists: bool)
    ensures
        validated(f, conns, key_file_exists) matches Ok(c) ==> {
            &&& forall|j: int| 0 <= j < conns.len() && f.editing != Some(j as usize) ==> (#[trigger] conns[j]).name != c.name
            &&& c.name == trim(f.fields[0]) && c.name.len() > 0
            &&& c.host == trim(f.fields[1]) && c.host.len() > 0
            &&& c.port >= 1
            &&& c.identity_file is Some ==> key_file_exists
        },
{
}

/// A name that another entry already has is refused with the message naming
/// it, whatever the other fields hold.
pub proof fn lemma_duplicate_name_refused(f: FormView, conns: Seq<ConnectionView>, key_file_exists: bool, j: int)
    requires
        0 <= j < conns.len(),
        f.editing != Some(j as usize),
        conns[j].name == trim(f.fields[0]),
        trim(f.fields[0]).len() > 0,
        trim(f.fields[1]).len() > 0,
    ensures
        validated(f, conns, key_file_exists) == Err::<ConnectionView, Seq<char>>(
            "A connection named \""@ + trim(f.fields[0]) + "\" already exists"@,
        ),
{
    assert(name_taken_by_other(conns, f.editing, trim(f.fields[0])));
}

} // verus!
