//! Connection list: vim-style modal UX. Single letters are actions; `/`
//! focuses the fuzzy search. While searching, typing edits the query and
//! Enter connects to the selection.

use vstd::prelude::*;

use crate::app::{Action, ActionView};
use crate::fuzzy::{fuzzy_match, skim_score};
use crate::keys::{KeyCode, KeyEvent};
use crate::model::{Connection, ConnectionView, search_text_of, opt_view};
use crate::pane::{indices_where, lemma_indices_where, moved};
use crate::sort::{
    before, is_order_of, keys_view, lemma_text_lt_irreflexive, lemma_text_lt_total, sorted_by, stable_sort, text_lt, SortKey,
    SortKeyView,
};
use crate::text::{append_chars, chars_of, decimal, decimal_chars, string_of, to_lowercase, unicode_lowercase};

verus! {

pub enum ListModal {
    ConfirmDelete(usize),
    ImportPrompt(Vec<Connection>),
}

pub enum ListModalView {
    ConfirmDelete(usize),
    ImportPrompt(Seq<ConnectionView>),
}

pub open spec fn conns_view(cs: Seq<Connection>) -> Seq<ConnectionView> {
    cs.map_values(|c: Connection| c@)
}

impl View for ListModal {
    type V = ListModalView;

    open spec fn view(&self) -> ListModalView {
        match self {
            ListModal::ConfirmDelete(i) => ListModalView::ConfirmDelete(*i),
            ListModal::ImportPrompt(cs) => ListModalView::ImportPrompt(conns_view(cs@)),
        }
    }
}

pub struct ListScreen {
    pub query: String,
    /// True while `/` search mode is active (typing edits the query).
    pub searching: bool,
    /// Indices into the store's connection vec, in display order.
    pub filtered: Vec<usize>,
    pub selected: usize,
    pub modal: Option<ListModal>,
    pub status: Option<String>,
}

pub struct ListView {
    pub query: Seq<char>,
    pub searching: bool,
    pub filtered: Seq<usize>,
    pub selected: usize,
    pub modal: Option<ListModalView>,
    pub status: Option<Seq<char>>,
}

pub open spec fn modal_view(m: Option<ListModal>) -> Option<ListModalView> {
    match m {
        Some(x) => Some(x@),
        None => None,
    }
}

impl View for ListScreen {
    type V = ListView;

    open spec fn view(&self) -> ListView {
        ListView {
            query: self.query@,
            searching: self.searching,
            filtered: self.filtered@,
            selected: self.selected,
            modal: modal_view(self.modal),
            status: opt_view(self.status),
        }
    }
}

// ------------------------------------------------------------------ ordering

/// Without a query: favorites first, then most recently used, then by
/// lower-cased name.
pub open spec fn plain_key(c: ConnectionView) -> SortKeyView {
    SortKeyView {
        major: if c.favorite { 0 } else { 1 },
        minor: -(match c.last_used {
            Some(t) => t as int,
            None => 0,
        }),
        text: unicode_lowercase(c.name),
    }
}

pub open spec fn query_score(c: ConnectionView, q: Seq<char>) -> int {
    match skim_score(search_text_of(c), q) {
        Some(s) => s as int,
        None => 0,
    }
}

/// With a query: best fuzzy score first, then favorites, then by name.
pub open spec fn query_key(c: ConnectionView, q: Seq<char>) -> SortKeyView {
    SortKeyView { major: -query_score(c, q), minor: if c.favorite { 0 } else { 1 }, text: c.name }
}

pub open spec fn plain_keys(cs: Seq<ConnectionView>) -> Seq<SortKeyView> {
    cs.map_values(|c: ConnectionView| plain_key(c))
}

pub open spec fn query_keys(cs: Seq<ConnectionView>, q: Seq<char>) -> Seq<SortKeyView> {
    cs.map_values(|c: ConnectionView| query_key(c, q))
}

pub open spec fn query_matches(c: ConnectionView, q: Seq<char>) -> bool {
    skim_score(search_text_of(c), q) is Some
}

/// The display order for a query: every connection, ordered, when the query
/// is empty; otherwise the connections whose search text matches, ordered.
/// Ties keep store order.
pub open spec fn list_order(cs: Seq<ConnectionView>, q: Seq<char>, r: Seq<usize>) -> bool {
    if q.len() == 0 {
        is_order_of(plain_keys(cs), r)
    } else {
        &&& forall|x: usize| r.contains(x) <==> (x < cs.len() && query_matches(cs[x as int], q))
        &&& sorted_by(query_keys(cs, q), r)
    }
}

/// The selection kept within the shown rows.
pub open spec fn clamped(selected: usize, len: nat) -> usize {
    if len == 0 {
        0
    } else if selected > len - 1 {
        (len - 1) as usize
    } else {
        selected
    }
}

/// `new` is `old` with the rows recomputed for its query.
pub open spec fn refiltered(old: ListView, cs: Seq<ConnectionView>, new: ListView) -> bool {
    &&& list_order(cs, old.query, new.filtered)
    &&& new.selected == clamped(old.selected, new.filtered.len())
    &&& new.query == old.query
    &&& new.searching == old.searching
    &&& new.modal == old.modal
    &&& new.status == old.status
}

pub open spec fn list_wf(l: ListView, n: nat) -> bool {
    forall|k: int| 0 <= k < l.filtered.len() ==> (#[trigger] l.filtered[k]) < n
}

/// The store index of the selected row.
pub open spec fn selected_idx(l: ListView) -> Option<usize> {
    if l.selected < l.filtered.len() {
        Some(l.filtered[l.selected as int])
    } else {
        None
    }
}

pub open spec fn last_use(c: ConnectionView) -> int {
    match c.last_used {
        Some(t) => t as int,
        None => 0,
    }
}

/// Without a query, favorites sort first, then the most recently used.
pub proof fn lemma_favorites_first(cs: Seq<ConnectionView>, r: Seq<usize>, a: int, b: int)
    requires
        list_order(cs, Seq::empty(), r),
        0 <= a < b < r.len(),
    ensures
        cs[r[a] as int].favorite || !cs[r[b] as int].favorite,
        cs[r[a] as int].favorite == cs[r[b] as int].favorite ==> last_use(cs[r[a] as int]) >= last_use(cs[r[b] as int]),
{
    let keys = plain_keys(cs);
    assert(r.contains(r[a]));
    assert(r.contains(r[b]));
    assert(before(keys, r[a], r[b]));
    assert(keys[r[a] as int] == plain_key(cs[r[a] as int]));
    assert(keys[r[b] as int] == plain_key(cs[r[b] as int]));
}

/// With a query, only matching connections are shown, and a connection shown
/// above another has a fuzzy score at least as high; on equal scores a
/// favorite comes first, then the name that sorts first, then store order.
pub proof fn lemma_best_match_first(cs: Seq<ConnectionView>, q: Seq<char>, r: Seq<usize>, a: int, b: int)
    requires
        list_order(cs, q, r),
        q.len() > 0,
        0 <= a < b < r.len(),
    ensures
        r[a] < cs.len() && r[b] < cs.len(),
        skim_score(search_text_of(cs[r[a] as int]), q) is Some,
        skim_score(search_text_of(cs[r[b] as int]), q) is Some,
        skim_score(search_text_of(cs[r[a] as int]), q)->Some_0 >= skim_score(search_text_of(cs[r[b] as int]), q)->Some_0,
        skim_score(search_text_of(cs[r[a] as int]), q) == skim_score(search_text_of(cs[r[b] as int]), q)
            ==> cs[r[a] as int].favorite || !cs[r[b] as int].favorite,
        skim_score(search_text_of(cs[r[a] as int]), q) == skim_score(search_text_of(cs[r[b] as int]), q)
            && cs[r[a] as int].favorite == cs[r[b] as int].favorite ==> !text_lt(cs[r[b] as int].name, cs[r[a] as int].name)
            && (cs[r[a] as int].name == cs[r[b] as int].name ==> r[a] < r[b]),
{
    let keys = query_keys(cs, q);
    let x = cs[r[a] as int];
    let y = cs[r[b] as int];
    assert(r.contains(r[a]));
    assert(r.contains(r[b]));
    assert(before(keys, r[a], r[b]));
    assert(keys[r[a] as int] == query_key(x, q));
    assert(keys[r[b] as int] == query_key(y, q));
    lemma_text_lt_total(x.name, y.name);
    lemma_text_lt_irreflexive(x.name);
}

impl ListScreen {
    pub fn new() -> (r: Self)
        ensures
            r@.query.len() == 0,
            !r.searching,
            r@.filtered.len() == 0,
            r.selected == 0,
            r.modal is None,
            r.status is None,
    {
        ListScreen {
            query: String::new(),
            searching: false,
            filtered: Vec::new(),
            selected: 0,
            modal: None,
            status: None,
        }
    }

    pub fn selected_store_idx(&self) -> (r: Option<usize>)
        ensures
            r == selected_idx(self@),
    {
        if self.selected < self.filtered.len() {
            Some(self.filtered[self.selected])
        } else {
            None
        }
    }

    /// Recompute the rows for the current query over the connections.
    pub fn refilter(&mut self, connections: &[Connection])
        ensures
            refiltered(old(self)@, conns_view(connections@), final(self)@),
            list_wf(final(self)@, connections@.len()),
    {
        let ghost cs = conns_view(connections@);
        let n = connections.len();
        let query = chars_of(self.query.as_str());
        let mut keys: Vec<SortKey> = Vec::new();
        let mut cands: Vec<usize> = Vec::new();
        if query.len() == 0 {
            let mut i: usize = 0;
            while i < n
                invariant
                    i <= n,
                    n == cs.len(),
                    cs == conns_view(connections@),
                    keys@.len() == i,
                    forall|k: int| 0 <= k < i ==> (#[trigger] keys@[k])@ == plain_key(cs[k]),
                    cands@.len() == i,
                    forall|k: int| 0 <= k < i ==> cands@[k] == k,
                decreases n - i,
            {
                let c = &connections[i];
                let lower = to_lowercase(c.name.as_str());
                let last: u64 = match c.last_used {
                    Some(t) => t,
                    None => 0,
                };
                let key = SortKey {
                    major: if c.favorite { 0 } else { 1 },
                    minor: -(last as i128),
                    text: chars_of(lower.as_str()),
                };
                assert(key@ =~= plain_key(cs[i as int]));
                keys.push(key);
                cands.push(i);
                i += 1;
            }
            assert(keys_view(keys@) =~= plain_keys(cs));
            let order = stable_sort(&cands, &keys);
            proof {
                assert forall|x: usize| order@.contains(x) <==> x < n by {
                    if x < n {
                        assert(cands@[x as int] == x);
                        assert(cands@.contains(x));
                    }
                    if order@.contains(x) {
                        let m = choose|m: int| 0 <= m < cands@.len() && cands@[m] == x;
                    }
                }
                assert forall|k: int| 0 <= k < order@.len() implies #[trigger] order@[k] < n by {
                    assert(order@.contains(order@[k]));
                }
            }
            self.filtered = order;
        } else {
            let ghost p = |i: int| query_matches(cs[i], query@);
            let mut i: usize = 0;
            while i < n
                invariant
                    i <= n,
                    n == cs.len(),
                    cs == conns_view(connections@),
                    query@ == self@.query,
                    keys@.len() == i,
                    forall|k: int| 0 <= k < i ==> (#[trigger] keys@[k])@ == query_key(cs[k], query@),
                    cands@ == indices_where(i as nat, p),
                    forall|k: int| p(k) == query_matches(cs[k], query@),
                decreases n - i,
            {
                let c = &connections[i];
                let text = c.search_text();
                let score = fuzzy_match(text.as_str(), self.query.as_str());
                let s: i64 = match score {
                    Some(v) => v,
                    None => 0,
                };
                let key = SortKey {
                    major: -(s as i128),
                    minor: if c.favorite { 0 } else { 1 },
                    text: chars_of(c.name.as_str()),
                };
                assert(key@ =~= query_key(cs[i as int], query@));
                keys.push(key);
                assert(indices_where((i + 1) as nat, p) == if p(i as int) {
                    indices_where(i as nat, p).push(i)
                } else {
                    indices_where(i as nat, p)
                });
                if score.is_some() {
                    cands.push(i);
                }
                i += 1;
            }
            proof {
                lemma_indices_where(n as nat, p);
            }
            assert(keys_view(keys@) =~= query_keys(cs, query@));
            let order = stable_sort(&cands, &keys);
            proof {
                assert forall|k: int| 0 <= k < order@.len() implies #[trigger] order@[k] < n by {
                    assert(order@.contains(order@[k]));
                }
            }
            self.filtered = order;
        }
        let len = self.filtered.len();
        let top = if len == 0 {
            0
        } else {
            len - 1
        };
        if self.selected > top {
            self.selected = top;
        }
    }

    fn move_selection(&mut self, delta: i64)
        ensures
            final(self)@ == (ListView { selected: moved(old(self).selected, delta as int, old(self)@.filtered.len()), ..old(self)@ }),
    {
        if self.filtered.len() == 0 {
            return ;
        }
        let last: i128 = self.filtered.len() as i128 - 1;
        let target: i128 = self.selected as i128 + delta as i128;
        let v: i128 = if target < 0 {
            0
        } else if target > last {
            last
        } else {
            target
        };
        self.selected = v as usize;
    }
}

// ------------------------------------------------------------------ keys

pub open spec fn with_query(l: ListView, q: Seq<char>) -> ListView {
    ListView { query: q, selected: 0, ..l }
}

pub open spec fn moved_by(l: ListView, d: int) -> ListView {
    ListView { selected: moved(l.selected, d, l.filtered.len()), ..l }
}

pub open spec fn on_selected(l: ListView, f: spec_fn(usize) -> ActionView) -> ActionView {
    match selected_idx(l) {
        Some(i) => f(i),
        None => ActionView::Nothing,
    }
}

/// Normal mode: single-letter actions.
pub open spec fn normal_key_ok(o: ListView, key: KeyEvent, cs: Seq<ConnectionView>, new: ListView, act: ActionView) -> bool {
    let c = key.code;
    if c == KeyCode::Char('/') {
        new == ListView { searching: true, ..o } && act == ActionView::Nothing
    } else if c == KeyCode::Char('j') || c == KeyCode::Down {
        new == moved_by(o, 1) && act == ActionView::Nothing
    } else if c == KeyCode::Char('k') || c == KeyCode::Up {
        new == moved_by(o, -1) && act == ActionView::Nothing
    } else if c == KeyCode::Char('g') || c == KeyCode::Home {
        new == ListView { selected: 0, ..o } && act == ActionView::Nothing
    } else if c == KeyCode::Char('G') || c == KeyCode::End {
        new == ListView { selected: clamped(usize::MAX, o.filtered.len()), ..o } && act == ActionView::Nothing
    } else if c == KeyCode::Enter {
        new == o && act == on_selected(o, |i: usize| ActionView::Connect(i))
    } else if c == KeyCode::Char('a') {
        new == o && act == ActionView::OpenForm(None)
    } else if c == KeyCode::Char('e') {
        new == o && act == on_selected(o, |i: usize| ActionView::OpenForm(Some(i)))
    } else if c == KeyCode::Char('y') {
        new == o && act == on_selected(o, |i: usize| ActionView::Duplicate(i))
    } else if c == KeyCode::Char('f') {
        new == o && act == on_selected(o, |i: usize| ActionView::ToggleFavorite(i))
    } else if c == KeyCode::Char('d') {
        act == ActionView::Nothing && new == match selected_idx(o) {
            Some(i) => ListView { modal: Some(ListModalView::ConfirmDelete(i)), ..o },
            None => o,
        }
    } else if c == KeyCode::Char('s') {
        new == o && act == on_selected(o, |i: usize| ActionView::OpenSftp(i))
    } else if c == KeyCode::Char('q') {
        new == o && act == ActionView::Quit
    } else if c == KeyCode::Esc {
        if o.query.len() == 0 {
            new == o && act == ActionView::Quit
        } else {
            refiltered(with_query(o, Seq::empty()), cs, new) && act == ActionView::Nothing
        }
    } else {
        new == o && act == ActionView::Nothing
    }
}

/// `/` search mode: typing edits the query; Enter connects to the selection;
/// Esc goes back to normal mode keeping the filter.
pub open spec fn search_key_ok(o: ListView, key: KeyEvent, cs: Seq<ConnectionView>, new: ListView, act: ActionView) -> bool {
    match key.code {
        KeyCode::Esc => new == ListView { searching: false, ..o } && act == ActionView::Nothing,
        KeyCode::Enter => match selected_idx(o) {
            Some(i) => new == ListView { searching: false, ..o } && act == ActionView::Connect(i),
            None => new == o && act == ActionView::Nothing,
        },
        KeyCode::Up => new == moved_by(o, -1) && act == ActionView::Nothing,
        KeyCode::Down => new == moved_by(o, 1) && act == ActionView::Nothing,
        KeyCode::Char(ch) => act == ActionView::Nothing && if key.ctrl {
            if ch == 'p' {
                new == moved_by(o, -1)
            } else if ch == 'n' {
                new == moved_by(o, 1)
            } else if ch == 'u' {
                refiltered(with_query(o, Seq::empty()), cs, new)
            } else {
                new == o
            }
        } else {
            refiltered(with_query(o, o.query.push(ch)), cs, new)
        },
        KeyCode::Backspace => act == ActionView::Nothing && if o.query.len() == 0 {
            new == ListView { searching: false, ..o }
        } else {
            refiltered(with_query(o, o.query.drop_last()), cs, new)
        },
        _ => new == o && act == ActionView::Nothing,
    }
}

/// The list after a key, and the action it asks for. The status line is
/// cleared first; an open modal takes every key.
pub open spec fn list_key_ok(old: ListView, key: KeyEvent, cs: Seq<ConnectionView>, new: ListView, act: ActionView) -> bool {
    let o = ListView { status: None, ..old };
    match o.modal {
        Some(m) => if key.code == KeyCode::Char('y') && m is ConfirmDelete {
            new == ListView { modal: None, ..o } && act == ActionView::Delete(m->ConfirmDelete_0)
        } else if key.code == KeyCode::Char('y') {
            new == o && act == ActionView::ImportAccept
        } else if key.code == KeyCode::Char('n') || key.code == KeyCode::Esc {
            new == ListView { modal: None, ..o } && act == if m is ImportPrompt {
                ActionView::ImportDecline
            } else {
                ActionView::Nothing
            }
        } else {
            new == o && act == ActionView::Nothing
        },
        None => if o.searching {
            search_key_ok(o, key, cs, new, act)
        } else {
            normal_key_ok(o, key, cs, new, act)
        },
    }
}

impl ListScreen {
    pub fn handle_key(&mut self, key: KeyEvent, connections: &[Connection]) -> (r: Action)
        ensures
            list_key_ok(old(self)@, key, conns_view(connections@), final(self)@, r@),
    {
        self.status = None;
        if self.modal.is_some() {
            let is_delete = match &self.modal {
                Some(ListModal::ConfirmDelete(_)) => true,
                _ => false,
            };
            match key.code {
                KeyCode::Char('y') => {
                    if is_delete {
                        let idx = match &self.modal {
                            Some(ListModal::ConfirmDelete(i)) => *i,
                            _ => 0,
                        };
                        self.modal = None;
                        return Action::Delete(idx);
                    } else {
                        return Action::ImportAccept;
                    }
                },
                KeyCode::Char('n') | KeyCode::Esc => {
                    self.modal = None;
                    if !is_delete {
                        return Action::ImportDecline;
                    }
                },
                _ => {},
            }
            return Action::Nothing;
        }
        if self.searching {
            return self.handle_search_key(key, connections);
        }
        match key.code {
            KeyCode::Char('/') => {
                self.searching = true;
            },
            KeyCode::Char('j') | KeyCode::Down => self.move_selection(1),
            KeyCode::Char('k') | KeyCode::Up => self.move_selection(-1),
            KeyCode::Char('g') | KeyCode::Home => {
                self.selected = 0;
            },
            KeyCode::Char('G') | KeyCode::End => {
                self.selected = if self.filtered.len() == 0 {
                    0
                } else {
                    self.filtered.len() - 1
                };
            },
            KeyCode::Enter => {
                if let Some(idx) = self.selected_store_idx() {
                    return Action::Connect(idx);
                }
            },
            KeyCode::Char('a') => {
                return Action::OpenForm(None);
            },
            KeyCode::Char('e') => {
                if let Some(idx) = self.selected_store_idx() {
                    return Action::OpenForm(Some(idx));
                }
            },
            KeyCode::Char('y') => {
                if let Some(idx) = self.selected_store_idx() {
                    return Action::Duplicate(idx);
                }
            },
            KeyCode::Char('f') => {
                if let Some(idx) = self.selected_store_idx() {
                    return Action::ToggleFavorite(idx);
                }
            },
            KeyCode::Char('d') => {
                if let Some(idx) = self.selected_store_idx() {
                    self.modal = Some(ListModal::ConfirmDelete(idx));
                }
            },
            KeyCode::Char('s') => {
                if let Some(idx) = self.selected_store_idx() {
                    return Action::OpenSftp(idx);
                }
            },
            KeyCode::Char('q') => {
                return Action::Quit;
            },
            KeyCode::Esc => {
                if self.query.as_str().is_empty() {
                    return Action::Quit;
                }
                self.query = String::new();
                self.selected = 0;
                self.refilter(connections);
            },
            _ => {},
        }
        Action::Nothing
    }

    fn handle_search_key(&mut self, key: KeyEvent, connections: &[Connection]) -> (r: Action)
        ensures
            search_key_ok(old(self)@, key, conns_view(connections@), final(self)@, r@),
    {
        let ctrl = key.ctrl;
        match key.code {
            KeyCode::Esc => {
                self.searching = false;
            },
            KeyCode::Enter => {
                if let Some(idx) = self.selected_store_idx() {
                    self.searching = false;
                    return Action::Connect(idx);
                }
            },
            KeyCode::Up => self.move_selection(-1),
            KeyCode::Down => self.move_selection(1),
            KeyCode::Char(c) => {
                if ctrl {
                    if c == 'p' {
                        self.move_selection(-1);
                    } else if c == 'n' {
                        self.move_selection(1);
                    } else if c == 'u' {
                        self.query = String::new();
                        self.selected = 0;
                        self.refilter(connections);
                    }
                } else {
                    let mut q = chars_of(self.query.as_str());
                    q.push(c);
                    self.query = string_of(&q);
                    self.selected = 0;
                    self.refilter(connections);
                }
            },
            KeyCode::Backspace => {
                let mut q = chars_of(self.query.as_str());
                if q.len() == 0 {
                    self.searching = false;
                } else {
                    q.pop();
                    self.query = string_of(&q);
                    self.selected = 0;
                    self.refilter(connections);
                }
            },
            _ => {},
        }
        Action::Nothing
    }
}

// ------------------------------------------------------------------ relative time

/// How long ago, coarsely: `just now`, minutes, hours, days or weeks.
pub open spec fn relative_text(secs: nat) -> Seq<char> {
    if secs < 60 {
        "just now"@
    } else if secs < 3600 {
        decimal(secs / 60) + "m ago"@
    } else if secs < 86400 {
        decimal(secs / 3600) + "h ago"@
    } else if secs < 604800 {
        decimal(secs / 86400) + "d ago"@
    } else {
        decimal(secs / 604800) + "w ago"@
    }
}

pub fn relative_time(secs: u64) -> (r: String)
    ensures
        r@ == relative_text(secs as nat),
{
    if secs < 60 {
        return "just now".to_owned();
    }
    let (n, unit): (u64, &str) = if secs < 3600 {
        (secs / 60, "m ago")
    } else if secs < 86400 {
        (secs / 3600, "h ago")
    } else if secs < 604800 {
        (secs / 86400, "d ago")
    } else {
        (secs / 604800, "w ago")
    };
    let mut out = decimal_chars(n as u128);
    let u = chars_of(unit);
    append_chars(&mut out, &u);
    string_of(&out)
}

} // verus!
