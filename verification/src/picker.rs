//! Filesystem browser used to pick a private key file.
//! Hidden files are SHOWN by default: keys live in ~/.ssh.
//!
//! The picker never reads the disk itself: a key that needs a directory
//! listing returns a `LoadDir`, and the listing comes back through
//! `dir_loaded`.

use vstd::prelude::*;

use crate::app::{Action, ActionView};
use crate::fuzzy::{fuzzy_match, skim_score};
use crate::keys::{KeyCode, KeyEvent};
use crate::model::opt_view;
use crate::pane::{
    entries_view, sorted_entries, indices_where, lemma_indices_where, lemma_sorted_entries_unique, moved, score_keys,
    sort_entries, sorted_of, FsEntry, FsEntryView,
};
use crate::paths::{path_eq, path_parent, std_path_eq, std_path_parent};
use crate::sort::{before, keys_view, lemma_sorted_unique, sorted_by, stable_sort, SortKey};
use crate::text::{append_chars, chars_of, string_of};

verus! {

pub struct PickerScreen {
    pub cwd: String,
    /// The listing of `cwd`, directories first.
    pub entries: Vec<FsEntry>,
    /// Indices into `entries`, in display order.
    pub filtered: Vec<usize>,
    pub selected: usize,
    pub filter: String,
    /// True while `/` filter mode is active (typing edits the filter).
    pub filtering: bool,
    pub show_hidden: bool,
    pub error: Option<String>,
}

pub struct PickerView {
    pub cwd: Seq<char>,
    pub entries: Seq<FsEntryView>,
    pub filtered: Seq<usize>,
    pub selected: usize,
    pub filter: Seq<char>,
    pub filtering: bool,
    pub show_hidden: bool,
    pub error: Option<Seq<char>>,
}

impl View for PickerScreen {
    type V = PickerView;

    open spec fn view(&self) -> PickerView {
        PickerView {
            cwd: self.cwd@,
            entries: entries_view(self.entries@),
            filtered: self.filtered@,
            selected: self.selected,
            filter: self.filter@,
            filtering: self.filtering,
            show_hidden: self.show_hidden,
            error: opt_view(self.error),
        }
    }
}

/// A directory the picker wants listed; `from` is the directory it came
/// from, to be selected again in the new listing.
pub struct LoadDir {
    pub dir: String,
    pub from: Option<String>,
}

pub struct LoadDirView {
    pub dir: Seq<char>,
    pub from: Option<Seq<char>>,
}

impl View for LoadDir {
    type V = LoadDirView;

    open spec fn view(&self) -> LoadDirView {
        LoadDirView { dir: self.dir@, from: opt_view(self.from) }
    }
}

pub open spec fn load_view(o: Option<LoadDir>) -> Option<LoadDirView> {
    match o {
        Some(l) => Some(l@),
        None => None,
    }
}

pub open spec fn listing_view(r: Result<Vec<FsEntry>, String>) -> Result<Seq<FsEntryView>, Seq<char>> {
    match r {
        Ok(es) => Ok(entries_view(es@)),
        Err(e) => Err(e@),
    }
}

// ------------------------------------------------------------------ the spec

pub open spec fn pick_hidden(e: FsEntryView) -> bool {
    e.name.len() > 0 && e.name[0] == '.'
}

pub open spec fn pick_visible(e: FsEntryView, show_hidden: bool) -> bool {
    show_hidden || !pick_hidden(e)
}

pub open spec fn pick_candidate(e: FsEntryView, filter: Seq<char>, show_hidden: bool) -> bool {
    pick_visible(e, show_hidden) && skim_score(e.name, filter) is Some
}

/// With no filter text, the visible entries in listing order; otherwise the
/// visible entries that match the filter, best score first, ties in listing
/// order.
pub open spec fn pick_result(es: Seq<FsEntryView>, filter: Seq<char>, show_hidden: bool, r: Seq<usize>) -> bool {
    if filter.len() == 0 {
        r == indices_where(es.len(), |i: int| pick_visible(es[i], show_hidden))
    } else {
        &&& forall|x: usize| r.contains(x) <==> (x < es.len() && pick_candidate(es[x as int], filter, show_hidden))
        &&& sorted_by(score_keys(es, filter), r)
    }
}

/// With filter text, only visible matching entries are offered, and an entry
/// offered above another has a fuzzy score at least as high; entries with
/// equal scores keep listing order.
pub proof fn lemma_pick_best_match_first(es: Seq<FsEntryView>, filter: Seq<char>, show_hidden: bool, r: Seq<usize>, a: int, b: int)
    requires
        pick_result(es, filter, show_hidden, r),
        filter.len() > 0,
        0 <= a < b < r.len(),
    ensures
        r[a] < es.len() && r[b] < es.len(),
        pick_visible(es[r[a] as int], show_hidden) && pick_visible(es[r[b] as int], show_hidden),
        skim_score(es[r[a] as int].name, filter) is Some,
        skim_score(es[r[b] as int].name, filter) is Some,
        skim_score(es[r[a] as int].name, filter)->Some_0 >= skim_score(es[r[b] as int].name, filter)->Some_0,
        skim_score(es[r[a] as int].name, filter) == skim_score(es[r[b] as int].name, filter) ==> r[a] < r[b],
{
    let keys = score_keys(es, filter);
    assert(r.contains(r[a]));
    assert(r.contains(r[b]));
    assert(before(keys, r[a], r[b]));
}

pub open spec fn pick_rows(es: Seq<FsEntryView>, filter: Seq<char>, show_hidden: bool) -> Seq<usize> {
    if filter.len() == 0 {
        indices_where(es.len(), |i: int| pick_visible(es[i], show_hidden))
    } else {
        choose|r: Seq<usize>| pick_result(es, filter, show_hidden, r)
    }
}

/// Only one row order meets `pick_result`: the one `pick_rows` names.
pub proof fn lemma_pick_result_unique(es: Seq<FsEntryView>, filter: Seq<char>, show_hidden: bool, r: Seq<usize>)
    requires
        pick_result(es, filter, show_hidden, r),
    ensures
        r == pick_rows(es, filter, show_hidden),
{
    if filter.len() > 0 {
        let c = choose|r: Seq<usize>| pick_result(es, filter, show_hidden, r);
        lemma_sorted_unique(score_keys(es, filter), r, c);
    }
}

/// The rows recomputed for the filter text; selection on the first row.
pub open spec fn picker_filtered(p: PickerView) -> PickerView {
    PickerView { filtered: pick_rows(p.entries, p.filter, p.show_hidden), selected: 0, ..p }
}

/// A listing of `dir` arrived: on success it is shown sorted with the filter
/// cleared; on failure the picker stays where it was and shows the error.
pub open spec fn picker_loaded(p: PickerView, dir: Seq<char>, listing: Result<Seq<FsEntryView>, Seq<char>>) -> PickerView {
    match listing {
        Ok(es) => picker_filtered(
            PickerView { cwd: dir, entries: sorted_of(es), filter: Seq::empty(), error: None, ..p },
        ),
        Err(e) => PickerView { error: Some(dir + ": "@ + e), ..p },
    }
}

/// The first of the first `n` rows whose entry is the path `from`.
pub open spec fn path_pos(es: Seq<FsEntryView>, rows: Seq<usize>, from: Seq<char>, n: nat) -> Option<usize>
    decreases n,
{
    if n == 0 {
        None
    } else {
        match path_pos(es, rows, from, (n - 1) as nat) {
            Some(k) => Some(k),
            None => if std_path_eq(es[rows[n - 1] as int].path, from) {
                Some((n - 1) as usize)
            } else {
                None
            },
        }
    }
}

/// After a load, the directory we came from is selected when it is shown.
pub open spec fn picker_after_load(p: PickerView, req: LoadDirView, listing: Result<Seq<FsEntryView>, Seq<char>>) -> PickerView {
    let q = picker_loaded(p, req.dir, listing);
    match req.from {
        Some(from) => match path_pos(q.entries, q.filtered, from, q.filtered.len()) {
            Some(k) => PickerView { selected: k, ..q },
            None => q,
        },
        None => q,
    }
}

pub open spec fn picker_start(start: Seq<char>) -> PickerView {
    PickerView {
        cwd: start,
        entries: Seq::empty(),
        filtered: Seq::empty(),
        selected: 0,
        filter: Seq::empty(),
        filtering: false,
        show_hidden: true,
        error: None,
    }
}

pub type PickOut = (PickerView, ActionView, Option<LoadDirView>);

pub open spec fn stay(p: PickerView) -> PickOut {
    (p, ActionView::Nothing, None)
}

pub open spec fn picker_moved(p: PickerView, delta: int) -> PickOut {
    stay(PickerView { selected: moved(p.selected, delta, p.filtered.len()), ..p })
}

pub open spec fn picker_selected(p: PickerView) -> Option<FsEntryView> {
    if p.selected < p.filtered.len() {
        Some(p.entries[p.filtered[p.selected as int] as int])
    } else {
        None
    }
}

/// Enter on a directory lists it; on a file, picks it.
pub open spec fn open_selected(p: PickerView) -> PickOut {
    match picker_selected(p) {
        Some(e) => if e.is_dir {
            (p, ActionView::Nothing, Some(LoadDirView { dir: e.path, from: None }))
        } else {
            (p, ActionView::PickFile(Some(e.path)), None)
        },
        None => stay(p),
    }
}

/// Go up one directory, to select the one we left.
pub open spec fn go_parent(p: PickerView) -> PickOut {
    match std_path_parent(p.cwd) {
        Some(parent) => (p, ActionView::Nothing, Some(LoadDirView { dir: parent, from: Some(p.cwd) })),
        None => stay(p),
    }
}

pub open spec fn picker_last(p: PickerView) -> usize {
    if p.filtered.len() == 0 {
        0
    } else {
        (p.filtered.len() - 1) as usize
    }
}

/// Normal mode: single-letter actions.
pub open spec fn picker_normal_key(p: PickerView, key: KeyEvent) -> PickOut {
    match key.code {
        KeyCode::Esc => (p, ActionView::PickFile(None), None),
        KeyCode::Char(c) => if c == 'q' {
            (p, ActionView::PickFile(None), None)
        } else if c == '/' {
            stay(PickerView { filtering: true, ..p })
        } else if c == '.' {
            stay(picker_filtered(PickerView { show_hidden: !p.show_hidden, ..p }))
        } else if c == 'j' {
            picker_moved(p, 1)
        } else if c == 'k' {
            picker_moved(p, -1)
        } else if c == 'g' {
            stay(PickerView { selected: 0, ..p })
        } else if c == 'G' {
            stay(PickerView { selected: picker_last(p), ..p })
        } else if c == 'h' {
            go_parent(p)
        } else if c == 'l' {
            open_selected(p)
        } else {
            stay(p)
        },
        KeyCode::Down => picker_moved(p, 1),
        KeyCode::Up => picker_moved(p, -1),
        KeyCode::Home => stay(PickerView { selected: 0, ..p }),
        KeyCode::End => stay(PickerView { selected: picker_last(p), ..p }),
        KeyCode::Left | KeyCode::Backspace => go_parent(p),
        KeyCode::Enter | KeyCode::Right => open_selected(p),
        _ => stay(p),
    }
}

/// `/` filter mode: typing edits the filter; Enter opens or picks the
/// selection; Esc goes back to normal mode keeping the filter.
pub open spec fn picker_filter_key(p: PickerView, key: KeyEvent) -> PickOut {
    match key.code {
        KeyCode::Esc => stay(PickerView { filtering: false, ..p }),
        KeyCode::Enter => open_selected(PickerView { filtering: false, ..p }),
        KeyCode::Up => picker_moved(p, -1),
        KeyCode::Down => picker_moved(p, 1),
        KeyCode::Char(c) => if key.ctrl {
            if c == 'p' {
                picker_moved(p, -1)
            } else if c == 'n' {
                picker_moved(p, 1)
            } else {
                stay(p)
            }
        } else {
            stay(picker_filtered(PickerView { filter: p.filter.push(c), ..p }))
        },
        KeyCode::Backspace => if p.filter.len() == 0 {
            stay(PickerView { filtering: false, ..p })
        } else {
            stay(picker_filtered(PickerView { filter: p.filter.drop_last(), ..p }))
        },
        _ => stay(p),
    }
}

pub open spec fn picker_key(p: PickerView, key: KeyEvent) -> PickOut {
    if p.filtering {
        picker_filter_key(p, key)
    } else {
        picker_normal_key(p, key)
    }
}

// ------------------------------------------------------------------ the screen

fn load_message(dir: &str, err: &str) -> (r: String)
    ensures
        r@ == dir@ + ": "@ + err@,
{
    let mut m = chars_of(dir);
    let sep = chars_of(": ");
    append_chars(&mut m, &sep);
    let e = chars_of(err);
    append_chars(&mut m, &e);
    string_of(&m)
}

impl PickerScreen {
    pub open spec fn wf(&self) -> bool {
        forall|k: int| 0 <= k < self.filtered@.len() ==> (#[trigger] self.filtered@[k]) < self.entries@.len()
    }

    /// The picker on `start`, showing its listing (or the error reading it).
    pub fn new(start: String, listing: Result<Vec<FsEntry>, String>) -> (r: Self)
        ensures
            r.wf(),
            r@ == picker_loaded(picker_start(start@), start@, listing_view(listing)),
            listing matches Ok(es) ==> pick_result(r@.entries, r@.filter, r@.show_hidden, r@.filtered) && sorted_entries(
                entries_view(es@),
                r@.entries,
            ),
    {
        let mut p = PickerScreen {
            cwd: start.clone(),
            entries: Vec::new(),
            filtered: Vec::new(),
            selected: 0,
            filter: String::new(),
            filtering: false,
            show_hidden: true,
            error: None,
        };
        assert(p@.entries =~= Seq::<FsEntryView>::empty());
        assert(p@.filtered =~= Seq::<usize>::empty());
        assert(p@.filter =~= Seq::<char>::empty());
        assert(p@ == picker_start(start@));
        p.load(start, listing);
        p
    }

    fn load(&mut self, dir: String, listing: Result<Vec<FsEntry>, String>)
        requires
            old(self).wf(),
        ensures
            final(self).wf(),
            final(self)@ == picker_loaded(old(self)@, dir@, listing_view(listing)),
            listing matches Ok(es) ==> pick_result(final(self)@.entries, final(self)@.filter, final(self)@.show_hidden, final(self)@.filtered)
                && sorted_entries(entries_view(es@), final(self)@.entries),
    {
        match listing {
            Ok(entries) => {
                let mut entries = entries;
                let ghost listed = entries_view(entries@);
                sort_entries(&mut entries);
                proof {
                    lemma_sorted_entries_unique(listed, entries_view(entries@));
                }
                self.cwd = dir;
                self.entries = entries;
                self.filter = String::new();
                self.error = None;
                assert(self@.filter =~= Seq::<char>::empty());
                self.apply_filter();
            },
            Err(e) => {
                self.error = Some(load_message(dir.as_str(), e.as_str()));
            },
        }
    }

    /// Recompute the shown entries for the filter text; selection on the
    /// first row.
    fn apply_filter(&mut self)
        ensures
            final(self).wf(),
            final(self)@ == picker_filtered(old(self)@),
            pick_result(final(self)@.entries, final(self)@.filter, final(self)@.show_hidden, final(self)@.filtered),
    {
        let ghost es = self@.entries;
        let show_hidden = self.show_hidden;
        let n = self.entries.len();
        let filter = chars_of(self.filter.as_str());
        let mut shown: Vec<usize> = Vec::new();
        if filter.len() == 0 {
            let ghost p = |i: int| pick_visible(es[i], show_hidden);
            let mut i: usize = 0;
            while i < n
                invariant
                    i <= n,
                    n == es.len(),
                    es == entries_view(self.entries@),
                    shown@ == indices_where(i as nat, p),
                    forall|k: int| p(k) == pick_visible(es[k], show_hidden),
                decreases n - i,
            {
                let name = chars_of(self.entries[i].name.as_str());
                let hidden = name.len() > 0 && name[0] == '.';
                assert(es[i as int] == self.entries@[i as int]@);
                assert(p(i as int) == (show_hidden || !hidden));
                assert(indices_where((i + 1) as nat, p) == if p(i as int) {
                    indices_where(i as nat, p).push(i)
                } else {
                    indices_where(i as nat, p)
                });
                if show_hidden || !hidden {
                    shown.push(i);
                }
                i += 1;
            }
            proof {
                lemma_indices_where(n as nat, p);
            }
        } else {
            let mut keys: Vec<SortKey> = Vec::new();
            let mut cands: Vec<usize> = Vec::new();
            let ghost p = |i: int| pick_candidate(es[i], filter@, show_hidden);
            let mut i: usize = 0;
            while i < n
                invariant
                    i <= n,
                    n == es.len(),
                    es == entries_view(self.entries@),
                    filter@ == self@.filter,
                    filter@.len() > 0,
                    show_hidden == self.show_hidden,
                    keys@.len() == i,
                    forall|k: int| 0 <= k < i ==> (#[trigger] keys@[k])@ == score_keys(es, filter@)[k],
                    cands@ == indices_where(i as nat, p),
                    forall|k: int| p(k) == pick_candidate(es[k], filter@, show_hidden),
                decreases n - i,
            {
                let score = fuzzy_match(self.entries[i].name.as_str(), self.filter.as_str());
                let name = chars_of(self.entries[i].name.as_str());
                let hidden = name.len() > 0 && name[0] == '.';
                let s: i64 = match score {
                    Some(v) => v,
                    None => 0,
                };
                let key = SortKey { major: -(s as i128), minor: 0, text: Vec::new() };
                assert(key@ =~= score_keys(es, filter@)[i as int]);
                keys.push(key);
                assert(es[i as int] == self.entries@[i as int]@);
                assert(p(i as int) == ((show_hidden || !hidden) && score.is_some()));
                assert(indices_where((i + 1) as nat, p) == if p(i as int) {
                    indices_where(i as nat, p).push(i)
                } else {
                    indices_where(i as nat, p)
                });
                if (show_hidden || !hidden) && score.is_some() {
                    cands.push(i);
                }
                i += 1;
            }
            proof {
                lemma_indices_where(n as nat, p);
                assert(keys_view(keys@) =~= score_keys(es, filter@));
            }
            shown = stable_sort(&cands, &keys);
            proof {
                assert forall|k: int| 0 <= k < shown@.len() implies #[trigger] shown@[k] < n by {
                    assert(shown@.contains(shown@[k]));
                }
            }
        }
        proof {
            lemma_pick_result_unique(es, self@.filter, show_hidden, shown@);
        }
        self.filtered = shown;
        self.selected = 0;
    }

    /// The selection moved by `delta` rows, kept within the shown rows.
    fn move_selection(&mut self, delta: i64)
        ensures
            final(self)@ == picker_moved(old(self)@, delta as int).0,
            final(self).filtered@ == old(self).filtered@,
            final(self).entries@ == old(self).entries@,
    {
        if self.filtered.len() == 0 {
            return ;
        }
        let last: i128 = self.filtered.len() as i128 - 1;
        let target: i128 = self.selected as i128 + delta as i128;
        let v: i128 = if target < 0 {
            0
        } else if target > last {
            last
        } else {
            target
        };
        self.selected = v as usize;
    }

    fn open_selected(&self) -> (r: (Action, Option<LoadDir>))
        requires
            self.wf(),
        ensures
            (self@, r.0@, load_view(r.1)) == open_selected(self@),
    {
        if self.selected < self.filtered.len() {
            let i = self.filtered[self.selected];
            assert(self@.filtered[self.selected as int] == i);
            let e = &self.entries[i];
            if e.is_dir {
                (Action::Nothing, Some(LoadDir { dir: e.path.clone(), from: None }))
            } else {
                (Action::PickFile(Some(e.path.clone())), None)
            }
        } else {
            (Action::Nothing, None)
        }
    }

    fn go_parent(&self) -> (r: (Action, Option<LoadDir>))
        ensures
            (self@, r.0@, load_view(r.1)) == go_parent(self@),
    {
        match path_parent(self.cwd.as_str()) {
            Some(parent) => (Action::Nothing, Some(LoadDir { dir: parent, from: Some(self.cwd.clone()) })),
            None => (Action::Nothing, None),
        }
    }

    fn normal_key(&mut self, key: KeyEvent) -> (r: (Action, Option<LoadDir>))
        requires
            old(self).wf(),
        ensures
            final(self).wf(),
            (final(self)@, r.0@, load_view(r.1)) == picker_normal_key(old(self)@, key),
    {
        match key.code {
            KeyCode::Esc => (Action::PickFile(None), None),
            KeyCode::Char(c) => {
                if c == 'q' {
                    (Action::PickFile(None), None)
                } else if c == '/' {
                    self.filtering = true;
                    (Action::Nothing, None)
                } else if c == '.' {
                    self.show_hidden = !self.show_hidden;
                    self.apply_filter();
                    (Action::Nothing, None)
                } else if c == 'j' {
                    self.move_selection(1);
                    (Action::Nothing, None)
                } else if c == 'k' {
                    self.move_selection(-1);
                    (Action::Nothing, None)
                } else if c == 'g' {
                    self.selected = 0;
                    (Action::Nothing, None)
                } else if c == 'G' {
                    self.selected = if self.filtered.len() == 0 { 0 } else { self.filtered.len() - 1 };
                    (Action::Nothing, None)
                } else if c == 'h' {
                    self.go_parent()
                } else if c == 'l' {
                    self.open_selected()
                } else {
                    (Action::Nothing, None)
                }
            },
            KeyCode::Down => {
                self.move_selection(1);
                (Action::Nothing, None)
            },
            KeyCode::Up => {
                self.move_selection(-1);
                (Action::Nothing, None)
            },
            KeyCode::Home => {
                self.selected = 0;
                (Action::Nothing, None)
            },
            KeyCode::End => {
                self.selected = if self.filtered.len() == 0 { 0 } else { self.filtered.len() - 1 };
                (Action::Nothing, None)
            },
            KeyCode::Left | KeyCode::Backspace => self.go_parent(),
            KeyCode::Enter | KeyCode::Right => self.open_selected(),
            _ => (Action::Nothing, None),
        }
    }

    fn filter_key(&mut self, key: KeyEvent) -> (r: (Action, Option<LoadDir>))
        requires
            old(self).wf(),
        ensures
            final(self).wf(),
            (final(self)@, r.0@, load_view(r.1)) == picker_filter_key(old(self)@, key),
    {
        match key.code {
            KeyCode::Esc => {
                self.filtering = false;
                (Action::Nothing, None)
            },
            KeyCode::Enter => {
                self.filtering = false;
                self.open_selected()
            },
            KeyCode::Up => {
                self.move_selection(-1);
                (Action::Nothing, None)
            },
            KeyCode::Down => {
                self.move_selection(1);
                (Action::Nothing, None)
            },
            KeyCode::Char(c) => {
                if key.ctrl {
                    if c == 'p' {
                        self.move_selection(-1);
                    } else if c == 'n' {
                        self.move_selection(1);
                    }
                } else {
                    let mut f = chars_of(self.filter.as_str());
                    f.push(c);
                    self.filter = string_of(&f);
                    self.apply_filter();
                }
                (Action::Nothing, None)
            },
            KeyCode::Backspace => {
                let f = chars_of(self.filter.as_str());
                if f.len() == 0 {
                    self.filtering = false;
                } else {
                    let mut g = f;
                    g.pop();
                    assert(g@ =~= old(self)@.filter.drop_last());
                    self.filter = string_of(&g);
                    self.apply_filter();
                }
                (Action::Nothing, None)
            },
            _ => (Action::Nothing, None),
        }
    }

    /// One key press: moves, filters, toggles hidden files, picks a file or
    /// cancels; a key that changes directory returns the listing it needs.
    pub fn handle_key(&mut self, key: KeyEvent) -> (r: (Action, Option<LoadDir>))
        requires
            old(self).wf(),
        ensures
            final(self).wf(),
            (final(self)@, r.0@, load_view(r.1)) == picker_key(old(self)@, key),
    {
        if self.filtering {
            self.filter_key(key)
        } else {
            self.normal_key(key)
        }
    }

    /// The listing asked for by `handle_key` arrived (or could not be read).
    pub fn dir_loaded(&mut self, req: LoadDir, listing: Result<Vec<FsEntry>, String>)
        requires
            old(self).wf(),
        ensures
            final(self).wf(),
            final(self)@ == picker_after_load(old(self)@, req@, listing_view(listing)),
            listing matches Ok(es) ==> pick_result(final(self)@.entries, final(self)@.filter, final(self)@.show_hidden, final(self)@.filtered)
                && sorted_entries(entries_view(es@), final(self)@.entries),
    {
        let ghost q0 = picker_loaded(old(self)@, req@.dir, listing_view(listing));
        self.load(req.dir, listing);
        match req.from {
            Some(from) => {
                let n = self.filtered.len();
                let mut k: usize = 0;
                let mut found: Option<usize> = None;
                while k < n
                    invariant_except_break
                        found is None,
                        path_pos(q0.entries, q0.filtered, from@, k as nat) is None,
                    invariant
                        self@ == q0,
                        self.wf(),
                        n == self@.filtered.len(),
                        k <= n,
                    ensures
                        found is None ==> path_pos(q0.entries, q0.filtered, from@, n as nat) is None,
                        found is Some ==> path_pos(q0.entries, q0.filtered, from@, n as nat) == found,
                    decreases n - k,
                {
                    let i = self.filtered[k];
                    assert(self@.filtered[k as int] == i);
                    assert(q0.entries[q0.filtered[k as int] as int] == self.entries@[i as int]@);
                    if path_eq(self.entries[i].path.as_str(), from.as_str()) {
                        found = Some(k);
                        assert(path_pos(q0.entries, q0.filtered, from@, (k + 1) as nat) == Some(k));
                        proof {
                            lemma_path_pos_stays(q0.entries, q0.filtered, from@, (k + 1) as nat, n as nat);
                        }
                        break;
                    }
                    assert(path_pos(q0.entries, q0.filtered, from@, (k + 1) as nat) is None);
                    k += 1;
                }
                match found {
                    Some(pos) => {
                        self.selected = pos;
                    },
                    None => {},
                }
            },
            None => {},
        }
    }
}

/// Once found among the first `a` rows, the position stays the same for more rows.
proof fn lemma_path_pos_stays(es: Seq<FsEntryView>, rows: Seq<usize>, from: Seq<char>, a: nat, b: nat)
    requires
        a <= b,
        path_pos(es, rows, from, a) is Some,
    ensures
        path_pos(es, rows, from, b) == path_pos(es, rows, from, a),
    decreases b - a,
{
    if a < b {
        lemma_path_pos_stays(es, rows, from, a, (b - 1) as nat);
    }
}

} // verus!
