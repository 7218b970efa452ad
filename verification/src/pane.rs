//! Pane logic for the dual-pane SFTP browser: entries, sorting, fuzzy
//! filtering, selection.

use vstd::prelude::*;

use crate::fuzzy::{fuzzy_match, skim_score};
use crate::paths::{path_extension, path_parent, std_path_extension, std_path_parent};
use crate::sort::{before, is_order_of, keys_view, lemma_sorted_unique, sorted_by, stable_sort, SortKey, SortKeyView};
use crate::text::{
    ascii_lower, ascii_lower_chars, chars_eq, chars_of, contains_char, decimal, decimal_chars,
    string_of, to_lowercase, unicode_lowercase, append_chars, digit, digit_char,
};

verus! {

#[derive(PartialEq, Eq, Structural, Clone, Copy)]
pub enum Side {
    Local,
    Remote,
}

/// One line of a directory listing.
pub struct FsEntry {
    pub name: String,
    pub path: String,
    pub is_dir: bool,
    pub is_symlink: bool,
    pub size: u64,
}

pub struct FsEntryView {
    pub name: Seq<char>,
    pub path: Seq<char>,
    pub is_dir: bool,
    pub is_symlink: bool,
    pub size: u64,
}

impl View for FsEntry {
    type V = FsEntryView;

    open spec fn view(&self) -> FsEntryView {
        FsEntryView {
            name: self.name@,
            path: self.path@,
            is_dir: self.is_dir,
            is_symlink: self.is_symlink,
            size: self.size,
        }
    }
}

pub open spec fn parent_name() -> Seq<char> {
    seq!['.', '.']
}

pub open spec fn entry_is_parent(e: FsEntryView) -> bool {
    e.name == parent_name()
}

pub open spec fn entry_is_hidden(e: FsEntryView) -> bool {
    !entry_is_parent(e) && e.name.len() > 0 && e.name[0] == '.'
}

impl FsEntry {
    pub fn is_parent(&self) -> (r: bool)
        ensures
            r == entry_is_parent(self@),
    {
        let n = chars_of(self.name.as_str());
        let mut p: Vec<char> = Vec::new();
        p.push('.');
        p.push('.');
        assert(p@ =~= parent_name());
        chars_eq(&n, &p)
    }

    pub fn is_hidden(&self) -> (r: bool)
        ensures
            r == entry_is_hidden(self@),
    {
        let n = chars_of(self.name.as_str());
        !self.is_parent() && n.len() > 0 && n[0] == '.'
    }

    pub fn copy(&self) -> (r: FsEntry)
        ensures
            r@ == self@,
    {
        FsEntry {
            name: self.name.clone(),
            path: self.path.clone(),
            is_dir: self.is_dir,
            is_symlink: self.is_symlink,
            size: self.size,
        }
    }
}

// ------------------------------------------------------------------ sorting

/// Directories first, then by lower-cased name.
pub open spec fn entry_key(e: FsEntryView) -> SortKeyView {
    SortKeyView { major: if e.is_dir { 0 } else { 1 }, minor: 0, text: unicode_lowercase(e.name) }
}

pub open spec fn entry_keys(es: Seq<FsEntryView>) -> Seq<SortKeyView> {
    es.map_values(|e: FsEntryView| entry_key(e))
}

pub open spec fn entries_view(es: Seq<FsEntry>) -> Seq<FsEntryView> {
    es.map_values(|e: FsEntry| e@)
}

/// `new` holds the entries of `old` in the order `p`, which sorts them by key,
/// keeping the listing order among equal keys.
pub open spec fn sorted_entries(old: Seq<FsEntryView>, new: Seq<FsEntryView>) -> bool {
    exists|p: Seq<usize>|
        is_order_of(entry_keys(old), p) && new.len() == p.len() && forall|k: int|
            0 <= k < new.len() ==> new[k] == old[#[trigger] p[k] as int]
}

fn increasing_indices(n: usize) -> (r: Vec<usize>)
    ensures
        r@.len() == n,
        forall|k: int| 0 <= k < n ==> r@[k] == k,
{
    let mut r: Vec<usize> = Vec::new();
    let mut i: usize = 0;
    while i < n
        invariant
            i <= n,
            r@.len() == i,
            forall|k: int| 0 <= k < i ==> r@[k] == k,
        decreases n - i,
    {
        r.push(i);
        i += 1;
    }
    r
}

/// Sort a listing: directories first, then case-insensitively by name; a
/// stable sort, so entries with equal keys keep their order.
pub fn sort_entries(entries: &mut Vec<FsEntry>)
    ensures
        sorted_entries(entries_view(old(entries)@), entries_view(final(entries)@)),
{
    let ghost ov = entries_view(entries@);
    let n = entries.len();
    let mut keys: Vec<SortKey> = Vec::new();
    let mut i: usize = 0;
    while i < n
        invariant
            i <= n,
            n == entries@.len(),
            ov == entries_view(entries@),
            keys@.len() == i,
            forall|k: int| 0 <= k < i ==> (#[trigger] keys@[k])@ == entry_key(ov[k]),
        decreases n - i,
    {
        let lower = to_lowercase(entries[i].name.as_str());
        let text = chars_of(lower.as_str());
        keys.push(SortKey { major: if entries[i].is_dir { 0 } else { 1 }, minor: 0, text });
        i += 1;
    }
    assert(keys_view(keys@) =~= entry_keys(ov));
    let cands = increasing_indices(n);
    let order = stable_sort(&cands, &keys);
    let mut out: Vec<FsEntry> = Vec::new();
    let mut j: usize = 0;
    proof {
        assert forall|k: int| 0 <= k < order@.len() implies order@[k] < n by {
            assert(order@.contains(order@[k]));
            let m = choose|m: int| 0 <= m < cands@.len() && cands@[m] == order@[k];
        }
    }
    while j < n
        invariant
            j <= n,
            n == entries@.len(),
            order@.len() == n,
            ov == entries_view(entries@),
            forall|k: int| 0 <= k < n ==> order@[k] < n,
            out@.len() == j,
            forall|k: int| 0 <= k < j ==> (#[trigger] out@[k])@ == ov[order@[k] as int],
        decreases n - j,
    {
        out.push(entries[order[j]].copy());
        j += 1;
    }
    proof {
        assert forall|x: usize| order@.contains(x) <==> x < n by {
            if x < n {
                assert(cands@[x as int] == x);
                assert(cands@.contains(x));
            }
            if order@.contains(x) {
                let m = choose|m: int| 0 <= m < cands@.len() && cands@[m] == x;
            }
        }
        assert(is_order_of(entry_keys(ov), order@));
        assert(forall|k: int| 0 <= k < n ==> entries_view(out@)[k] == ov[#[trigger] order@[k] as int]);
    }
    *entries = out;
}

// ------------------------------------------------------------------ filtering

/// The indices `i < n` with `p(i)`, in increasing order.
pub open spec fn indices_where(n: nat, p: spec_fn(int) -> bool) -> Seq<usize>
    decreases n,
{
    if n == 0 {
        Seq::empty()
    } else {
        let s = indices_where((n - 1) as nat, p);
        if p(n - 1) {
            s.push((n - 1) as usize)
        } else {
            s
        }
    }
}

/// The indices `indices_where` picks are below `n`, increasing, and exactly
/// those that satisfy `p`.
pub proof fn lemma_indices_where(n: nat, p: spec_fn(int) -> bool)
    requires
        n <= usize::MAX,
    ensures
        forall|a: int| 0 <= a < indices_where(n, p).len() ==> #[trigger] indices_where(n, p)[a] < n,
        forall|a: int, b: int|
            0 <= a < b < indices_where(n, p).len() ==> #[trigger] indices_where(n, p)[a] < #[trigger] indices_where(
                n,
                p,
            )[b],
        forall|x: usize| #[trigger] indices_where(n, p).contains(x) <==> (x < n && p(x as int)),
    decreases n,
{
    if n > 0 {
        lemma_indices_where((n - 1) as nat, p);
        let s = indices_where((n - 1) as nat, p);
        let t = indices_where(n, p);
        if p(n - 1) {
            assert(t == s.push((n - 1) as usize));
            assert(t[s.len() as int] == (n - 1) as usize);
            assert forall|a: int| 0 <= a < s.len() implies t[a] == s[a] by {}
            assert forall|a: int, b: int| 0 <= a < b < t.len() implies #[trigger] t[a] < #[trigger] t[b] by {
                if b < s.len() {
                    assert(s[a] < s[b]);
                } else {
                    assert(s[a] < n - 1);
                }
            }
            assert forall|x: usize| #[trigger] t.contains(x) <==> (x < n && p(x as int)) by {
                if x == n - 1 {
                    assert(t[s.len() as int] == x);
                } else if x < n && p(x as int) {
                    assert(s.contains(x));
                    let k = choose|k: int| 0 <= k < s.len() && s[k] == x;
                    assert(t[k] == x);
                }
                if t.contains(x) {
                    let k = choose|k: int| 0 <= k < t.len() && t[k] == x;
                    if k < s.len() {
                        assert(s[k] == x);
                        assert(s.contains(x));
                    }
                }
            }
        } else {
            assert(t == s);
            assert forall|x: usize| #[trigger] t.contains(x) <==> (x < n && p(x as int)) by {
                if t.contains(x) {
                    assert(s.contains(x));
                }
            }
        }
    }
}

pub open spec fn visible(e: FsEntryView, show_hidden: bool) -> bool {
    show_hidden || !entry_is_hidden(e)
}

pub open spec fn score_of(e: FsEntryView, filter: Seq<char>) -> int {
    match skim_score(e.name, filter) {
        Some(s) => s as int,
        None => 0,
    }
}

/// Better fuzzy scores first.
pub open spec fn score_keys(es: Seq<FsEntryView>, filter: Seq<char>) -> Seq<SortKeyView> {
    Seq::new(es.len(), |i: int| SortKeyView { major: -score_of(es[i], filter), minor: 0, text: Seq::empty() })
}

pub open spec fn filter_candidate(e: FsEntryView, filter: Seq<char>, show_hidden: bool) -> bool {
    !entry_is_parent(e) && visible(e, show_hidden) && skim_score(e.name, filter) is Some
}

/// What the filter shows: with no filter text, the visible entries in listing
/// order; otherwise the visible entries other than `..` that match the filter,
/// best score first, ties in listing order.
pub open spec fn filter_result(es: Seq<FsEntryView>, filter: Seq<char>, show_hidden: bool, r: Seq<usize>) -> bool {
    if filter.len() == 0 {
        r == indices_where(es.len(), |i: int| visible(es[i], show_hidden))
    } else {
        &&& forall|x: usize| r.contains(x) <==> (x < es.len() && filter_candidate(es[x as int], filter, show_hidden))
        &&& sorted_by(score_keys(es, filter), r)
    }
}

/// With filter text, only visible matching entries other than `..` are
/// shown, and an entry shown above another has a fuzzy score at least as
/// high; entries with equal scores keep listing order.
pub proof fn lemma_filter_best_match_first(es: Seq<FsEntryView>, filter: Seq<char>, show_hidden: bool, r: Seq<usize>, a: int, b: int)
    requires
        filter_result(es, filter, show_hidden, r),
        filter.len() > 0,
        0 <= a < b < r.len(),
    ensures
        r[a] < es.len() && r[b] < es.len(),
        !entry_is_parent(es[r[a] as int]) && visible(es[r[a] as int], show_hidden),
        !entry_is_parent(es[r[b] as int]) && visible(es[r[b] as int], show_hidden),
        skim_score(es[r[a] as int].name, filter) is Some,
        skim_score(es[r[b] as int].name, filter) is Some,
        skim_score(es[r[a] as int].name, filter)->Some_0 >= skim_score(es[r[b] as int].name, filter)->Some_0,
        skim_score(es[r[a] as int].name, filter) == skim_score(es[r[b] as int].name, filter) ==> r[a] < r[b],
{
    let keys = score_keys(es, filter);
    assert(r.contains(r[a]));
    assert(r.contains(r[b]));
    assert(before(keys, r[a], r[b]));
}

/// The shown indices for a listing, filter text and hidden-file setting.
pub open spec fn filtered_for(es: Seq<FsEntryView>, filter: Seq<char>, show_hidden: bool) -> Seq<usize> {
    if filter.len() == 0 {
        indices_where(es.len(), |i: int| visible(es[i], show_hidden))
    } else {
        choose|r: Seq<usize>| filter_result(es, filter, show_hidden, r)
    }
}

/// Only one row order meets `filter_result`: the one `filtered_for` names.
pub proof fn lemma_filter_result_unique(es: Seq<FsEntryView>, filter: Seq<char>, show_hidden: bool, r: Seq<usize>)
    requires
        filter_result(es, filter, show_hidden, r),
    ensures
        r == filtered_for(es, filter, show_hidden),
{
    if filter.len() > 0 {
        let c = choose|r: Seq<usize>| filter_result(es, filter, show_hidden, r);
        lemma_sorted_unique(score_keys(es, filter), r, c);
    }
}

/// The listing sorted: directories first, then by lower-cased name, stable.
pub open spec fn sorted_of(listed: Seq<FsEntryView>) -> Seq<FsEntryView> {
    choose|s: Seq<FsEntryView>| sorted_entries(listed, s)
}

/// Only one sorted listing meets `sorted_entries`: the one `sorted_of` names.
pub proof fn lemma_sorted_entries_unique(listed: Seq<FsEntryView>, s: Seq<FsEntryView>)
    requires
        sorted_entries(listed, s),
    ensures
        s == sorted_of(listed),
{
    let c = sorted_of(listed);
    let p1 = choose|p: Seq<usize>| is_order_of(entry_keys(listed), p) && s.len() == p.len() && forall|k: int|
        0 <= k < s.len() ==> s[k] == listed[#[trigger] p[k] as int];
    let p2 = choose|p: Seq<usize>| is_order_of(entry_keys(listed), p) && c.len() == p.len() && forall|k: int|
        0 <= k < c.len() ==> c[k] == listed[#[trigger] p[k] as int];
    lemma_sorted_unique(entry_keys(listed), p1, p2);
    assert forall|k: int| 0 <= k < s.len() implies s[k] == c[k] by {
        assert(s[k] == listed[p1[k] as int]);
        assert(c[k] == listed[p2[k] as int]);
    }
    assert(s =~= c);
}

/// The entries of a fresh listing of `cwd`: `..` first when `cwd` has a
/// parent, then the listing sorted.
pub open spec fn listing_entries(cwd: Seq<char>, listed: Seq<FsEntryView>) -> Seq<FsEntryView> {
    match std_path_parent(cwd) {
        Some(p) => seq![parent_entry(p)] + sorted_of(listed),
        None => sorted_of(listed),
    }
}

pub struct PaneState {
    pub cwd: String,
    /// Full listing; `..` pinned at index 0 when cwd has a parent.
    pub entries: Vec<FsEntry>,
    /// Indices into `entries`, in display order.
    pub filtered: Vec<usize>,
    pub selected: usize,
    pub filter: String,
    pub loading: bool,
}

pub struct PaneView {
    pub cwd: Seq<char>,
    pub entries: Seq<FsEntryView>,
    pub filtered: Seq<usize>,
    pub selected: usize,
    pub filter: Seq<char>,
    pub loading: bool,
}

impl View for PaneState {
    type V = PaneView;

    open spec fn view(&self) -> PaneView {
        PaneView {
            cwd: self.cwd@,
            entries: entries_view(self.entries@),
            filtered: self.filtered@,
            selected: self.selected,
            filter: self.filter@,
            loading: self.loading,
        }
    }
}

/// The pane with its rows recomputed for its filter text; selection on the first row.
pub open spec fn pane_filtered(p: PaneView, show_hidden: bool) -> PaneView {
    PaneView { filtered: filtered_for(p.entries, p.filter, show_hidden), selected: 0, ..p }
}

/// The pane showing a fresh listing of `cwd`, filter cleared.
pub open spec fn pane_listed(p: PaneView, cwd: Seq<char>, listed: Seq<FsEntryView>, show_hidden: bool) -> PaneView {
    pane_filtered(
        PaneView { cwd, entries: listing_entries(cwd, listed), filter: Seq::empty(), loading: false, ..p },
        show_hidden,
    )
}

pub open spec fn pane_wf(p: PaneView) -> bool {
    forall|k: int| 0 <= k < p.filtered.len() ==> (#[trigger] p.filtered[k]) < p.entries.len()
}

/// The selection moved by `delta`, kept within the shown entries.
pub open spec fn moved(selected: usize, delta: int, len: nat) -> usize {
    if len == 0 {
        selected
    } else if selected + delta < 0 {
        0
    } else if selected + delta > len - 1 {
        (len - 1) as usize
    } else {
        (selected + delta) as usize
    }
}

pub open spec fn parent_entry(path: Seq<char>) -> FsEntryView {
    FsEntryView { name: parent_name(), path, is_dir: true, is_symlink: false, size: 0 }
}

impl PaneState {
    pub open spec fn wf(&self) -> bool {
        pane_wf(self@)
    }

    pub fn new() -> (r: Self)
        ensures
            r.wf(),
            r@.cwd == seq!['/'],
            r@.entries.len() == 0,
            r@.filtered.len() == 0,
            r.selected == 0,
            r@.filter.len() == 0,
            !r.loading,
    {
        let mut root: Vec<char> = Vec::new();
        root.push('/');
        assert(root@ =~= seq!['/']);
        PaneState {
            cwd: string_of(&root),
            entries: Vec::new(),
            filtered: Vec::new(),
            selected: 0,
            filter: String::new(),
            loading: false,
        }
    }

    /// Recompute the shown entries for the current filter text; the
    /// selection goes back to the first one.
    pub fn apply_filter(&mut self, show_hidden: bool)
        ensures
            final(self).wf(),
            final(self)@ == pane_filtered(old(self)@, show_hidden),
            filter_result(final(self)@.entries, final(self)@.filter, show_hidden, final(self)@.filtered),
    {
        let ghost es = self@.entries;
        let n = self.entries.len();
        let filter = chars_of(self.filter.as_str());
        let mut shown: Vec<usize> = Vec::new();
        if filter.len() == 0 {
            let ghost p = |i: int| visible(es[i], show_hidden);
            let mut i: usize = 0;
            while i < n
                invariant
                    i <= n,
                    n == es.len(),
                    es == entries_view(self.entries@),
                    shown@ == indices_where(i as nat, p),
                    forall|k: int| p(k) == visible(es[k], show_hidden),
                decreases n - i,
            {
                let hidden = self.entries[i].is_hidden();
                assert(es[i as int] == self.entries@[i as int]@);
                assert(p(i as int) == (show_hidden || !hidden));
                assert(indices_where((i + 1) as nat, p) == if p(i as int) {
                    indices_where(i as nat, p).push(i)
                } else {
                    indices_where(i as nat, p)
                });
                if show_hidden || !hidden {
                    shown.push(i);
                }
                i += 1;
            }
            proof {
                lemma_indices_where(n as nat, p);
            }
        } else {
            let mut keys: Vec<SortKey> = Vec::new();
            let mut cands: Vec<usize> = Vec::new();
            let ghost p = |i: int| filter_candidate(es[i], filter@, show_hidden);
            let mut i: usize = 0;
            while i < n
                invariant
                    i <= n,
                    n == es.len(),
                    es == entries_view(self.entries@),
                    filter@ == self@.filter,
                    filter@.len() > 0,
                    keys@.len() == i,
                    forall|k: int| 0 <= k < i ==> (#[trigger] keys@[k])@ == score_keys(es, filter@)[k],
                    cands@ == indices_where(i as nat, p),
                    forall|k: int| p(k) == filter_candidate(es[k], filter@, show_hidden),
                decreases n - i,
            {
                let score = fuzzy_match(self.entries[i].name.as_str(), self.filter.as_str());
                let parent = self.entries[i].is_parent();
                let hidden = self.entries[i].is_hidden();
                let s: i64 = match score {
                    Some(v) => v,
                    None => 0,
                };
                let key = SortKey { major: -(s as i128), minor: 0, text: Vec::new() };
                assert(key@ =~= score_keys(es, filter@)[i as int]);
                keys.push(key);
                assert(es[i as int] == self.entries@[i as int]@);
                assert(p(i as int) == (!parent && (show_hidden || !hidden) && score.is_some()));
                assert(indices_where((i + 1) as nat, p) == if p(i as int) {
                    indices_where(i as nat, p).push(i)
                } else {
                    indices_where(i as nat, p)
                });
                if !parent && (show_hidden || !hidden) && score.is_some() {
                    cands.push(i);
                }
                i += 1;
            }
            proof {
                lemma_indices_where(n as nat, p);
                assert(keys_view(keys@) =~= score_keys(es, filter@));
            }
            shown = stable_sort(&cands, &keys);
            proof {
                assert forall|k: int| 0 <= k < shown@.len() implies #[trigger] shown@[k] < n by {
                    assert(shown@.contains(shown@[k]));
                }
            }
        }
        proof {
            lemma_filter_result_unique(es, self@.filter, show_hidden, shown@);
        }
        self.filtered = shown;
        self.selected = 0;
    }

    /// Install a fresh directory listing. `entries` need not be sorted.
    pub fn set_listing(&mut self, cwd: String, entries: Vec<FsEntry>, show_hidden: bool)
        ensures
            final(self).wf(),
            final(self)@ == pane_listed(old(self)@, cwd@, entries_view(entries@), show_hidden),
            filter_result(final(self)@.entries, final(self)@.filter, show_hidden, final(self)@.filtered),
            sorted_entries(
                entries_view(entries@),
                final(self)@.entries.subrange(
                    if std_path_parent(cwd@) is Some {
                        1
                    } else {
                        0
                    },
                    final(self)@.entries.len() as int,
                ),
            ),
    {
        let mut entries = entries;
        let ghost listed = entries_view(entries@);
        sort_entries(&mut entries);
        let ghost sorted = entries_view(entries@);
        proof {
            lemma_sorted_entries_unique(listed, sorted);
        }
        match path_parent(cwd.as_str()) {
            Some(parent) => {
                let mut dots: Vec<char> = Vec::new();
                dots.push('.');
                dots.push('.');
                let e = FsEntry { name: string_of(&dots), path: parent, is_dir: true, is_symlink: false, size: 0 };
                assert(dots@ =~= parent_name());
                entries.insert(0, e);
                assert(entries_view(entries@) =~= seq![parent_entry(parent@)] + sorted);
            },
            None => {},
        }
        self.cwd = cwd;
        self.entries = entries;
        self.filter = String::new();
        self.loading = false;
        assert(self@.filter =~= Seq::<char>::empty());
        self.apply_filter(show_hidden);
    }

    pub fn selected_entry(&self) -> (r: Option<&FsEntry>)
        requires
            self.wf(),
        ensures
            match r {
                Some(e) => self.selected < self@.filtered.len() && e@ == self@.entries[self@.filtered[self.selected as int] as int],
                None => self.selected >= self@.filtered.len(),
            },
    {
        if self.selected < self.filtered.len() {
            let i = self.filtered[self.selected];
            assert(self@.filtered[self.selected as int] == i);
            assert(i < self.entries.len());
            Some(&self.entries[i])
        } else {
            None
        }
    }

    /// Move the selection by `delta` rows, clamped to the shown entries.
    pub fn move_selection(&mut self, delta: i64)
        ensures
            final(self)@ == (PaneView { selected: moved(old(self).selected, delta as int, old(self)@.filtered.len()), ..old(self)@ }),
    {
        if self.filtered.len() == 0 {
            return ;
        }
        let last: i128 = self.filtered.len() as i128 - 1;
        let target: i128 = self.selected as i128 + delta as i128;
        let v: i128 = if target < 0 {
            0
        } else if target > last {
            last
        } else {
            target
        };
        self.selected = v as usize;
    }

    pub fn select_first(&mut self)
        ensures
            final(self)@ == (PaneView { selected: 0, ..old(self)@ }),
    {
        self.selected = 0;
    }

    pub fn select_last(&mut self)
        ensures
            final(self)@ == (PaneView {
                selected: if old(self)@.filtered.len() == 0 { 0 } else { (old(self)@.filtered.len() - 1) as usize },
                ..old(self)@
            }),
    {
        self.selected = if self.filtered.len() == 0 {
            0
        } else {
            self.filtered.len() - 1
        };
    }
}

// ------------------------------------------------------------------ names

/// A valid file name for rename: non-empty, no path separator or NUL, not `.` or `..`.
pub open spec fn valid_entry_name(n: Seq<char>) -> bool {
    n.len() > 0 && !n.contains('/') && !n.contains('\0') && n != seq!['.'] && n != parent_name()
}

pub fn is_valid_entry_name(name: &str) -> (r: bool)
    ensures
        r == valid_entry_name(name@),
{
    let n = chars_of(name);
    if n.len() == 0 || contains_char(&n, '/') || contains_char(&n, '\0') {
        return false;
    }
    if n.len() == 1 && n[0] == '.' {
        assert(n@ =~= seq!['.']);
        return false;
    }
    if n.len() == 2 && n[0] == '.' && n[1] == '.' {
        assert(n@ =~= parent_name());
        return false;
    }
    assert(n@ != seq!['.'] && n@ != parent_name()) by {
        if n@ == seq!['.'] {
            assert(n@.len() == 1 && n@[0] == '.');
        }
        if n@ == parent_name() {
            assert(n@.len() == 2 && n@[0] == '.' && n@[1] == '.');
        }
    }
    true
}

/// Extensions the remote preview accepts: images, text-like files and PDFs.
pub open spec fn preview_extensions() -> Seq<Seq<char>> {
    seq!["png"@, "jpg"@, "jpeg"@, "gif"@, "bmp"@, "webp"@, "heic"@, "tiff"@, "svg"@, "txt"@, "md"@, "log"@, "json"@, "yaml"@, "yml"@, "toml"@, "conf"@, "cfg"@, "ini"@, "csv"@, "xml"@, "html"@, "css"@, "js"@, "ts"@, "sh"@, "py"@, "rb"@, "go"@, "rs"@, "sql"@, "env"@, "pdf"@]
}

/// Remote preview whitelist, matched on the lower-cased extension.
pub open spec fn preview_supported(name: Seq<char>) -> bool {
    match std_path_extension(name) {
        Some(e) => preview_extensions().contains(ascii_lower(e)),
        None => false,
    }
}

pub fn remote_preview_supported(name: &str) -> (r: bool)
    ensures
        r == preview_supported(name@),
{
    let ext = match path_extension(name) {
        Some(e) => e,
        None => {
            return false;
        },
    };
    let e = chars_of(ext.as_str());
    let lower = ascii_lower_chars(&e);
    let exts: [&str; 33] = ["png", "jpg", "jpeg", "gif", "bmp", "webp", "heic", "tiff", "svg", "txt", "md", "log", "json", "yaml", "yml", "toml", "conf", "cfg", "ini", "csv", "xml", "html", "css", "js", "ts", "sh", "py", "rb", "go", "rs", "sql", "env", "pdf"];
    assert(exts@.map_values(|x: &str| x@) =~= preview_extensions());
    let mut i: usize = 0;
    while i < 33
        invariant
            i <= 33,
            exts@.map_values(|x: &str| x@) == preview_extensions(),
            forall|k: int| 0 <= k < i ==> preview_extensions()[k] != lower@,
            std_path_extension(name@) == Some(e@),
            lower@ == ascii_lower(e@),
        decreases 33 - i,
    {
        let cand = chars_of(exts[i]);
        if chars_eq(&cand, &lower) {
            assert(preview_extensions()[i as int] == lower@);
            assert(preview_extensions().contains(lower@));
            return true;
        }
        i += 1;
    }
    false
}

// ------------------------------------------------------------------ sizes

pub open spec fn pow2(e: nat) -> nat
    decreases e,
{
    if e == 0 {
        1
    } else {
        2 * pow2((e - 1) as nat)
    }
}

pub open spec fn bit_len(b: nat) -> nat
    decreases b,
{
    if b == 0 {
        0
    } else {
        1 + bit_len(b / 2)
    }
}

/// `x / d` rounded to the nearest integer, ties to even.
pub open spec fn round_half_even(x: nat, d: nat) -> nat {
    let q = x / d;
    let r = x % d;
    if 2 * r > d {
        q + 1
    } else if 2 * r < d {
        q
    } else if q % 2 == 0 {
        q
    } else {
        q + 1
    }
}

/// The value of `b as f64`: `b` rounded to 53 significant bits, ties to even.
pub open spec fn f64_value(b: nat) -> nat {
    if bit_len(b) <= 53 {
        b
    } else {
        let e = (bit_len(b) - 53) as nat;
        round_half_even(b, pow2(e)) * pow2(e)
    }
}

/// How often a value can be divided by 1024 while it stays at least 1024, at most 4.
pub open spec fn size_unit(f: nat) -> nat {
    if f >= 1099511627776 {
        4
    } else if f >= 1073741824 {
        3
    } else if f >= 1048576 {
        2
    } else if f >= 1024 {
        1
    } else {
        0
    }
}

pub open spec fn unit_divisor(u: nat) -> nat {
    if u == 4 {
        1099511627776
    } else if u == 3 {
        1073741824
    } else if u == 2 {
        1048576
    } else if u == 1 {
        1024
    } else {
        1
    }
}

pub open spec fn unit_name(u: nat) -> Seq<char> {
    if u == 4 {
        "TB"@
    } else if u == 3 {
        "GB"@
    } else if u == 2 {
        "MB"@
    } else if u == 1 {
        "KB"@
    } else {
        "B"@
    }
}

/// `n B` below 1 KiB; otherwise the size in the largest unit up to TB with
/// one decimal, as `format!("{:.1}")` prints the `f64` quotient (ties to even).
pub open spec fn human_size_text(b: nat) -> Seq<char> {
    let f = f64_value(b);
    let u = size_unit(f);
    if u == 0 {
        decimal(b) + " B"@
    } else {
        let t = round_half_even(10 * f, unit_divisor(u));
        decimal(t / 10) + seq!['.', digit_char(t % 10), ' '] + unit_name(u)
    }
}

fn round_half_even_exec(x: u128, d: u128) -> (r: u128)
    requires
        d > 0,
        d < 0x1_0000_0000_0000_0000_0000,
        x < 0x1_0000_0000_0000_0000_0000,
    ensures
        r == round_half_even(x as nat, d as nat),
{
    let q = x / d;
    let rem = x % d;
    if 2 * rem > d {
        q + 1
    } else if 2 * rem < d {
        q
    } else if q % 2 == 0 {
        q
    } else {
        q + 1
    }
}

proof fn lemma_bit_len_bound(b: nat, k: nat)
    requires
        b < pow2(k),
    ensures
        bit_len(b) <= k,
    decreases k,
{
    if b > 0 && k > 0 {
        lemma_bit_len_bound(b / 2, (k - 1) as nat);
    }
}

proof fn lemma_div_mul_le(x: nat, d: nat)
    requires
        d > 0,
    ensures
        (x / d) * d <= x,
{
    assert((x / d) * d + x % d == x) by (nonlinear_arith)
        requires
            d > 0,
    ;
}

fn f64_of(b: u64) -> (f: u128)
    ensures
        f == f64_value(b as nat),
        f <= 0x1_0000_0000_0000_0000 + 2048,
{
    proof {
        reveal_with_fuel(pow2, 65);
        assert(pow2(64) == 0x1_0000_0000_0000_0000);
        lemma_bit_len_bound(b as nat, 64);
    }
    let mut v: u64 = b;
    let mut len: u64 = 0;
    while v > 0
        invariant
            bit_len(b as nat) == len + bit_len(v as nat),
            bit_len(b as nat) <= 64,
        decreases v,
    {
        v = v / 2;
        len = len + 1;
    }
    if len <= 53 {
        return b as u128;
    }
    let e = len - 53;
    let mut d: u128 = 1;
    let mut k: u64 = 0;
    while k < e
        invariant
            k <= e,
            e <= 11,
            d == pow2(k as nat),
            d <= pow2(k as nat),
            d <= 2048,
        decreases e - k,
    {
        proof {
            reveal_with_fuel(pow2, 12);
            assert(pow2((k + 1) as nat) == 2 * pow2(k as nat));
            assert(k + 1 <= 11);
            assert(pow2(11) == 2048);
            lemma_pow2_mono((k + 1) as nat, 11);
        }
        d = d * 2;
        k = k + 1;
    }
    let q = round_half_even_exec(b as u128, d);
    proof {
        lemma_div_mul_le(b as nat, d as nat);
        assert(q <= (b as nat) / (d as nat) + 1);
        assert(q * d <= (b as nat) / (d as nat) * d + d) by (nonlinear_arith)
            requires
                q <= (b as nat) / (d as nat) + 1,
                d > 0,
        ;
    }
    q * d
}

proof fn lemma_pow2_mono(a: nat, b: nat)
    requires
        a <= b,
    ensures
        pow2(a) <= pow2(b),
    decreases b,
{
    if a < b {
        lemma_pow2_mono(a, (b - 1) as nat);
    }
}

/// Human-readable size: `n B`, else one decimal and the largest unit (KB…TB).
pub fn human_size(bytes: u64) -> (r: String)
    ensures
        r@ == human_size_text(bytes as nat),
{
    let f = f64_of(bytes);
    let (unit, div, name): (u64, u128, &str) = if f >= 1099511627776 {
        (4, 1099511627776, "TB")
    } else if f >= 1073741824 {
        (3, 1073741824, "GB")
    } else if f >= 1048576 {
        (2, 1048576, "MB")
    } else if f >= 1024 {
        (1, 1024, "KB")
    } else {
        (0, 1, "B")
    };
    if unit == 0 {
        let mut out = decimal_chars(bytes as u128);
        let tail = chars_of(" B");
        append_chars(&mut out, &tail);
        return string_of(&out);
    }
    let t = round_half_even_exec(10 * f, div);
    let mut out = decimal_chars(t / 10);
    out.push('.');
    out.push(digit(t % 10));
    out.push(' ');
    let n = chars_of(name);
    append_chars(&mut out, &n);
    assert(out@ =~= human_size_text(bytes as nat));
    string_of(&out)
}

} // verus!
