//! The text the screens show: titles, row labels, footers and the wording of
//! prompts. Drawing it (layout, colors) is the application's part.

use vstd::prelude::*;

use crate::form::FormScreen;
use crate::help::{HelpOverlay, HelpOverlayView, HelpSectionView};
use crate::list::ListScreen;
use crate::model::{Connection, ConnectionView};
use crate::pane::{human_size, human_size_text, FsEntry, FsEntryView, PaneState};
use crate::paths::{path_parent, std_path_parent};
use crate::picker::PickerScreen;
use crate::sftp::PendingTransfer;
use crate::text::{append_chars, chars_of, decimal, decimal_chars, string_of};
use crate::worker::Direction;

verus! {

fn push_str(out: &mut Vec<char>, s: &str)
    ensures
        final(out)@ == old(out)@ + s@,
{
    let c = chars_of(s);
    append_chars(out, &c);
}

// ------------------------------------------------------------------ panes

/// A pane's title: its label and directory, a mark while it loads, and the
/// filter while one is set or being typed.
pub open spec fn pane_title_text(label: Seq<char>, cwd: Seq<char>, loading: bool, filter: Seq<char>, filtering: bool) -> Seq<char> {
    label + ": "@ + cwd + (if loading {
        " ⟳"@
    } else {
        Seq::empty()
    }) + (if filtering || filter.len() > 0 {
        " [/"@ + filter + "]"@
    } else {
        Seq::empty()
    })
}

pub fn pane_title(label: &str, pane: &PaneState, filtering: bool) -> (r: String)
    ensures
        r@ == pane_title_text(label@, pane.cwd@, pane.loading, pane.filter@, filtering),
{
    let mut out = chars_of(label);
    push_str(&mut out, ": ");
    push_str(&mut out, pane.cwd.as_str());
    let ghost base = out@;
    if pane.loading {
        push_str(&mut out, " ⟳");
    }
    assert(out@ =~= base + (if pane.loading {
        " ⟳"@
    } else {
        Seq::<char>::empty()
    }));
    let ghost mid = out@;
    let f = chars_of(pane.filter.as_str());
    if filtering || f.len() > 0 {
        push_str(&mut out, " [/");
        append_chars(&mut out, &f);
        push_str(&mut out, "]");
    }
    assert(out@ =~= mid + (if filtering || pane.filter@.len() > 0 {
        " [/"@ + pane.filter@ + "]"@
    } else {
        Seq::<char>::empty()
    }));
    string_of(&out)
}

/// An entry as listed: directories end in `/`, symlinks in `@`.
pub open spec fn entry_label_text(e: FsEntryView) -> Seq<char> {
    if e.is_dir {
        e.name.push('/')
    } else if e.is_symlink {
        e.name.push('@')
    } else {
        e.name
    }
}

pub fn entry_label(e: &FsEntry) -> (r: String)
    ensures
        r@ == entry_label_text(e@),
{
    let mut n = chars_of(e.name.as_str());
    if e.is_dir {
        n.push('/');
    } else if e.is_symlink {
        n.push('@');
    }
    string_of(&n)
}

/// The size column: empty for directories.
pub open spec fn entry_size_text(e: FsEntryView) -> Seq<char> {
    if e.is_dir {
        Seq::empty()
    } else {
        human_size_text(e.size as nat)
    }
}

pub fn entry_size(e: &FsEntry) -> (r: String)
    ensures
        r@ == entry_size_text(e@),
{
    if e.is_dir {
        String::new()
    } else {
        human_size(e.size)
    }
}

// ------------------------------------------------------------------ list

pub open spec fn list_search_hints() -> Seq<char> {
    "type to filter · Enter connect · Esc done · ↑/↓ move"@
}

pub open spec fn list_hints() -> Seq<char> {
    "Enter connect · / search · s sftp · a add · e edit · y dup · f fav · d del · q quit · ? help"@
}

/// The list's footer: the status message, else the keys for the mode.
pub fn list_footer(list: &ListScreen) -> (r: String)
    ensures
        r@ == match list@.status {
            Some(s) => s,
            None => if list.searching {
                list_search_hints()
            } else {
                list_hints()
            },
        },
{
    match &list.status {
        Some(s) => s.clone(),
        None => if list.searching {
            "type to filter · Enter connect · Esc done · ↑/↓ move".to_owned()
        } else {
            "Enter connect · / search · s sftp · a add · e edit · y dup · f fav · d del · q quit · ? help".to_owned()
        },
    }
}

/// What the list says when it shows no row.
pub fn list_empty_message(has_connections: bool) -> (r: &'static str)
    ensures
        r@ == if has_connections {
            "No matches"@
        } else {
            "No connections yet — press 'a' to add one"@
        },
{
    if has_connections {
        "No matches"
    } else {
        "No connections yet — press 'a' to add one"
    }
}

/// The question before a connection is deleted; `?` names an entry that is
/// not there.
pub open spec fn delete_prompt_text(conns: Seq<ConnectionView>, idx: usize) -> Seq<char> {
    "Delete \""@ + (if idx < conns.len() {
        conns[idx as int].name
    } else {
        "?"@
    }) + "\"? This cannot be undone."@
}

pub fn delete_prompt(connections: &[Connection], idx: usize) -> (r: String)
    ensures
        r@ == delete_prompt_text(connections@.map_values(|c: Connection| c@), idx),
{
    let mut out = chars_of("Delete \"");
    let ghost base = out@;
    if idx < connections.len() {
        push_str(&mut out, connections[idx].name.as_str());
    } else {
        push_str(&mut out, "?");
    }
    push_str(&mut out, "\"? This cannot be undone.");
    string_of(&out)
}

pub open spec fn import_prompt_text(count: nat) -> Seq<char> {
    "Import "@ + decimal(count) + " host(s) from ~/.ssh/config?"@
}

pub fn import_prompt(count: usize) -> (r: String)
    ensures
        r@ == import_prompt_text(count as nat),
{
    let mut out = chars_of("Import ");
    let d = decimal_chars(count as u128);
    append_chars(&mut out, &d);
    push_str(&mut out, " host(s) from ~/.ssh/config?");
    string_of(&out)
}

// ------------------------------------------------------------------ picker and form

/// The picker's title: the directory, and the filter while one is set or
/// being typed.
pub open spec fn picker_title_text(cwd: Seq<char>, filter: Seq<char>, filtering: bool) -> Seq<char> {
    " Pick key file — "@ + cwd + " "@ + (if filtering || filter.len() > 0 {
        "[/"@ + filter + "] "@
    } else {
        Seq::empty()
    })
}

pub fn picker_title(p: &PickerScreen) -> (r: String)
    ensures
        r@ == picker_title_text(p.cwd@, p.filter@, p.filtering),
{
    let mut out = chars_of(" Pick key file — ");
    push_str(&mut out, p.cwd.as_str());
    push_str(&mut out, " ");
    let ghost base = out@;
    let f = chars_of(p.filter.as_str());
    if p.filtering || f.len() > 0 {
        push_str(&mut out, "[/");
        append_chars(&mut out, &f);
        push_str(&mut out, "] ");
    }
    assert(out@ =~= base + (if p.filtering || p.filter@.len() > 0 {
        "[/"@ + p.filter@ + "] "@
    } else {
        Seq::<char>::empty()
    }));
    string_of(&out)
}

pub fn form_title(f: &FormScreen) -> (r: &'static str)
    ensures
        r@ == if f.editing is Some {
            "Edit connection"@
        } else {
            "New connection"@
        },
{
    if f.editing.is_some() {
        "Edit connection"
    } else {
        "New connection"
    }
}

pub open spec fn key_placeholder() -> Seq<char> {
    "(optional — Ctrl-o to browse)"@
}

/// The text a form field shows: the empty key-file field shows how to browse.
pub fn field_text(f: &FormScreen, i: usize) -> (r: String)
    requires
        i < 5,
    ensures
        r@ == if i == 4 && f@.fields[4].len() == 0 {
            key_placeholder()
        } else {
            f@.fields[i as int]
        },
{
    let v = chars_of(f.fields[i].as_str());
    if i == 4 && v.len() == 0 {
        "(optional — Ctrl-o to browse)".to_owned()
    } else {
        f.fields[i].clone()
    }
}

pub open spec fn favorite_text(on: bool) -> Seq<char> {
    "  ["@ + (if on {
        "★"@
    } else {
        " "@
    }) + "] Favorite  (Space toggles)"@
}

pub fn favorite_line(f: &FormScreen) -> (r: String)
    ensures
        r@ == favorite_text(f.favorite),
{
    let mut out = chars_of("  [");
    if f.favorite {
        push_str(&mut out, "★");
    } else {
        push_str(&mut out, " ");
    }
    push_str(&mut out, "] Favorite  (Space toggles)");
    string_of(&out)
}

// ------------------------------------------------------------------ SFTP prompts

pub fn host_key_question(host: &str) -> (r: String)
    ensures
        r@ == "The authenticity of host \""@ + host@ + "\" can't be established."@,
{
    let mut out = chars_of("The authenticity of host \"");
    push_str(&mut out, host);
    push_str(&mut out, "\" can't be established.");
    string_of(&out)
}

pub fn fingerprint_line(fingerprint: &str) -> (r: String)
    ensures
        r@ == "Key fingerprint: "@ + fingerprint@,
{
    let mut out = chars_of("Key fingerprint: ");
    push_str(&mut out, fingerprint);
    string_of(&out)
}

pub fn passphrase_prompt(key_path: &str) -> (r: String)
    ensures
        r@ == "Passphrase for "@ + key_path@ + ":"@,
{
    let mut out = chars_of("Passphrase for ");
    push_str(&mut out, key_path);
    push_str(&mut out, ":");
    string_of(&out)
}

/// A typed secret shown as one bullet per character.
pub fn masked(input: &str) -> (r: String)
    ensures
        r@ == Seq::new(input@.len(), |i: int| '•'),
{
    let n = chars_of(input).len();
    let mut out: Vec<char> = Vec::new();
    let mut i: usize = 0;
    while i < n
        invariant
            i <= n,
            out@ == Seq::new(i as nat, |k: int| '•'),
        decreases n - i,
    {
        out.push('•');
        i += 1;
        assert(out@ =~= Seq::new(i as nat, |k: int| '•'));
    }
    string_of(&out)
}

/// The directory a file would be overwritten in (empty when it has none).
pub fn overwrite_dir(p: &PendingTransfer) -> (r: String)
    ensures
        r@ == match std_path_parent(p.dst@) {
            Some(d) => d,
            None => Seq::empty(),
        },
{
    match path_parent(p.dst.as_str()) {
        Some(d) => d,
        None => String::new(),
    }
}

pub fn overwrite_sizes(p: &PendingTransfer) -> (r: String)
    ensures
        r@ == "existing: "@ + human_size_text(p.existing_size as nat) + "   new: "@ + human_size_text(p.src_size as nat),
{
    let mut out = chars_of("existing: ");
    let a = human_size(p.existing_size);
    push_str(&mut out, a.as_str());
    push_str(&mut out, "   new: ");
    let b = human_size(p.src_size);
    push_str(&mut out, b.as_str());
    string_of(&out)
}

pub open spec fn transfer_verb(d: Direction) -> Seq<char> {
    match d {
        Direction::Upload => "Uploading"@,
        Direction::Download => "Downloading"@,
    }
}

pub fn transfer_title(direction: Direction, name: &str) -> (r: String)
    ensures
        r@ == transfer_verb(direction) + " "@ + name@,
{
    let mut out = match direction {
        Direction::Upload => chars_of("Uploading"),
        Direction::Download => chars_of("Downloading"),
    };
    push_str(&mut out, " ");
    push_str(&mut out, name);
    string_of(&out)
}

pub fn transfer_progress(transferred: u64, total: u64) -> (r: String)
    ensures
        r@ == human_size_text(transferred as nat) + " / "@ + human_size_text(total as nat) + "  —  Esc cancels"@,
{
    let a = human_size(transferred);
    let mut out = chars_of(a.as_str());
    push_str(&mut out, " / ");
    let b = human_size(total);
    push_str(&mut out, b.as_str());
    push_str(&mut out, "  —  Esc cancels");
    string_of(&out)
}

pub fn rename_prompt(e: &FsEntry) -> (r: String)
    ensures
        r@ == "Rename "@ + e.name@ + ":"@,
{
    let mut out = chars_of("Rename ");
    push_str(&mut out, e.name.as_str());
    push_str(&mut out, ":");
    string_of(&out)
}

/// What a delete would remove: directories only when empty.
pub fn delete_kind(e: &FsEntry) -> (r: &'static str)
    ensures
        r@ == if e.is_dir {
            "directory (must be empty)"@
        } else if e.is_symlink {
            "symlink"@
        } else {
            "file"@
        },
{
    if e.is_dir {
        "directory (must be empty)"
    } else if e.is_symlink {
        "symlink"
    } else {
        "file"
    }
}

// ------------------------------------------------------------------ help

/// The key names of the help, section after section.
pub open spec fn help_keys(sections: Seq<HelpSectionView>) -> Seq<Seq<char>>
    decreases sections.len(),
{
    if sections.len() == 0 {
        Seq::empty()
    } else {
        help_keys(sections.drop_last()) + sections.last().entries.map_values(|e: (Seq<char>, Seq<char>)| e.0)
    }
}

pub open spec fn longest(ks: Seq<Seq<char>>) -> nat
    decreases ks.len(),
{
    if ks.len() == 0 {
        0
    } else {
        let m = longest(ks.drop_last());
        if ks.last().len() > m {
            ks.last().len()
        } else {
            m
        }
    }
}

/// The width of the key column: the longest key name, or 8 with no keys.
pub open spec fn key_width(h: HelpOverlayView) -> nat {
    if help_keys(h.sections).len() == 0 {
        8
    } else {
        longest(help_keys(h.sections))
    }
}

proof fn lemma_longest_push(ks: Seq<Seq<char>>, k: Seq<char>)
    ensures
        longest(ks.push(k)) == if k.len() > longest(ks) {
            k.len()
        } else {
            longest(ks)
        },
{
    assert(ks.push(k).drop_last() =~= ks);
}

pub fn help_key_width(help: &HelpOverlay) -> (r: usize)
    ensures
        r == key_width(help@),
{
    let ghost secs = help@.sections;
    let mut best: usize = 0;
    let mut any = false;
    let mut i: usize = 0;
    while i < help.sections.len()
        invariant
            i <= help.sections@.len(),
            secs == help@.sections,
            secs.len() == help.sections@.len(),
            best == longest(help_keys(secs.subrange(0, i as int))),
            any == (help_keys(secs.subrange(0, i as int)).len() > 0),
        decreases help.sections@.len() - i,
    {
        let sec = &help.sections[i];
        assert(secs[i as int] == sec@);
        let ghost before = help_keys(secs.subrange(0, i as int));
        let ghost keys_i = sec@.entries.map_values(|e: (Seq<char>, Seq<char>)| e.0);
        assert(secs.subrange(0, i + 1).drop_last() =~= secs.subrange(0, i as int));
        assert(help_keys(secs.subrange(0, i + 1)) == before + keys_i);
        let mut j: usize = 0;
        while j < sec.entries.len()
            invariant
                j <= sec.entries@.len(),
                keys_i == sec@.entries.map_values(|e: (Seq<char>, Seq<char>)| e.0),
                keys_i.len() == sec.entries@.len(),
                best == longest(before + keys_i.subrange(0, j as int)),
                any == ((before + keys_i.subrange(0, j as int)).len() > 0),
            decreases sec.entries@.len() - j,
        {
            let n = chars_of(sec.entries[j].0.as_str()).len();
            assert(keys_i[j as int] == sec.entries@[j as int].0@);
            proof {
                lemma_longest_push(before + keys_i.subrange(0, j as int), keys_i[j as int]);
                assert((before + keys_i.subrange(0, j as int)).push(keys_i[j as int]) =~= before + keys_i.subrange(
                    0,
                    j + 1,
                ));
            }
            if n > best {
                best = n;
            }
            any = true;
            j += 1;
        }
        assert(keys_i.subrange(0, keys_i.len() as int) =~= keys_i);
        i += 1;
    }
    assert(secs.subrange(0, secs.len() as int) =~= secs);
    if any {
        best
    } else {
        8
    }
}

} // verus!
