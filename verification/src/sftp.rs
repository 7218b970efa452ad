//! Dual-pane SFTP browser screen: local filesystem on the left, remote SFTP
//! on the right. Overwrites always require confirmation.
//!
//! The screen decides; the application performs what it asks for (the
//! commands each step returns) and reports the outcome back: worker events,
//! local directory listings, local file operations.

use vstd::prelude::*;

use crate::keys::{KeyCode, KeyEvent};
use crate::model::opt_view;
use crate::pane::{
    entries_view, entry_is_parent, human_size, human_size_text, is_valid_entry_name, moved,
    pane_filtered, pane_listed, pane_wf, preview_supported, remote_preview_supported, FsEntry,
    FsEntryView, PaneState, PaneView, Side, valid_entry_name,
};
use crate::paths::{
    join_str, path_file_name, path_join, path_parent, path_with_file_name, std_path_file_name,
    std_path_parent, std_path_with_file_name,
};
use crate::text::{append_chars, chars_eq, chars_of, debug_quoted, debug_str, string_of, trim, trimmed};
use crate::worker::{Direction, SftpEvent, SftpRequest};

verus! {

#[derive(PartialEq, Eq, Structural, Clone, Copy)]
pub enum Phase {
    Connecting,
    Ready,
}

pub struct PendingTransfer {
    pub direction: Direction,
    pub src: String,
    pub name: String,
    pub src_size: u64,
    pub dst: String,
    pub existing_size: u64,
}

pub struct PendingTransferView {
    pub direction: Direction,
    pub src: Seq<char>,
    pub name: Seq<char>,
    pub src_size: u64,
    pub dst: Seq<char>,
    pub existing_size: u64,
}

impl View for PendingTransfer {
    type V = PendingTransferView;

    open spec fn view(&self) -> PendingTransferView {
        PendingTransferView {
            direction: self.direction,
            src: self.src@,
            name: self.name@,
            src_size: self.src_size,
            dst: self.dst@,
            existing_size: self.existing_size,
        }
    }
}

impl PendingTransfer {
    pub fn copy(&self) -> (r: Self)
        ensures
            r@ == self@,
    {
        PendingTransfer {
            direction: self.direction,
            src: self.src.clone(),
            name: self.name.clone(),
            src_size: self.src_size,
            dst: self.dst.clone(),
            existing_size: self.existing_size,
        }
    }
}

pub enum Modal {
    HostKey { host: String, fingerprint: String },
    Passphrase { key_path: String, input: String },
    ConfirmOverwrite(PendingTransfer),
    Transfer { direction: Direction, name: String, transferred: u64, total: u64 },
    Rename { entry: FsEntry, input: String },
    ConfirmDelete(FsEntry),
    Fatal(String),
}

pub enum ModalView {
    HostKey { host: Seq<char>, fingerprint: Seq<char> },
    Passphrase { key_path: Seq<char>, input: Seq<char> },
    ConfirmOverwrite(PendingTransferView),
    Transfer { direction: Direction, name: Seq<char>, transferred: u64, total: u64 },
    Rename { entry: FsEntryView, input: Seq<char> },
    ConfirmDelete(FsEntryView),
    Fatal(Seq<char>),
}

impl View for Modal {
    type V = ModalView;

    open spec fn view(&self) -> ModalView {
        match self {
            Modal::HostKey { host, fingerprint } => ModalView::HostKey { host: host@, fingerprint: fingerprint@ },
            Modal::Passphrase { key_path, input } => ModalView::Passphrase { key_path: key_path@, input: input@ },
            Modal::ConfirmOverwrite(p) => ModalView::ConfirmOverwrite(p@),
            Modal::Transfer { direction, name, transferred, total } => ModalView::Transfer {
                direction: *direction,
                name: name@,
                transferred: *transferred,
                total: *total,
            },
            Modal::Rename { entry, input } => ModalView::Rename { entry: entry@, input: input@ },
            Modal::ConfirmDelete(e) => ModalView::ConfirmDelete(e@),
            Modal::Fatal(m) => ModalView::Fatal(m@),
        }
    }
}

pub enum PendingStat {
    Transfer(PendingTransfer),
    Navigate,
}

pub enum PendingStatView {
    Transfer(PendingTransferView),
    Navigate,
}

impl View for PendingStat {
    type V = PendingStatView;

    open spec fn view(&self) -> PendingStatView {
        match self {
            PendingStat::Transfer(p) => PendingStatView::Transfer(p@),
            PendingStat::Navigate => PendingStatView::Navigate,
        }
    }
}

pub enum RequestView {
    AcceptHostKey(bool),
    Passphrase(Option<Seq<char>>),
    ReadDir(Seq<char>),
    StatRemote(Seq<char>),
    Upload { local: Seq<char>, remote: Seq<char> },
    Download { remote: Seq<char>, local: Seq<char> },
    Rename { from: Seq<char>, to: Seq<char> },
    Delete { path: Seq<char>, is_dir: bool },
    Preview { remote: Seq<char>, local: Seq<char> },
    Shutdown,
}

impl View for SftpRequest {
    type V = RequestView;

    open spec fn view(&self) -> RequestView {
        match self {
            SftpRequest::AcceptHostKey(b) => RequestView::AcceptHostKey(*b),
            SftpRequest::Passphrase(p) => RequestView::Passphrase(opt_view(*p)),
            SftpRequest::ReadDir(p) => RequestView::ReadDir(p@),
            SftpRequest::StatRemote(p) => RequestView::StatRemote(p@),
            SftpRequest::Upload { local, remote } => RequestView::Upload { local: local@, remote: remote@ },
            SftpRequest::Download { remote, local } => RequestView::Download { remote: remote@, local: local@ },
            SftpRequest::Rename { from, to } => RequestView::Rename { from: from@, to: to@ },
            SftpRequest::Delete { path, is_dir } => RequestView::Delete { path: path@, is_dir: *is_dir },
            SftpRequest::Preview { remote, local } => RequestView::Preview { remote: remote@, local: local@ },
            SftpRequest::Shutdown => RequestView::Shutdown,
        }
    }
}

/// What the screen asks the application to do; outcomes come back through
/// the `*_done` / `*_listed` methods.
pub enum SftpCommand {
    /// Send a request to the worker.
    Send(SftpRequest),
    /// Set (or clear) the worker's transfer cancel flag.
    SetCancel(bool),
    /// List a local directory; report with `local_listed`. With `keep_filter`
    /// the listing refreshes the current one and keeps that filter text.
    ReadLocalDir { path: String, keep_filter: Option<String> },
    /// Look up the local destination of a download; report with `local_stat_done`.
    StatLocal(PendingTransfer),
    /// Rename a local entry unless the target exists; report with `local_rename_done`.
    RenameLocal { from: String, to: String, new_name: String },
    /// Delete a local file, or an empty local directory when `dir`; report
    /// with `local_delete_done`.
    DeleteLocal { path: String, dir: bool, name: String },
    /// Put text on the clipboard; report with `clipboard_done`.
    CopyToClipboard(String),
    /// Open a Quick Look preview of a local file; report with `quick_look_done`.
    QuickLook(String),
    /// Make the local directory remote previews are downloaded to; report with
    /// `preview_dir_done`.
    PreparePreview { remote: String, name: String, size: u64 },
}

pub enum CommandView {
    Send(RequestView),
    SetCancel(bool),
    ReadLocalDir { path: Seq<char>, keep_filter: Option<Seq<char>> },
    StatLocal(PendingTransferView),
    RenameLocal { from: Seq<char>, to: Seq<char>, new_name: Seq<char> },
    DeleteLocal { path: Seq<char>, dir: bool, name: Seq<char> },
    CopyToClipboard(Seq<char>),
    QuickLook(Seq<char>),
    PreparePreview { remote: Seq<char>, name: Seq<char>, size: u64 },
}

impl View for SftpCommand {
    type V = CommandView;

    open spec fn view(&self) -> CommandView {
        match self {
            SftpCommand::Send(r) => CommandView::Send(r@),
            SftpCommand::SetCancel(b) => CommandView::SetCancel(*b),
            SftpCommand::ReadLocalDir { path, keep_filter } => CommandView::ReadLocalDir { path: path@, keep_filter: opt_view(*keep_filter) },
            SftpCommand::StatLocal(p) => CommandView::StatLocal(p@),
            SftpCommand::RenameLocal { from, to, new_name } => CommandView::RenameLocal { from: from@, to: to@, new_name: new_name@ },
            SftpCommand::DeleteLocal { path, dir, name } => CommandView::DeleteLocal { path: path@, dir: *dir, name: name@ },
            SftpCommand::CopyToClipboard(t) => CommandView::CopyToClipboard(t@),
            SftpCommand::QuickLook(p) => CommandView::QuickLook(p@),
            SftpCommand::PreparePreview { remote, name, size } => CommandView::PreparePreview { remote: remote@, name: name@, size: *size },
        }
    }
}

pub open spec fn cmds_view(cs: Seq<SftpCommand>) -> Seq<CommandView> {
    cs.map_values(|c: SftpCommand| c@)
}

/// Outcome of a local rename.
pub enum RenameOutcome {
    /// Something already has the new name; nothing was renamed.
    AlreadyExists,
    Renamed,
    Failed(String),
}

pub struct SftpScreen {
    pub conn_name: String,
    /// The remote directory to open once connected (`~` is the remote home).
    pub start_dir: Option<String>,
    pub phase: Phase,
    pub local: PaneState,
    pub remote: PaneState,
    pub active: Side,
    pub show_hidden: bool,
    /// True while `/` filter mode is active on the active pane.
    pub filtering: bool,
    pub modal: Option<Modal>,
    pub exit: bool,
    /// The last status message.
    pub status: Option<String>,
    /// Counts status messages, so a repeated message still counts as new.
    pub status_seq: u64,
    pending_stat: Option<PendingStat>,
}

pub struct SftpView {
    pub conn_name: Seq<char>,
    pub start_dir: Option<Seq<char>>,
    pub phase: Phase,
    pub local: PaneView,
    pub remote: PaneView,
    pub active: Side,
    pub show_hidden: bool,
    pub filtering: bool,
    pub modal: Option<ModalView>,
    pub exit: bool,
    pub status: Option<Seq<char>>,
    pub status_seq: u64,
    pub pending_stat: Option<PendingStatView>,
}

pub open spec fn modal_view(m: Option<Modal>) -> Option<ModalView> {
    match m {
        Some(x) => Some(x@),
        None => None,
    }
}

pub open spec fn pending_view(p: Option<PendingStat>) -> Option<PendingStatView> {
    match p {
        Some(x) => Some(x@),
        None => None,
    }
}

impl View for SftpScreen {
    type V = SftpView;

    closed spec fn view(&self) -> SftpView {
        SftpView {
            conn_name: self.conn_name@,
            start_dir: opt_view(self.start_dir),
            phase: self.phase,
            local: self.local@,
            remote: self.remote@,
            active: self.active,
            show_hidden: self.show_hidden,
            filtering: self.filtering,
            modal: modal_view(self.modal),
            exit: self.exit,
            status: opt_view(self.status),
            status_seq: self.status_seq,
            pending_stat: pending_view(self.pending_stat),
        }
    }
}

// ------------------------------------------------------------------ the spec

pub type Out = (SftpView, Seq<CommandView>);

pub open spec fn sftp_wf(s: SftpView) -> bool {
    pane_wf(s.local) && pane_wf(s.remote)
}

pub open spec fn active_pane(s: SftpView) -> PaneView {
    match s.active {
        Side::Local => s.local,
        Side::Remote => s.remote,
    }
}

pub open spec fn with_active(s: SftpView, p: PaneView) -> SftpView {
    match s.active {
        Side::Local => SftpView { local: p, ..s },
        Side::Remote => SftpView { remote: p, ..s },
    }
}

pub open spec fn next_seq(n: u64) -> u64 {
    if n < u64::MAX {
        (n + 1) as u64
    } else {
        0
    }
}

pub open spec fn with_status(s: SftpView, msg: Seq<char>) -> SftpView {
    SftpView { status: Some(msg), status_seq: next_seq(s.status_seq), ..s }
}

pub open spec fn selected_of(p: PaneView) -> Option<FsEntryView> {
    if p.selected < p.filtered.len() {
        Some(p.entries[p.filtered[p.selected as int] as int])
    } else {
        None
    }
}

pub open spec fn then(a: Out, f: spec_fn(SftpView) -> Out) -> Out {
    (f(a.0).0, a.1 + f(a.0).1)
}

pub open spec fn navigate(s: SftpView, path: Seq<char>) -> Out {
    match s.active {
        Side::Local => (s, seq![CommandView::ReadLocalDir { path, keep_filter: None }]),
        Side::Remote => (
            SftpView { remote: PaneView { loading: true, ..s.remote }, ..s },
            seq![CommandView::Send(RequestView::ReadDir(path))],
        ),
    }
}

pub open spec fn refresh_local(s: SftpView) -> Out {
    (s, seq![CommandView::ReadLocalDir { path: s.local.cwd, keep_filter: Some(s.local.filter) }])
}

pub open spec fn refresh_remote(s: SftpView) -> Out {
    (
        SftpView { remote: PaneView { loading: true, ..s.remote }, ..s },
        seq![CommandView::Send(RequestView::ReadDir(s.remote.cwd))],
    )
}

pub open spec fn transfer_request(p: PendingTransferView) -> RequestView {
    match p.direction {
        Direction::Upload => RequestView::Upload { local: p.src, remote: p.dst },
        Direction::Download => RequestView::Download { remote: p.src, local: p.dst },
    }
}

/// Start a transfer: clear the cancel flag, show progress, send the request.
pub open spec fn start_transfer(s: SftpView, p: PendingTransferView) -> Out {
    (
        SftpView {
            modal: Some(ModalView::Transfer { direction: p.direction, name: p.name, transferred: 0, total: p.src_size }),
            ..s
        },
        seq![CommandView::SetCancel(false), CommandView::Send(transfer_request(p))],
    )
}

/// Transfer `e` into the other pane's directory, after checking the
/// destination: remote destinations are stat-ed afresh, local ones looked up.
pub open spec fn request_transfer(s: SftpView, e: FsEntryView) -> Out {
    match s.active {
        Side::Local => {
            let dst = path_join(s.remote.cwd, e.name);
            let p = PendingTransferView { direction: Direction::Upload, src: e.path, name: e.name, src_size: e.size, dst, existing_size: 0 };
            (
                with_status(SftpView { pending_stat: Some(PendingStatView::Transfer(p)), ..s }, "checking destination…"@),
                seq![CommandView::Send(RequestView::StatRemote(dst))],
            )
        },
        Side::Remote => {
            let dst = path_join(s.local.cwd, e.name);
            let p = PendingTransferView { direction: Direction::Download, src: e.path, name: e.name, src_size: e.size, dst, existing_size: 0 };
            (s, seq![CommandView::StatLocal(p)])
        },
    }
}

pub open spec fn on_enter(s: SftpView) -> Out {
    match selected_of(active_pane(s)) {
        None => (s, Seq::empty()),
        Some(e) => if e.is_dir {
            navigate(s, e.path)
        } else if e.is_symlink && s.active == Side::Remote {
            (
                SftpView { pending_stat: Some(PendingStatView::Navigate), ..s },
                seq![CommandView::Send(RequestView::StatRemote(e.path))],
            )
        } else {
            request_transfer(s, e)
        },
    }
}

/// A local listing arrived: install it (keeping `keep_filter` when
/// refreshing), or report why it failed.
pub open spec fn local_listed(s: SftpView, path: Seq<char>, keep_filter: Option<Seq<char>>, result: Result<Seq<FsEntryView>, Seq<char>>) -> Out {
    match result {
        Ok(es) => {
            let l = pane_listed(s.local, path, es, s.show_hidden);
            let l2 = match keep_filter {
                Some(f) => pane_filtered(PaneView { filter: f, ..l }, s.show_hidden),
                None => l,
            };
            (SftpView { local: l2, ..s }, Seq::empty())
        },
        Err(e) => (with_status(s, "local: "@ + e), Seq::empty()),
    }
}

/// The local destination of a download was looked up: `Some((is_dir, len))`
/// when something is there. A directory is never overwritten; an existing
/// file needs confirmation; a free name starts the transfer.
pub open spec fn local_stat_done(s: SftpView, p: PendingTransferView, found: Option<(bool, u64)>) -> Out {
    match found {
        Some((is_dir, len)) => if is_dir {
            (with_status(s, "cannot overwrite: "@ + p.dst + " is a directory"@), Seq::empty())
        } else {
            (
                SftpView { modal: Some(ModalView::ConfirmOverwrite(PendingTransferView { existing_size: len, ..p })), ..s },
                Seq::empty(),
            )
        },
        None => start_transfer(s, p),
    }
}

pub open spec fn go_parent(s: SftpView) -> Out {
    match std_path_parent(active_pane(s).cwd) {
        Some(p) => navigate(s, p),
        None => (s, Seq::empty()),
    }
}

pub open spec fn preview_limit() -> nat {
    10485760
}

/// Space: Quick Look preview. Local files open directly; remote files are
/// downloaded to a temporary directory first (small images/text/pdf only).
pub open spec fn preview_selected(s: SftpView) -> Out {
    match selected_of(active_pane(s)) {
        None => (s, Seq::empty()),
        Some(e) => if e.is_dir {
            (with_status(s, "cannot preview a directory"@), Seq::empty())
        } else if s.active == Side::Local {
            (s, seq![CommandView::QuickLook(e.path)])
        } else if !preview_supported(e.name) {
            (with_status(s, "remote preview supports images, text files and pdf"@), Seq::empty())
        } else if e.size > preview_limit() {
            (
                with_status(
                    s,
                    "too large to preview ("@ + human_size_text(e.size as nat) + ", max "@ + human_size_text(preview_limit()) + ")"@,
                ),
                Seq::empty(),
            )
        } else {
            (s, seq![CommandView::PreparePreview { remote: e.path, name: e.name, size: e.size }])
        },
    }
}

/// `y`: the selected entry's path, or the directory itself for `..` or no selection.
pub open spec fn copy_selected_path(s: SftpView) -> Out {
    let path = match selected_of(active_pane(s)) {
        Some(e) => if !entry_is_parent(e) {
            e.path
        } else {
            active_pane(s).cwd
        },
        None => active_pane(s).cwd,
    };
    (s, seq![CommandView::CopyToClipboard(path)])
}

pub open spec fn do_rename(s: SftpView, e: FsEntryView, new_name: Seq<char>) -> Out {
    if new_name == e.name {
        (s, Seq::empty())
    } else if !valid_entry_name(new_name) {
        (with_status(s, "invalid name: "@ + debug_quoted(new_name)), Seq::empty())
    } else {
        let target = std_path_with_file_name(e.path, new_name);
        match s.active {
            Side::Local => (s, seq![CommandView::RenameLocal { from: e.path, to: target, new_name }]),
            Side::Remote => (s, seq![CommandView::Send(RequestView::Rename { from: e.path, to: target })]),
        }
    }
}

/// Only empty directories are deleted (no recursive wipes); a symlink is
/// removed as a file.
pub open spec fn do_delete(s: SftpView, e: FsEntryView) -> Out {
    let dir = e.is_dir && !e.is_symlink;
    match s.active {
        Side::Local => (s, seq![CommandView::DeleteLocal { path: e.path, dir, name: e.name }]),
        Side::Remote => (s, seq![CommandView::Send(RequestView::Delete { path: e.path, is_dir: dir })]),
    }
}

pub open spec fn moved_active(s: SftpView, d: int) -> SftpView {
    with_active(s, PaneView { selected: moved(active_pane(s).selected, d, active_pane(s).filtered.len()), ..active_pane(s) })
}

pub open spec fn last_row(p: PaneView) -> usize {
    if p.filtered.len() == 0 {
        0
    } else {
        (p.filtered.len() - 1) as usize
    }
}

/// Normal mode: single-letter actions.
pub open spec fn normal_key(s: SftpView, key: KeyEvent) -> Out {
    let c = key.code;
    let none = Seq::<CommandView>::empty();
    if c == KeyCode::Tab {
        (SftpView { active: if s.active == Side::Local { Side::Remote } else { Side::Local }, ..s }, none)
    } else if c == KeyCode::Char('/') {
        (SftpView { filtering: true, ..s }, none)
    } else if c == KeyCode::Char('j') || c == KeyCode::Down {
        (moved_active(s, 1), none)
    } else if c == KeyCode::Char('k') || c == KeyCode::Up {
        (moved_active(s, -1), none)
    } else if c == KeyCode::PageUp {
        (moved_active(s, -15), none)
    } else if c == KeyCode::PageDown {
        (moved_active(s, 15), none)
    } else if c == KeyCode::Char('g') || c == KeyCode::Home {
        (with_active(s, PaneView { selected: 0, ..active_pane(s) }), none)
    } else if c == KeyCode::Char('G') || c == KeyCode::End {
        (with_active(s, PaneView { selected: last_row(active_pane(s)), ..active_pane(s) }), none)
    } else if c == KeyCode::Char('.') {
        let show = !s.show_hidden;
        (
            SftpView {
                show_hidden: show,
                local: pane_filtered(s.local, show),
                remote: pane_filtered(s.remote, show),
                ..s
            },
            none,
        )
    } else if c == KeyCode::Char('r') {
        then(refresh_local(s), |t: SftpView| refresh_remote(t))
    } else if c == KeyCode::Char('R') {
        match selected_of(active_pane(s)) {
            Some(e) => if !entry_is_parent(e) {
                (SftpView { modal: Some(ModalView::Rename { entry: e, input: e.name }), ..s }, none)
            } else {
                (s, none)
            },
            None => (s, none),
        }
    } else if c == KeyCode::Char('D') {
        match selected_of(active_pane(s)) {
            Some(e) => if !entry_is_parent(e) {
                (SftpView { modal: Some(ModalView::ConfirmDelete(e)), ..s }, none)
            } else {
                (s, none)
            },
            None => (s, none),
        }
    } else if c == KeyCode::Char(' ') {
        preview_selected(s)
    } else if c == KeyCode::Char('y') {
        copy_selected_path(s)
    } else if c == KeyCode::Char('h') || c == KeyCode::Left || c == KeyCode::Backspace {
        go_parent(s)
    } else if c == KeyCode::Char('l') || c == KeyCode::Right {
        match selected_of(active_pane(s)) {
            Some(e) => if e.is_dir {
                navigate(s, e.path)
            } else {
                (s, none)
            },
            None => (s, none),
        }
    } else if c == KeyCode::Enter {
        on_enter(s)
    } else if c == KeyCode::Char('q') {
        (SftpView { exit: true, ..s }, none)
    } else if c == KeyCode::Esc {
        if active_pane(s).filter.len() > 0 {
            (with_active(s, pane_filtered(PaneView { filter: Seq::empty(), ..active_pane(s) }, s.show_hidden)), none)
        } else {
            (SftpView { exit: true, ..s }, none)
        }
    } else {
        (s, none)
    }
}

/// `/` filter mode: typing edits the active pane's filter; Enter acts on the
/// selection; Esc leaves filter mode keeping the filter.
pub open spec fn filter_key(s: SftpView, key: KeyEvent) -> Out {
    let none = Seq::<CommandView>::empty();
    let p = active_pane(s);
    match key.code {
        KeyCode::Esc => (SftpView { filtering: false, ..s }, none),
        KeyCode::Enter => on_enter(SftpView { filtering: false, ..s }),
        KeyCode::Up => (moved_active(s, -1), none),
        KeyCode::Down => (moved_active(s, 1), none),
        KeyCode::Char(ch) => if key.ctrl {
            if ch == 'p' {
                (moved_active(s, -1), none)
            } else if ch == 'n' {
                (moved_active(s, 1), none)
            } else {
                (s, none)
            }
        } else {
            (with_active(s, pane_filtered(PaneView { filter: p.filter.push(ch), ..p }, s.show_hidden)), none)
        },
        KeyCode::Backspace => if p.filter.len() == 0 {
            (SftpView { filtering: false, ..s }, none)
        } else {
            (with_active(s, pane_filtered(PaneView { filter: p.filter.drop_last(), ..p }, s.show_hidden)), none)
        },
        _ => (s, none),
    }
}

pub open spec fn edited(input: Seq<char>, key: KeyEvent) -> Seq<char> {
    match key.code {
        KeyCode::Backspace => if input.len() > 0 { input.drop_last() } else { input },
        KeyCode::Char(ch) => input.push(ch),
        _ => input,
    }
}

/// A modal takes every key while open.
pub open spec fn modal_key(s: SftpView, m: ModalView, key: KeyEvent) -> Out {
    let none = Seq::<CommandView>::empty();
    let closed = SftpView { modal: None, ..s };
    let c = key.code;
    match m {
        ModalView::HostKey { .. } => if c == KeyCode::Char('y') {
            (closed, seq![CommandView::Send(RequestView::AcceptHostKey(true))])
        } else if c == KeyCode::Char('n') || c == KeyCode::Esc {
            (closed, seq![CommandView::Send(RequestView::AcceptHostKey(false))])
        } else {
            (s, none)
        },
        ModalView::Passphrase { key_path, input } => if c == KeyCode::Enter {
            (closed, seq![CommandView::Send(RequestView::Passphrase(Some(input)))])
        } else if c == KeyCode::Esc {
            (
                with_status(closed, "key auth cancelled — trying agent/default keys"@),
                seq![CommandView::Send(RequestView::Passphrase(None))],
            )
        } else {
            (SftpView { modal: Some(ModalView::Passphrase { key_path, input: edited(input, key) }), ..s }, none)
        },
        ModalView::ConfirmOverwrite(p) => if c == KeyCode::Char('y') {
            start_transfer(closed, p)
        } else if c == KeyCode::Char('n') || c == KeyCode::Esc || c == KeyCode::Enter {
            (with_status(closed, "overwrite declined"@), none)
        } else {
            (s, none)
        },
        ModalView::Transfer { .. } => if c == KeyCode::Esc {
            (s, seq![CommandView::SetCancel(true)])
        } else {
            (s, none)
        },
        ModalView::Rename { entry, input } => if c == KeyCode::Enter {
            do_rename(closed, entry, trim(input))
        } else if c == KeyCode::Esc {
            (closed, none)
        } else {
            (SftpView { modal: Some(ModalView::Rename { entry, input: edited(input, key) }), ..s }, none)
        },
        ModalView::ConfirmDelete(e) => if c == KeyCode::Char('y') {
            do_delete(closed, e)
        } else if c == KeyCode::Char('n') || c == KeyCode::Esc || c == KeyCode::Enter {
            (with_status(closed, "delete cancelled"@), none)
        } else {
            (s, none)
        },
        ModalView::Fatal(_) => (SftpView { exit: true, ..closed }, none),
    }
}

/// The screen after a key press, and what it asks the application to do.
pub open spec fn sftp_key(s: SftpView, key: KeyEvent) -> Out {
    match s.modal {
        Some(m) => modal_key(s, m, key),
        None => if s.filtering {
            filter_key(s, key)
        } else {
            normal_key(s, key)
        },
    }
}

pub enum EventView {
    HostKeyUnknown { host: Seq<char>, fingerprint: Seq<char> },
    PassphraseNeeded { key_path: Seq<char> },
    Connected { remote_home: Seq<char> },
    DirListing { path: Seq<char>, result: Result<Seq<FsEntryView>, Seq<char>> },
    StatResult { exists: bool, is_dir: bool, size: u64 },
    Progress { transferred: u64, total: u64 },
    TransferDone { direction: Direction, name: Seq<char>, bytes: u64 },
    TransferFailed { error: Seq<char>, cancelled: bool },
    OpFinished(Result<Seq<char>, Seq<char>>),
    PreviewReady(Seq<char>),
    Fatal(Seq<char>),
}

pub open spec fn listing_view(r: Result<Vec<FsEntry>, String>) -> Result<Seq<FsEntryView>, Seq<char>> {
    match r {
        Ok(es) => Ok(entries_view(es@)),
        Err(e) => Err(e@),
    }
}

pub open spec fn text_result_view(r: Result<String, String>) -> Result<Seq<char>, Seq<char>> {
    match r {
        Ok(m) => Ok(m@),
        Err(e) => Err(e@),
    }
}

impl View for SftpEvent {
    type V = EventView;

    open spec fn view(&self) -> EventView {
        match self {
            SftpEvent::HostKeyUnknown { host, fingerprint } => EventView::HostKeyUnknown { host: host@, fingerprint: fingerprint@ },
            SftpEvent::PassphraseNeeded { key_path } => EventView::PassphraseNeeded { key_path: key_path@ },
            SftpEvent::Connected { remote_home } => EventView::Connected { remote_home: remote_home@ },
            SftpEvent::DirListing { path, result } => EventView::DirListing { path: path@, result: listing_view(*result) },
            SftpEvent::StatResult { exists, is_dir, size } => EventView::StatResult { exists: *exists, is_dir: *is_dir, size: *size },
            SftpEvent::Progress { transferred, total } => EventView::Progress { transferred: *transferred, total: *total },
            SftpEvent::TransferDone { direction, name, bytes } => EventView::TransferDone { direction: *direction, name: name@, bytes: *bytes },
            SftpEvent::TransferFailed { error, cancelled } => EventView::TransferFailed { error: error@, cancelled: *cancelled },
            SftpEvent::OpFinished(r) => EventView::OpFinished(text_result_view(*r)),
            SftpEvent::PreviewReady(p) => EventView::PreviewReady(p@),
            SftpEvent::Fatal(m) => EventView::Fatal(m@),
        }
    }
}

pub open spec fn verb_text(d: Direction) -> Seq<char> {
    match d {
        Direction::Upload => "Uploaded"@,
        Direction::Download => "Downloaded"@,
    }
}

/// A remote `stat` answered: for a pending transfer, a free destination
/// starts it, a directory is refused, an existing file needs confirmation;
/// for a remote symlink, a directory is entered and anything else transferred.
pub open spec fn stat_result(s: SftpView, exists: bool, is_dir: bool, size: u64) -> Out {
    let s0 = SftpView { pending_stat: None, ..s };
    match s.pending_stat {
        Some(PendingStatView::Transfer(p)) => if !exists {
            start_transfer(s0, p)
        } else if is_dir {
            (with_status(s0, "cannot overwrite: "@ + p.dst + " is a directory"@), Seq::empty())
        } else {
            (
                SftpView { modal: Some(ModalView::ConfirmOverwrite(PendingTransferView { existing_size: size, ..p })), ..s0 },
                Seq::empty(),
            )
        },
        Some(PendingStatView::Navigate) => match selected_of(active_pane(s0)) {
            Some(e) => if is_dir {
                navigate(s0, e.path)
            } else {
                request_transfer(s0, e)
            },
            None => (s0, Seq::empty()),
        },
        None => (s0, Seq::empty()),
    }
}

/// The directory the remote pane opens in: the remote home, or the
/// connection's start directory taken from it (`~` is the home itself).
pub open spec fn remote_start(home: Seq<char>, start_dir: Option<Seq<char>>) -> Seq<char> {
    match start_dir {
        Some(d) => if d == seq!['~'] {
            home
        } else {
            path_join(home, d)
        },
        None => home,
    }
}

/// The screen after a worker event.
pub open spec fn sftp_event(s: SftpView, ev: EventView) -> Out {
    let none = Seq::<CommandView>::empty();
    match ev {
        EventView::HostKeyUnknown { host, fingerprint } => (SftpView { modal: Some(ModalView::HostKey { host, fingerprint }), ..s }, none),
        EventView::PassphraseNeeded { key_path } => (
            SftpView { modal: Some(ModalView::Passphrase { key_path, input: Seq::empty() }), ..s },
            none,
        ),
        EventView::Connected { remote_home } => (
            SftpView { phase: Phase::Ready, remote: PaneView { loading: true, ..s.remote }, ..s },
            seq![CommandView::Send(RequestView::ReadDir(remote_start(remote_home, s.start_dir)))],
        ),
        EventView::DirListing { path, result } => {
            let s1 = SftpView { remote: PaneView { loading: false, ..s.remote }, ..s };
            match result {
                Ok(es) => (SftpView { remote: pane_listed(s1.remote, path, es, s.show_hidden), ..s1 }, none),
                Err(e) => (with_status(s1, "remote: "@ + e), none),
            }
        },
        EventView::StatResult { exists, is_dir, size } => stat_result(s, exists, is_dir, size),
        EventView::Progress { transferred, total } => match s.modal {
            Some(ModalView::Transfer { direction, name, .. }) => (
                SftpView { modal: Some(ModalView::Transfer { direction, name, transferred, total }), ..s },
                none,
            ),
            _ => (s, none),
        },
        EventView::TransferDone { direction, name, bytes } => {
            let s1 = with_status(
                SftpView { modal: None, ..s },
                verb_text(direction) + seq![' '] + name + " ("@ + human_size_text(bytes as nat) + ")"@,
            );
            match direction {
                Direction::Upload => refresh_remote(s1),
                Direction::Download => refresh_local(s1),
            }
        },
        EventView::TransferFailed { error, cancelled } => (
            with_status(
                SftpView { modal: None, ..s },
                if cancelled { "transfer cancelled"@ } else { "transfer failed: "@ + error },
            ),
            none,
        ),
        EventView::OpFinished(r) => match r {
            Ok(msg) => refresh_remote(with_status(s, msg)),
            Err(e) => (with_status(s, e), none),
        },
        EventView::PreviewReady(path) => (SftpView { modal: None, ..s }, seq![CommandView::QuickLook(path)]),
        EventView::Fatal(msg) => (SftpView { modal: Some(ModalView::Fatal(msg)), ..s }, none),
    }
}

pub open spec fn rename_outcome_view(o: RenameOutcome) -> Option<Option<Seq<char>>> {
    match o {
        RenameOutcome::AlreadyExists => None,
        RenameOutcome::Renamed => Some(None),
        RenameOutcome::Failed(e) => Some(Some(e@)),
    }
}

/// A local rename finished: `None` when the name was taken (`fs::rename`
/// would overwrite silently, so nothing was done), `Some(None)` when renamed,
/// `Some(Some(e))` when it failed.
pub open spec fn local_rename_done(s: SftpView, new_name: Seq<char>, outcome: Option<Option<Seq<char>>>) -> Out {
    match outcome {
        None => (with_status(s, new_name + " already exists"@), Seq::empty()),
        Some(None) => refresh_local(with_status(s, "Renamed to "@ + new_name)),
        Some(Some(e)) => (with_status(s, "rename failed: "@ + e), Seq::empty()),
    }
}

pub open spec fn unit_result_view(r: Result<(), String>) -> Result<(), Seq<char>> {
    match r {
        Ok(()) => Ok(()),
        Err(e) => Err(e@),
    }
}

pub open spec fn local_delete_done(s: SftpView, name: Seq<char>, r: Result<(), Seq<char>>) -> Out {
    match r {
        Ok(()) => refresh_local(with_status(s, "Deleted "@ + name)),
        Err(e) => (with_status(s, "delete failed: "@ + e), Seq::empty()),
    }
}

pub open spec fn clipboard_done(s: SftpView, path: Seq<char>, r: Result<(), Seq<char>>) -> Out {
    match r {
        Ok(()) => (with_status(s, "copied "@ + path), Seq::empty()),
        Err(e) => (with_status(s, "copy failed: "@ + e), Seq::empty()),
    }
}

pub open spec fn quick_look_done(s: SftpView, path: Seq<char>, r: Result<(), Seq<char>>) -> Out {
    match r {
        Ok(()) => (
            with_status(
                s,
                "previewing "@ + match std_path_file_name(path) {
                    Some(n) => n,
                    None => Seq::empty(),
                },
            ),
            Seq::empty(),
        ),
        Err(e) => (with_status(s, "preview failed: "@ + e), Seq::empty()),
    }
}

/// The preview directory is ready (or could not be made): download the
/// remote file into it, showing progress.
pub open spec fn preview_dir_done(s: SftpView, remote: Seq<char>, name: Seq<char>, size: u64, r: Result<Seq<char>, Seq<char>>) -> Out {
    match r {
        Ok(dir) => (
            SftpView {
                modal: Some(ModalView::Transfer { direction: Direction::Download, name: name + " (preview)"@, transferred: 0, total: size }),
                ..s
            },
            seq![
                CommandView::SetCancel(false),
                CommandView::Send(RequestView::Preview { remote, local: path_join(dir, name) }),
            ],
        ),
        Err(e) => (with_status(s, "preview failed: "@ + e), Seq::empty()),
    }
}

// ------------------------------------------------------------------ overwrite safety

/// The command uploads or downloads a file.
pub open spec fn is_transfer(c: CommandView) -> bool {
    ||| c matches CommandView::Send(RequestView::Upload { .. })
    ||| c matches CommandView::Send(RequestView::Download { .. })
}

pub open spec fn no_transfer(cmds: Seq<CommandView>) -> bool {
    forall|i: int| 0 <= i < cmds.len() ==> !is_transfer(#[trigger] cmds[i])
}

/// Overwrites always require confirmation. A key press starts a transfer
/// only as the `y` answer to the overwrite prompt, and then it transfers
/// exactly the file the prompt showed.
pub proof fn lemma_key_transfers_only_when_confirmed(s: SftpView, key: KeyEvent)
    requires
        !no_transfer(sftp_key(s, key).1),
    ensures
        s.modal matches Some(ModalView::ConfirmOverwrite(p)) && key.code == KeyCode::Char('y') && sftp_key(s, key)
            == start_transfer(SftpView { modal: None, ..s }, p),
{
    let t = sftp_key(s, key).1;
    let i = choose|i: int| 0 <= i < t.len() && is_transfer(#[trigger] t[i]);
    assert(is_transfer(t[i]));
}

/// Nor does a worker event start a transfer, except the answer to the
/// check of a pending transfer's destination that found nothing there.
pub proof fn lemma_event_transfers_only_when_free(s: SftpView, ev: EventView)
    requires
        !no_transfer(sftp_event(s, ev).1),
    ensures
        ev matches EventView::StatResult { exists, .. } && !exists,
        s.pending_stat matches Some(PendingStatView::Transfer(p)) && sftp_event(s, ev)
            == start_transfer(SftpView { pending_stat: None, ..s }, p),
{
    let t = sftp_event(s, ev).1;
    let i = choose|i: int| 0 <= i < t.len() && is_transfer(#[trigger] t[i]);
    assert(is_transfer(t[i]));
}

/// A download's local destination: an existing file or directory is never
/// overwritten without the prompt; only a free name starts the transfer.
pub proof fn lemma_local_check_transfers_only_when_free(s: SftpView, p: PendingTransferView, found: Option<(bool, u64)>)
    requires
        !no_transfer(local_stat_done(s, p, found).1),
    ensures
        found is None,
{
    let t = local_stat_done(s, p, found).1;
    let i = choose|i: int| 0 <= i < t.len() && is_transfer(#[trigger] t[i]);
    assert(is_transfer(t[i]));
}

/// Remote previews are limited to images, text and pdf files of at most
/// 10 MB; anything else only sets a status message.
pub proof fn lemma_remote_preview_limits(s: SftpView)
    requires
        s.active == Side::Remote,
        preview_selected(s).1.len() > 0,
    ensures
        selected_of(active_pane(s)) matches Some(e) && !e.is_dir && preview_supported(e.name) && e.size
            <= preview_limit() && preview_selected(s).1 == seq![
            CommandView::PreparePreview { remote: e.path, name: e.name, size: e.size },
        ],
{
}

// ------------------------------------------------------------------ the screen

pub open spec fn fresh_pane() -> PaneView {
    PaneView {
        cwd: seq!['/'],
        entries: Seq::empty(),
        filtered: Seq::empty(),
        selected: 0,
        filter: Seq::empty(),
        loading: false,
    }
}

/// The screen right after connecting starts: the local pane lists the home
/// directory (hidden files shown), the remote pane waits for the worker.
pub open spec fn sftp_start(conn_name: Seq<char>, start_dir: Option<Seq<char>>, home: Seq<char>, home_entries: Seq<FsEntryView>) -> SftpView {
    SftpView {
        conn_name,
        start_dir,
        phase: Phase::Connecting,
        local: pane_listed(fresh_pane(), home, home_entries, true),
        remote: PaneView { loading: true, ..fresh_pane() },
        active: Side::Local,
        show_hidden: true,
        filtering: false,
        modal: None,
        exit: false,
        status: None,
        status_seq: 0,
        pending_stat: None,
    }
}

fn remote_start_dir(home: &str, start_dir: &Option<String>) -> (r: String)
    ensures
        r@ == remote_start(home@, opt_view(*start_dir)),
{
    match start_dir {
        Some(d) => {
            let c = chars_of(d.as_str());
            if c.len() == 1 && c[0] == '~' {
                assert(c@ =~= seq!['~']);
                home.to_owned()
            } else {
                assert(c@ != seq!['~']) by {
                    if c@ == seq!['~'] {
                        assert(c@.len() == 1 && c@[0] == '~');
                    }
                }
                join_str(home, d.as_str())
            }
        },
        None => home.to_owned(),
    }
}

fn push_cmd(cmds: &mut Vec<SftpCommand>, c: SftpCommand)
    ensures
        cmds_view(final(cmds)@) == cmds_view(old(cmds)@).push(c@),
{
    cmds.push(c);
    assert(cmds_view(cmds@) =~= cmds_view(old(cmds)@).push(c@));
}

fn concat_msg(a: &str, b: &str) -> (r: String)
    ensures
        r@ == a@ + b@,
{
    let mut v = chars_of(a);
    let w = chars_of(b);
    append_chars(&mut v, &w);
    string_of(&v)
}

fn concat_msg3(a: &str, b: &str, c: &str) -> (r: String)
    ensures
        r@ == a@ + b@ + c@,
{
    let ab = concat_msg(a, b);
    concat_msg(ab.as_str(), c)
}

fn copy_entry(e: Option<&FsEntry>) -> (r: Option<FsEntry>)
    ensures
        match (e, r) {
            (Some(a), Some(b)) => a@ == b@,
            (None, None) => true,
            _ => false,
        },
{
    match e {
        Some(x) => Some(x.copy()),
        None => None,
    }
}

impl SftpScreen {
    pub closed spec fn wf(&self) -> bool {
        sftp_wf(self@)
    }

    pub fn new(conn_name: String, start_dir: Option<String>, home: String, home_entries: Vec<FsEntry>) -> (r: Self)
        ensures
            r.wf(),
            r@ == sftp_start(conn_name@, opt_view(start_dir), home@, entries_view(home_entries@)),
    {
        let mut local = PaneState::new();
        assert(local@.entries =~= fresh_pane().entries);
        assert(local@.filtered =~= fresh_pane().filtered);
        assert(local@.filter =~= fresh_pane().filter);
        assert(local@ == fresh_pane());
        local.set_listing(home, home_entries, true);
        let mut remote = PaneState::new();
        assert(remote@.entries =~= fresh_pane().entries);
        assert(remote@.filtered =~= fresh_pane().filtered);
        assert(remote@.filter =~= fresh_pane().filter);
        remote.loading = true;
        SftpScreen {
            conn_name,
            start_dir,
            phase: Phase::Connecting,
            local,
            remote,
            active: Side::Local,
            show_hidden: true,
            filtering: false,
            modal: None,
            exit: false,
            status: None,
            status_seq: 0,
            pending_stat: None,
        }
    }

    /// The browser asked to be closed.
    pub fn exit_requested(&self) -> (r: bool)
        ensures
            r == self@.exit,
    {
        self.exit
    }

    /// `?` must not open help while typing a passphrase, filter or new name.
    pub fn help_allowed(&self) -> (r: bool)
        ensures
            r == (!self@.filtering && !(self@.modal matches Some(ModalView::Passphrase { .. })) && !(self@.modal matches Some(ModalView::Rename { .. }))),
    {
        let typing = match &self.modal {
            Some(Modal::Passphrase { .. }) => true,
            Some(Modal::Rename { .. }) => true,
            _ => false,
        };
        !self.filtering && !typing
    }

    fn set_status(&mut self, msg: String)
        requires
            old(self).wf(),
        ensures
            final(self).wf(),
            final(self)@ == with_status(old(self)@, msg@),
    {
        self.status = Some(msg);
        self.status_seq = if self.status_seq < u64::MAX {
            self.status_seq + 1
        } else {
            0
        };
    }

    fn selected(&self) -> (r: Option<FsEntry>)
        requires
            self.wf(),
        ensures
            match (r, selected_of(active_pane(self@))) {
                (Some(a), Some(b)) => a@ == b,
                (None, None) => true,
                _ => false,
            },
    {
        match self.active {
            Side::Local => copy_entry(self.local.selected_entry()),
            Side::Remote => copy_entry(self.remote.selected_entry()),
        }
    }

    fn active_cwd(&self) -> (r: String)
        ensures
            r@ == active_pane(self@).cwd,
    {
        match self.active {
            Side::Local => self.local.cwd.clone(),
            Side::Remote => self.remote.cwd.clone(),
        }
    }

    fn navigate(&mut self, path: String, cmds: &mut Vec<SftpCommand>)
        requires
            old(self).wf(),
        ensures
            final(self).wf(),
            final(self)@ == navigate(old(self)@, path@).0,
            cmds_view(final(cmds)@) == cmds_view(old(cmds)@) + navigate(old(self)@, path@).1,
    {
        match self.active {
            Side::Local => {
                push_cmd(cmds, SftpCommand::ReadLocalDir { path, keep_filter: None });
            },
            Side::Remote => {
                self.remote.loading = true;
                push_cmd(cmds, SftpCommand::Send(SftpRequest::ReadDir(path)));
            },
        }
        assert(cmds_view(cmds@) =~= cmds_view(old(cmds)@) + navigate(old(self)@, path@).1);
    }

    fn refresh_local(&mut self, cmds: &mut Vec<SftpCommand>)
        requires
            old(self).wf(),
        ensures
            final(self).wf(),
            final(self)@ == refresh_local(old(self)@).0,
            cmds_view(final(cmds)@) == cmds_view(old(cmds)@) + refresh_local(old(self)@).1,
    {
        push_cmd(cmds, SftpCommand::ReadLocalDir { path: self.local.cwd.clone(), keep_filter: Some(self.local.filter.clone()) });
        assert(cmds_view(cmds@) =~= cmds_view(old(cmds)@) + refresh_local(old(self)@).1);
    }

    fn refresh_remote(&mut self, cmds: &mut Vec<SftpCommand>)
        requires
            old(self).wf(),
        ensures
            final(self).wf(),
            final(self)@ == refresh_remote(old(self)@).0,
            cmds_view(final(cmds)@) == cmds_view(old(cmds)@) + refresh_remote(old(self)@).1,
    {
        self.remote.loading = true;
        push_cmd(cmds, SftpCommand::Send(SftpRequest::ReadDir(self.remote.cwd.clone())));
        assert(cmds_view(cmds@) =~= cmds_view(old(cmds)@) + refresh_remote(old(self)@).1);
    }

    fn start_transfer(&mut self, p: PendingTransfer, cmds: &mut Vec<SftpCommand>)
        requires
            old(self).wf(),
        ensures
            final(self).wf(),
            final(self)@ == start_transfer(old(self)@, p@).0,
            cmds_view(final(cmds)@) == cmds_view(old(cmds)@) + start_transfer(old(self)@, p@).1,
    {
        push_cmd(cmds, SftpCommand::SetCancel(false));
        self.modal = Some(Modal::Transfer { direction: p.direction, name: p.name.clone(), transferred: 0, total: p.src_size });
        let req = match p.direction {
            Direction::Upload => SftpRequest::Upload { local: p.src, remote: p.dst },
            Direction::Download => SftpRequest::Download { remote: p.src, local: p.dst },
        };
        push_cmd(cmds, SftpCommand::Send(req));
        assert(cmds_view(cmds@) =~= cmds_view(old(cmds)@) + start_transfer(old(self)@, p@).1);
    }

    fn request_transfer(&mut self, e: &FsEntry, cmds: &mut Vec<SftpCommand>)
        requires
            old(self).wf(),
        ensures
            final(self).wf(),
            final(self)@ == request_transfer(old(self)@, e@).0,
            cmds_view(final(cmds)@) == cmds_view(old(cmds)@) + request_transfer(old(self)@, e@).1,
    {
        match self.active {
            Side::Local => {
                let dst = join_str(self.remote.cwd.as_str(), e.name.as_str());
                let p = PendingTransfer {
                    direction: Direction::Upload,
                    src: e.path.clone(),
                    name: e.name.clone(),
                    src_size: e.size,
                    dst: dst.clone(),
                    existing_size: 0,
                };
                self.pending_stat = Some(PendingStat::Transfer(p));
                push_cmd(cmds, SftpCommand::Send(SftpRequest::StatRemote(dst)));
                self.set_status("checking destination…".to_owned());
            },
            Side::Remote => {
                let dst = join_str(self.local.cwd.as_str(), e.name.as_str());
                let p = PendingTransfer {
                    direction: Direction::Download,
                    src: e.path.clone(),
                    name: e.name.clone(),
                    src_size: e.size,
                    dst,
                    existing_size: 0,
                };
                push_cmd(cmds, SftpCommand::StatLocal(p));
            },
        }
        assert(cmds_view(cmds@) =~= cmds_view(old(cmds)@) + request_transfer(old(self)@, e@).1);
    }

    fn on_enter(&mut self, cmds: &mut Vec<SftpCommand>)
        requires
            old(self).wf(),
        ensures
            final(self).wf(),
            final(self)@ == on_enter(old(self)@).0,
            cmds_view(final(cmds)@) == cmds_view(old(cmds)@) + on_enter(old(self)@).1,
    {
        let e = match self.selected() {
            Some(e) => e,
            None => {
                assert(cmds_view(cmds@) =~= cmds_view(old(cmds)@) + on_enter(old(self)@).1);
                return ;
            },
        };
        if e.is_dir {
            self.navigate(e.path, cmds);
        } else if e.is_symlink && self.active == Side::Remote {
            self.pending_stat = Some(PendingStat::Navigate);
            push_cmd(cmds, SftpCommand::Send(SftpRequest::StatRemote(e.path)));
            assert(cmds_view(cmds@) =~= cmds_view(old(cmds)@) + on_enter(old(self)@).1);
        } else {
            self.request_transfer(&e, cmds);
        }
    }

    /// A local directory listing arrived (see `SftpCommand::ReadLocalDir`).
    pub fn local_listed(&mut self, path: String, keep_filter: Option<String>, result: Result<Vec<FsEntry>, String>)
        requires
            old(self).wf(),
        ensures
            final(self).wf(),
            final(self)@ == local_listed(old(self)@, path@, opt_view(keep_filter), listing_view(result)).0,
    {
        match result {
            Ok(entries) => {
                self.local.set_listing(path, entries, self.show_hidden);
                match keep_filter {
                    Some(f) => {
                        self.local.filter = f;
                        self.local.apply_filter(self.show_hidden);
                    },
                    None => {},
                }
            },
            Err(e) => {
                let m = concat_msg("local: ", e.as_str());
                self.set_status(m);
            },
        }
    }

    /// The local destination of a download was looked up (see
    /// `SftpCommand::StatLocal`): `Some((is_dir, len))` when something is there.
    pub fn local_stat_done(&mut self, p: PendingTransfer, found: Option<(bool, u64)>) -> (cmds: Vec<SftpCommand>)
        requires
            old(self).wf(),
        ensures
            final(self).wf(),
            (final(self)@, cmds_view(cmds@)) == local_stat_done(old(self)@, p@, found),
    {
        let mut cmds: Vec<SftpCommand> = Vec::new();
        match found {
            Some((is_dir, len)) => {
                if is_dir {
                    let m = concat_msg3("cannot overwrite: ", p.dst.as_str(), " is a directory");
                    self.set_status(m);
                } else {
                    let mut q = p;
                    q.existing_size = len;
                    self.modal = Some(Modal::ConfirmOverwrite(q));
                }
            },
            None => {
                self.start_transfer(p, &mut cmds);
            },
        }
        assert(cmds_view(cmds@) =~= local_stat_done(old(self)@, p@, found).1);
        cmds
    }

    fn go_parent(&mut self, cmds: &mut Vec<SftpCommand>)
        requires
            old(self).wf(),
        ensures
            final(self).wf(),
            final(self)@ == go_parent(old(self)@).0,
            cmds_view(final(cmds)@) == cmds_view(old(cmds)@) + go_parent(old(self)@).1,
    {
        let cwd = self.active_cwd();
        match path_parent(cwd.as_str()) {
            Some(p) => self.navigate(p, cmds),
            None => {
                assert(cmds_view(cmds@) =~= cmds_view(old(cmds)@) + go_parent(old(self)@).1);
            },
        }
    }

    fn preview_selected(&mut self, cmds: &mut Vec<SftpCommand>)
        requires
            old(self).wf(),
        ensures
            final(self).wf(),
            final(self)@ == preview_selected(old(self)@).0,
            cmds_view(final(cmds)@) == cmds_view(old(cmds)@) + preview_selected(old(self)@).1,
    {
        let e = match self.selected() {
            Some(e) => e,
            None => {
                assert(cmds_view(cmds@) =~= cmds_view(old(cmds)@) + preview_selected(old(self)@).1);
                return ;
            },
        };
        if e.is_dir {
            self.set_status("cannot preview a directory".to_owned());
        } else if self.active == Side::Local {
            push_cmd(cmds, SftpCommand::QuickLook(e.path));
        } else if !remote_preview_supported(e.name.as_str()) {
            self.set_status("remote preview supports images, text files and pdf".to_owned());
        } else if e.size > 10485760 {
            let a = human_size(e.size);
            let b = human_size(10485760);
            let mut m = chars_of("too large to preview (");
            let ac = chars_of(a.as_str());
            append_chars(&mut m, &ac);
            let mid = chars_of(", max ");
            append_chars(&mut m, &mid);
            let bc = chars_of(b.as_str());
            append_chars(&mut m, &bc);
            let close = chars_of(")");
            append_chars(&mut m, &close);
            self.set_status(string_of(&m));
        } else {
            push_cmd(cmds, SftpCommand::PreparePreview { remote: e.path, name: e.name, size: e.size });
        }
        assert(cmds_view(cmds@) =~= cmds_view(old(cmds)@) + preview_selected(old(self)@).1);
    }

    fn copy_selected_path(&mut self, cmds: &mut Vec<SftpCommand>)
        requires
            old(self).wf(),
        ensures
            final(self).wf(),
            final(self)@ == copy_selected_path(old(self)@).0,
            cmds_view(final(cmds)@) == cmds_view(old(cmds)@) + copy_selected_path(old(self)@).1,
    {
        let path = match self.selected() {
            Some(e) => if !e.is_parent() {
                e.path
            } else {
                self.active_cwd()
            },
            None => self.active_cwd(),
        };
        push_cmd(cmds, SftpCommand::CopyToClipboard(path));
        assert(cmds_view(cmds@) =~= cmds_view(old(cmds)@) + copy_selected_path(old(self)@).1);
    }

    fn do_rename(&mut self, e: &FsEntry, new_name: &str, cmds: &mut Vec<SftpCommand>)
        requires
            old(self).wf(),
        ensures
            final(self).wf(),
            final(self)@ == do_rename(old(self)@, e@, new_name@).0,
            cmds_view(final(cmds)@) == cmds_view(old(cmds)@) + do_rename(old(self)@, e@, new_name@).1,
    {
        let n = chars_of(new_name);
        let old_name = chars_of(e.name.as_str());
        if chars_eq(&n, &old_name) {
            assert(cmds_view(cmds@) =~= cmds_view(old(cmds)@) + do_rename(old(self)@, e@, new_name@).1);
            return ;
        }
        if !is_valid_entry_name(new_name) {
            let q = debug_str(new_name);
            let m = concat_msg("invalid name: ", q.as_str());
            self.set_status(m);
            assert(cmds_view(cmds@) =~= cmds_view(old(cmds)@) + do_rename(old(self)@, e@, new_name@).1);
            return ;
        }
        let target = path_with_file_name(e.path.as_str(), new_name);
        match self.active {
            Side::Local => {
                push_cmd(cmds, SftpCommand::RenameLocal { from: e.path.clone(), to: target, new_name: new_name.to_owned() });
            },
            Side::Remote => {
                push_cmd(cmds, SftpCommand::Send(SftpRequest::Rename { from: e.path.clone(), to: target }));
            },
        }
        assert(cmds_view(cmds@) =~= cmds_view(old(cmds)@) + do_rename(old(self)@, e@, new_name@).1);
    }

    fn do_delete(&mut self, e: &FsEntry, cmds: &mut Vec<SftpCommand>)
        requires
            old(self).wf(),
        ensures
            final(self).wf(),
            final(self)@ == do_delete(old(self)@, e@).0,
            cmds_view(final(cmds)@) == cmds_view(old(cmds)@) + do_delete(old(self)@, e@).1,
    {
        let dir = e.is_dir && !e.is_symlink;
        match self.active {
            Side::Local => {
                push_cmd(cmds, SftpCommand::DeleteLocal { path: e.path.clone(), dir, name: e.name.clone() });
            },
            Side::Remote => {
                push_cmd(cmds, SftpCommand::Send(SftpRequest::Delete { path: e.path.clone(), is_dir: dir }));
            },
        }
        assert(cmds_view(cmds@) =~= cmds_view(old(cmds)@) + do_delete(old(self)@, e@).1);
    }

    fn move_active(&mut self, d: i64)
        requires
            old(self).wf(),
        ensures
            final(self).wf(),
            final(self)@ == moved_active(old(self)@, d as int),
    {
        match self.active {
            Side::Local => self.local.move_selection(d),
            Side::Remote => self.remote.move_selection(d),
        }
    }

    #[verifier::rlimit(40)]
    fn normal_key(&mut self, key: KeyEvent, cmds: &mut Vec<SftpCommand>)
        requires
            old(self).wf(),
        ensures
            final(self).wf(),
            final(self)@ == normal_key(old(self)@, key).0,
            cmds_view(final(cmds)@) == cmds_view(old(cmds)@) + normal_key(old(self)@, key).1,
    {
        match key.code {
            KeyCode::Tab => {
                self.active = match self.active {
                    Side::Local => Side::Remote,
                    Side::Remote => Side::Local,
                };
            },
            KeyCode::Char('/') => {
                self.filtering = true;
            },
            KeyCode::Char('j') | KeyCode::Down => self.move_active(1),
            KeyCode::Char('k') | KeyCode::Up => self.move_active(-1),
            KeyCode::PageUp => self.move_active(-15),
            KeyCode::PageDown => self.move_active(15),
            KeyCode::Char('g') | KeyCode::Home => match self.active {
                Side::Local => self.local.select_first(),
                Side::Remote => self.remote.select_first(),
            },
            KeyCode::Char('G') | KeyCode::End => match self.active {
                Side::Local => self.local.select_last(),
                Side::Remote => self.remote.select_last(),
            },
            KeyCode::Char('.') => {
                self.show_hidden = !self.show_hidden;
                let show = self.show_hidden;
                self.local.apply_filter(show);
                self.remote.apply_filter(show);
            },
            KeyCode::Char('r') => {
                self.refresh_local(cmds);
                self.refresh_remote(cmds);
            },
            KeyCode::Char('R') => {
                if let Some(entry) = self.selected() {
                    if !entry.is_parent() {
                        let input = entry.name.clone();
                        self.modal = Some(Modal::Rename { entry, input });
                    }
                }
            },
            KeyCode::Char('D') => {
                if let Some(entry) = self.selected() {
                    if !entry.is_parent() {
                        self.modal = Some(Modal::ConfirmDelete(entry));
                    }
                }
            },
            KeyCode::Char(' ') => self.preview_selected(cmds),
            KeyCode::Char('y') => self.copy_selected_path(cmds),
            KeyCode::Char('h') | KeyCode::Left | KeyCode::Backspace => self.go_parent(cmds),
            KeyCode::Char('l') | KeyCode::Right => {
                if let Some(entry) = self.selected() {
                    if entry.is_dir {
                        self.navigate(entry.path, cmds);
                    }
                }
            },
            KeyCode::Enter => self.on_enter(cmds),
            KeyCode::Char('q') => {
                self.exit = true;
            },
            KeyCode::Esc => {
                let show = self.show_hidden;
                let has_filter = match self.active {
                    Side::Local => !self.local.filter.as_str().is_empty(),
                    Side::Remote => !self.remote.filter.as_str().is_empty(),
                };
                if has_filter {
                    match self.active {
                        Side::Local => {
                            self.local.filter = String::new();
                            self.local.apply_filter(show);
                        },
                        Side::Remote => {
                            self.remote.filter = String::new();
                            self.remote.apply_filter(show);
                        },
                    }
                } else {
                    self.exit = true;
                }
            },
            _ => {},
        }
        assert(cmds_view(cmds@) =~= cmds_view(old(cmds)@) + normal_key(old(self)@, key).1);
    }

    fn filter_key(&mut self, key: KeyEvent, cmds: &mut Vec<SftpCommand>)
        requires
            old(self).wf(),
        ensures
            final(self).wf(),
            final(self)@ == filter_key(old(self)@, key).0,
            cmds_view(final(cmds)@) == cmds_view(old(cmds)@) + filter_key(old(self)@, key).1,
    {
        let show = self.show_hidden;
        match key.code {
            KeyCode::Esc => {
                self.filtering = false;
            },
            KeyCode::Enter => {
                self.filtering = false;
                self.on_enter(cmds);
            },
            KeyCode::Up => self.move_active(-1),
            KeyCode::Down => self.move_active(1),
            KeyCode::Char(c) => {
                if key.ctrl {
                    if c == 'p' {
                        self.move_active(-1);
                    } else if c == 'n' {
                        self.move_active(1);
                    }
                } else {
                    match self.active {
                        Side::Local => {
                            let mut f = chars_of(self.local.filter.as_str());
                            f.push(c);
                            self.local.filter = string_of(&f);
                            self.local.apply_filter(show);
                        },
                        Side::Remote => {
                            let mut f = chars_of(self.remote.filter.as_str());
                            f.push(c);
                            self.remote.filter = string_of(&f);
                            self.remote.apply_filter(show);
                        },
                    }
                }
            },
            KeyCode::Backspace => {
                match self.active {
                    Side::Local => {
                        let mut f = chars_of(self.local.filter.as_str());
                        if f.len() == 0 {
                            self.filtering = false;
                        } else {
                            f.pop();
                            self.local.filter = string_of(&f);
                            self.local.apply_filter(show);
                        }
                    },
                    Side::Remote => {
                        let mut f = chars_of(self.remote.filter.as_str());
                        if f.len() == 0 {
                            self.filtering = false;
                        } else {
                            f.pop();
                            self.remote.filter = string_of(&f);
                            self.remote.apply_filter(show);
                        }
                    },
                }
            },
            _ => {},
        }
        assert(cmds_view(cmds@) =~= cmds_view(old(cmds)@) + filter_key(old(self)@, key).1);
    }

    fn modal_key(&mut self, key: KeyEvent, cmds: &mut Vec<SftpCommand>)
        requires
            old(self).wf(),
            old(self)@.modal is Some,
        ensures
            final(self).wf(),
            final(self)@ == modal_key(old(self)@, old(self)@.modal->0, key).0,
            cmds_view(final(cmds)@) == cmds_view(old(cmds)@) + modal_key(old(self)@, old(self)@.modal->0, key).1,
    {
        let ghost s0 = self@;
        let modal = self.modal.take();
        let c = key.code;
        match modal {
            Some(Modal::HostKey { host, fingerprint }) => {
                if c == KeyCode::Char('y') {
                    push_cmd(cmds, SftpCommand::Send(SftpRequest::AcceptHostKey(true)));
                } else if c == KeyCode::Char('n') || c == KeyCode::Esc {
                    push_cmd(cmds, SftpCommand::Send(SftpRequest::AcceptHostKey(false)));
                } else {
                    self.modal = Some(Modal::HostKey { host, fingerprint });
                }
            },
            Some(Modal::Passphrase { key_path, input }) => {
                if c == KeyCode::Enter {
                    push_cmd(cmds, SftpCommand::Send(SftpRequest::Passphrase(Some(input))));
                } else if c == KeyCode::Esc {
                    push_cmd(cmds, SftpCommand::Send(SftpRequest::Passphrase(None)));
                    self.set_status("key auth cancelled — trying agent/default keys".to_owned());
                } else {
                    let mut v = chars_of(input.as_str());
                    match c {
                        KeyCode::Backspace => {
                            if v.len() > 0 {
                                v.pop();
                            }
                        },
                        KeyCode::Char(ch) => {
                            v.push(ch);
                        },
                        _ => {},
                    }
                    self.modal = Some(Modal::Passphrase { key_path, input: string_of(&v) });
                }
            },
            Some(Modal::ConfirmOverwrite(p)) => {
                if c == KeyCode::Char('y') {
                    self.start_transfer(p, cmds);
                } else if c == KeyCode::Char('n') || c == KeyCode::Esc || c == KeyCode::Enter {
                    self.set_status("overwrite declined".to_owned());
                } else {
                    self.modal = Some(Modal::ConfirmOverwrite(p));
                }
            },
            Some(Modal::Transfer { direction, name, transferred, total }) => {
                if c == KeyCode::Esc {
                    push_cmd(cmds, SftpCommand::SetCancel(true));
                }
                self.modal = Some(Modal::Transfer { direction, name, transferred, total });
            },
            Some(Modal::Rename { entry, input }) => {
                if c == KeyCode::Enter {
                    let t = trimmed(input.as_str());
                    let ts = string_of(&t);
                    self.do_rename(&entry, ts.as_str(), cmds);
                } else if c == KeyCode::Esc {
                } else {
                    let mut v = chars_of(input.as_str());
                    match c {
                        KeyCode::Backspace => {
                            if v.len() > 0 {
                                v.pop();
                            }
                        },
                        KeyCode::Char(ch) => {
                            v.push(ch);
                        },
                        _ => {},
                    }
                    self.modal = Some(Modal::Rename { entry, input: string_of(&v) });
                }
            },
            Some(Modal::ConfirmDelete(entry)) => {
                if c == KeyCode::Char('y') {
                    self.do_delete(&entry, cmds);
                } else if c == KeyCode::Char('n') || c == KeyCode::Esc || c == KeyCode::Enter {
                    self.set_status("delete cancelled".to_owned());
                } else {
                    self.modal = Some(Modal::ConfirmDelete(entry));
                }
            },
            Some(Modal::Fatal(_)) => {
                self.exit = true;
            },
            None => {},
        }
        assert(cmds_view(cmds@) =~= cmds_view(old(cmds)@) + modal_key(s0, s0.modal->0, key).1);
    }

    /// A key press: the screen updates, and returns what the application must do.
    pub fn on_key(&mut self, key: KeyEvent) -> (cmds: Vec<SftpCommand>)
        requires
            old(self).wf(),
        ensures
            final(self).wf(),
            (final(self)@, cmds_view(cmds@)) == sftp_key(old(self)@, key),
    {
        let mut cmds: Vec<SftpCommand> = Vec::new();
        if self.modal.is_some() {
            self.modal_key(key, &mut cmds);
        } else if self.filtering {
            self.filter_key(key, &mut cmds);
        } else {
            self.normal_key(key, &mut cmds);
        }
        assert(cmds_view(cmds@) =~= sftp_key(old(self)@, key).1);
        cmds
    }

    fn stat_result(&mut self, exists: bool, is_dir: bool, size: u64, cmds: &mut Vec<SftpCommand>)
        requires
            old(self).wf(),
        ensures
            final(self).wf(),
            final(self)@ == stat_result(old(self)@, exists, is_dir, size).0,
            cmds_view(final(cmds)@) == cmds_view(old(cmds)@) + stat_result(old(self)@, exists, is_dir, size).1,
    {
        let pending = self.pending_stat.take();
        match pending {
            Some(PendingStat::Transfer(p)) => {
                if !exists {
                    self.start_transfer(p, cmds);
                } else if is_dir {
                    let m = concat_msg3("cannot overwrite: ", p.dst.as_str(), " is a directory");
                    self.set_status(m);
                } else {
                    let mut q = p;
                    q.existing_size = size;
                    self.modal = Some(Modal::ConfirmOverwrite(q));
                }
            },
            Some(PendingStat::Navigate) => {
                match self.selected() {
                    Some(e) => {
                        if is_dir {
                            self.navigate(e.path, cmds);
                        } else {
                            self.request_transfer(&e, cmds);
                        }
                    },
                    None => {},
                }
            },
            None => {},
        }
        assert(cmds_view(cmds@) =~= cmds_view(old(cmds)@) + stat_result(old(self)@, exists, is_dir, size).1);
    }

    /// An event from the worker: the screen updates, and returns what the
    /// application must do.
    pub fn on_event(&mut self, event: SftpEvent) -> (cmds: Vec<SftpCommand>)
        requires
            old(self).wf(),
        ensures
            final(self).wf(),
            (final(self)@, cmds_view(cmds@)) == sftp_event(old(self)@, event@),
    {
        let ghost ev = event@;
        let mut cmds: Vec<SftpCommand> = Vec::new();
        match event {
            SftpEvent::HostKeyUnknown { host, fingerprint } => {
                self.modal = Some(Modal::HostKey { host, fingerprint });
            },
            SftpEvent::PassphraseNeeded { key_path } => {
                self.modal = Some(Modal::Passphrase { key_path, input: String::new() });
            },
            SftpEvent::Connected { remote_home } => {
                self.phase = Phase::Ready;
                self.remote.loading = true;
                let dir = remote_start_dir(remote_home.as_str(), &self.start_dir);
                push_cmd(&mut cmds, SftpCommand::Send(SftpRequest::ReadDir(dir)));
            },
            SftpEvent::DirListing { path, result } => {
                self.remote.loading = false;
                assert(self.remote@.filtered == old(self).remote@.filtered);
                assert(self.wf());
                match result {
                    Ok(entries) => {
                        self.remote.set_listing(path, entries, self.show_hidden);
                    },
                    Err(e) => {
                        let m = concat_msg("remote: ", e.as_str());
                        self.set_status(m);
                    },
                }
            },
            SftpEvent::StatResult { exists, is_dir, size } => {
                self.stat_result(exists, is_dir, size, &mut cmds);
            },
            SftpEvent::Progress { transferred, total } => {
                let m = self.modal.take();
                match m {
                    Some(Modal::Transfer { direction, name, .. }) => {
                        self.modal = Some(Modal::Transfer { direction, name, transferred, total });
                    },
                    other => {
                        self.modal = other;
                    },
                }
            },
            SftpEvent::TransferDone { direction, name, bytes } => {
                self.modal = None;
                let mut m = chars_of(direction.verb());
                m.push(' ');
                let n = chars_of(name.as_str());
                append_chars(&mut m, &n);
                let open = chars_of(" (");
                append_chars(&mut m, &open);
                let size = human_size(bytes);
                let sc = chars_of(size.as_str());
                append_chars(&mut m, &sc);
                let close = chars_of(")");
                append_chars(&mut m, &close);
                assert(m@ =~= verb_text(direction) + seq![' '] + name@ + " ("@ + human_size_text(bytes as nat) + ")"@);
                self.set_status(string_of(&m));
                match direction {
                    Direction::Upload => self.refresh_remote(&mut cmds),
                    Direction::Download => self.refresh_local(&mut cmds),
                }
            },
            SftpEvent::TransferFailed { error, cancelled } => {
                self.modal = None;
                if cancelled {
                    self.set_status("transfer cancelled".to_owned());
                } else {
                    let m = concat_msg("transfer failed: ", error.as_str());
                    self.set_status(m);
                }
            },
            SftpEvent::OpFinished(result) => {
                match result {
                    Ok(msg) => {
                        self.set_status(msg);
                        self.refresh_remote(&mut cmds);
                    },
                    Err(err) => {
                        self.set_status(err);
                    },
                }
            },
            SftpEvent::PreviewReady(path) => {
                self.modal = None;
                push_cmd(&mut cmds, SftpCommand::QuickLook(path));
            },
            SftpEvent::Fatal(msg) => {
                self.modal = Some(Modal::Fatal(msg));
            },
        }
        assert(cmds_view(cmds@) =~= sftp_event(old(self)@, ev).1);
        cmds
    }

    /// A local rename finished (see `SftpCommand::RenameLocal`).
    pub fn local_rename_done(&mut self, new_name: String, outcome: RenameOutcome) -> (cmds: Vec<SftpCommand>)
        requires
            old(self).wf(),
        ensures
            final(self).wf(),
            (final(self)@, cmds_view(cmds@)) == local_rename_done(old(self)@, new_name@, rename_outcome_view(outcome)),
    {
        let mut cmds: Vec<SftpCommand> = Vec::new();
        match outcome {
            RenameOutcome::AlreadyExists => {
                let m = concat_msg(new_name.as_str(), " already exists");
                self.set_status(m);
            },
            RenameOutcome::Renamed => {
                let m = concat_msg("Renamed to ", new_name.as_str());
                self.set_status(m);
                self.refresh_local(&mut cmds);
            },
            RenameOutcome::Failed(e) => {
                let m = concat_msg("rename failed: ", e.as_str());
                self.set_status(m);
            },
        }
        assert(cmds_view(cmds@) =~= local_rename_done(old(self)@, new_name@, rename_outcome_view(outcome)).1);
        cmds
    }

    /// A local delete finished (see `SftpCommand::DeleteLocal`).
    pub fn local_delete_done(&mut self, name: String, result: Result<(), String>) -> (cmds: Vec<SftpCommand>)
        requires
            old(self).wf(),
        ensures
            final(self).wf(),
            (final(self)@, cmds_view(cmds@)) == local_delete_done(old(self)@, name@, unit_result_view(result)),
    {
        let mut cmds: Vec<SftpCommand> = Vec::new();
        match result {
            Ok(()) => {
                let m = concat_msg("Deleted ", name.as_str());
                self.set_status(m);
                self.refresh_local(&mut cmds);
            },
            Err(e) => {
                let m = concat_msg("delete failed: ", e.as_str());
                self.set_status(m);
            },
        }
        assert(cmds_view(cmds@) =~= local_delete_done(old(self)@, name@, unit_result_view(result)).1);
        cmds
    }

    /// The clipboard copy finished (see `SftpCommand::CopyToClipboard`).
    pub fn clipboard_done(&mut self, path: String, result: Result<(), String>)
        requires
            old(self).wf(),
        ensures
            final(self).wf(),
            final(self)@ == clipboard_done(old(self)@, path@, unit_result_view(result)).0,
    {
        match result {
            Ok(()) => {
                let m = concat_msg("copied ", path.as_str());
                self.set_status(m);
            },
            Err(e) => {
                let m = concat_msg("copy failed: ", e.as_str());
                self.set_status(m);
            },
        }
    }

    /// The Quick Look viewer was started, or could not be (see `SftpCommand::QuickLook`).
    pub fn quick_look_done(&mut self, path: String, result: Result<(), String>)
        requires
            old(self).wf(),
        ensures
            final(self).wf(),
            final(self)@ == quick_look_done(old(self)@, path@, unit_result_view(result)).0,
    {
        match result {
            Ok(()) => {
                let name = match path_file_name(path.as_str()) {
                    Some(n) => n,
                    None => String::new(),
                };
                let m = concat_msg("previewing ", name.as_str());
                self.set_status(m);
            },
            Err(e) => {
                let m = concat_msg("preview failed: ", e.as_str());
                self.set_status(m);
            },
        }
    }

    /// The directory for remote previews was made, or could not be (see
    /// `SftpCommand::PreparePreview`).
    pub fn preview_dir_done(&mut self, remote: String, name: String, size: u64, result: Result<String, String>) -> (cmds: Vec<SftpCommand>)
        requires
            old(self).wf(),
        ensures
            final(self).wf(),
            (final(self)@, cmds_view(cmds@)) == preview_dir_done(old(self)@, remote@, name@, size, text_result_view(result)),
    {
        let mut cmds: Vec<SftpCommand> = Vec::new();
        match result {
            Ok(dir) => {
                let local = join_str(dir.as_str(), name.as_str());
                push_cmd(&mut cmds, SftpCommand::SetCancel(false));
                let label = concat_msg(name.as_str(), " (preview)");
                self.modal = Some(Modal::Transfer { direction: Direction::Download, name: label, transferred: 0, total: size });
                push_cmd(&mut cmds, SftpCommand::Send(SftpRequest::Preview { remote, local }));
            },
            Err(e) => {
                let m = concat_msg("preview failed: ", e.as_str());
                self.set_status(m);
            },
        }
        assert(cmds_view(cmds@) =~= preview_dir_done(old(self)@, remote@, name@, size, text_result_view(result)).1);
        cmds
    }
}

} // verus!
