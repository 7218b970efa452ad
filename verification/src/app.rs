use vstd::prelude::*;

use crate::form::{add_form, duplicate_form, edit_form, form_key, with_field, FormScreen, FormView};
use crate::help::{for_form, for_list, for_picker, for_sftp, help_form, help_list, help_picker, help_sftp, HelpOverlay, HelpOverlayView};
use crate::keys::{KeyCode, KeyEvent};
use crate::list::{conns_view, list_key_ok, refiltered, ListModal, ListModalView, ListScreen, ListView};
use crate::model::{Connection, ConnectionView, opt_view};
use crate::pane::FsEntry;
use crate::picker::{listing_view, load_view, picker_after_load, picker_key, picker_loaded, picker_start, LoadDir, LoadDirView, PickerScreen, PickerView};
use crate::sftp::{cmds_view, sftp_event, sftp_key, CommandView, EventView, ModalView, SftpCommand, SftpScreen, SftpView};
use crate::store::{Store, StoreView};
use crate::text::{append_chars, chars_of, decimal, decimal_chars, string_of};
use crate::worker::SftpEvent;

verus! {

/// The screen in front.
#[derive(PartialEq, Eq, Structural, Clone, Copy)]
pub enum Screen {
    List,
    Form,
    Picker,
    Sftp,
}

/// What a screen asks the application to do after a key.
pub enum Action {
    Nothing,
    Quit,
    /// `None` = add, `Some(idx)` = edit connection at store index.
    OpenForm(Option<usize>),
    /// Open the form pre-filled as a copy of the connection at store index.
    Duplicate(usize),
    SubmitForm(Option<usize>, Connection),
    CancelForm,
    /// Open the key-file picker; it starts in this directory when it is one.
    OpenPicker(Option<String>),
    PickFile(Option<String>),
    Connect(usize),
    OpenSftp(usize),
    Delete(usize),
    ToggleFavorite(usize),
    ImportAccept,
    ImportDecline,
}

pub enum ActionView {
    Nothing,
    Quit,
    OpenForm(Option<usize>),
    Duplicate(usize),
    SubmitForm(Option<usize>, ConnectionView),
    CancelForm,
    OpenPicker(Option<Seq<char>>),
    PickFile(Option<Seq<char>>),
    Connect(usize),
    OpenSftp(usize),
    Delete(usize),
    ToggleFavorite(usize),
    ImportAccept,
    ImportDecline,
}

impl View for Action {
    type V = ActionView;

    open spec fn view(&self) -> ActionView {
        match self {
            Action::Nothing => ActionView::Nothing,
            Action::Quit => ActionView::Quit,
            Action::OpenForm(i) => ActionView::OpenForm(*i),
            Action::Duplicate(i) => ActionView::Duplicate(*i),
            Action::SubmitForm(i, c) => ActionView::SubmitForm(*i, c@),
            Action::CancelForm => ActionView::CancelForm,
            Action::OpenPicker(p) => ActionView::OpenPicker(opt_view(*p)),
            Action::PickFile(p) => ActionView::PickFile(opt_view(*p)),
            Action::Connect(i) => ActionView::Connect(*i),
            Action::OpenSftp(i) => ActionView::OpenSftp(*i),
            Action::Delete(i) => ActionView::Delete(*i),
            Action::ToggleFavorite(i) => ActionView::ToggleFavorite(*i),
            Action::ImportAccept => ActionView::ImportAccept,
            Action::ImportDecline => ActionView::ImportDecline,
        }
    }
}


// ------------------------------------------------------------------ effects

/// Work the application does outside the library, in the order listed.
pub enum Effect {
    /// Write the store to its file; a failure ends the program.
    Save,
    /// Run interactive ssh to the store entry, then report with `connect_finished`.
    RunSsh(usize),
    /// Open the key picker in `start` when it is a directory, else in the
    /// home directory, then report with `picker_opened`.
    OpenPicker(Option<String>),
    /// List a directory for the picker, then report with `picker_listed`.
    ListPickerDir(LoadDir),
    /// Connect an SFTP browser to the store entry, then report with `sftp_opened`.
    StartSftp(usize),
    /// Carry out what the SFTP browser asked.
    Sftp(SftpCommand),
    /// The SFTP browser closed: stop its worker.
    StopSftp,
}

pub enum EffectView {
    Save,
    RunSsh(usize),
    OpenPicker(Option<Seq<char>>),
    ListPickerDir(LoadDirView),
    StartSftp(usize),
    Sftp(CommandView),
    StopSftp,
}

impl View for Effect {
    type V = EffectView;

    open spec fn view(&self) -> EffectView {
        match self {
            Effect::Save => EffectView::Save,
            Effect::RunSsh(i) => EffectView::RunSsh(*i),
            Effect::OpenPicker(p) => EffectView::OpenPicker(opt_view(*p)),
            Effect::ListPickerDir(l) => EffectView::ListPickerDir(l@),
            Effect::StartSftp(i) => EffectView::StartSftp(*i),
            Effect::Sftp(c) => EffectView::Sftp(c@),
            Effect::StopSftp => EffectView::StopSftp,
        }
    }
}

pub open spec fn effects_view(fx: Seq<Effect>) -> Seq<EffectView> {
    fx.map_values(|e: Effect| e@)
}

pub open spec fn sftp_fx(cmds: Seq<CommandView>) -> Seq<EffectView> {
    cmds.map_values(|c: CommandView| EffectView::Sftp(c))
}

// ------------------------------------------------------------------ the application

pub struct App {
    pub store: Store,
    pub screen: Screen,
    pub list: ListScreen,
    pub form: Option<FormScreen>,
    pub picker: Option<PickerScreen>,
    pub sftp: Option<SftpScreen>,
    pub help: Option<HelpOverlay>,
    pub should_quit: bool,
}

pub struct AppView {
    pub store_path: Seq<char>,
    pub connections: Seq<ConnectionView>,
    pub screen: Screen,
    pub list: ListView,
    pub form: Option<FormView>,
    pub picker: Option<PickerView>,
    pub sftp: Option<SftpView>,
    pub help: Option<HelpOverlayView>,
    pub should_quit: bool,
}

pub open spec fn form_opt(f: Option<FormScreen>) -> Option<FormView> {
    match f {
        Some(x) => Some(x@),
        None => None,
    }
}

pub open spec fn picker_opt(p: Option<PickerScreen>) -> Option<PickerView> {
    match p {
        Some(x) => Some(x@),
        None => None,
    }
}

pub open spec fn sftp_opt(s: Option<SftpScreen>) -> Option<SftpView> {
    match s {
        Some(x) => Some(x@),
        None => None,
    }
}

pub open spec fn help_opt(h: Option<HelpOverlay>) -> Option<HelpOverlayView> {
    match h {
        Some(x) => Some(x@),
        None => None,
    }
}

impl View for App {
    type V = AppView;

    open spec fn view(&self) -> AppView {
        AppView {
            store_path: self.store@.path,
            connections: self.store@.connections,
            screen: self.screen,
            list: self.list@,
            form: form_opt(self.form),
            picker: picker_opt(self.picker),
            sftp: sftp_opt(self.sftp),
            help: help_opt(self.help),
            should_quit: self.should_quit,
        }
    }
}

// ------------------------------------------------------------------ the spec

pub open spec fn deleted_message(name: Seq<char>) -> Seq<char> {
    "Deleted \""@ + name + "\""@
}

pub open spec fn imported_message(count: nat) -> Seq<char> {
    "Imported "@ + decimal(count) + " connection(s)"@
}

/// The connections after the form is saved: the edited entry replaced, or
/// the new one appended.
pub open spec fn submitted(cs: Seq<ConnectionView>, editing: Option<usize>, c: ConnectionView) -> Seq<ConnectionView> {
    match editing {
        Some(i) => if i < cs.len() {
            cs.update(i as int, c)
        } else {
            cs.push(c)
        },
        None => cs.push(c),
    }
}

pub open spec fn toggled(c: ConnectionView) -> ConnectionView {
    ConnectionView { favorite: !c.favorite, ..c }
}

pub open spec fn picked(f: Option<FormView>, path: Option<Seq<char>>) -> Option<FormView> {
    match (f, path) {
        (Some(f), Some(p)) => Some(with_field(f, 4, p)),
        _ => f,
    }
}

/// The state after an action: `n` is what `s` becomes.
pub open spec fn apply_ok(s: AppView, a: ActionView, n: AppView) -> bool {
    let cs = s.connections;
    match a {
        ActionView::Nothing => n == s,
        ActionView::Quit => n == AppView { should_quit: true, ..s },
        ActionView::OpenForm(None) => (n.form matches Some(f) && add_form(f)) && n == AppView { form: n.form, screen: Screen::Form, ..s },
        ActionView::OpenForm(Some(i)) => if i < cs.len() {
            (n.form matches Some(f) && edit_form(f, i, cs[i as int])) && n == AppView { form: n.form, screen: Screen::Form, ..s }
        } else {
            n == s
        },
        ActionView::Duplicate(i) => if i < cs.len() {
            (n.form matches Some(f) && duplicate_form(f, cs[i as int], cs)) && n == AppView { form: n.form, screen: Screen::Form, ..s }
        } else {
            n == s
        },
        ActionView::SubmitForm(editing, c) => {
            let cs2 = submitted(cs, editing, c);
            refiltered(s.list, cs2, n.list) && n == AppView { connections: cs2, form: None, screen: Screen::List, list: n.list, ..s }
        },
        ActionView::CancelForm => n == AppView { form: None, screen: Screen::List, ..s },
        ActionView::OpenPicker(_) => n == s,
        ActionView::PickFile(p) => n == AppView { form: picked(s.form, p), picker: None, screen: Screen::Form, ..s },
        ActionView::Connect(_) => n == s,
        ActionView::OpenSftp(_) => n == s,
        ActionView::Delete(i) => if i < cs.len() {
            let cs2 = cs.remove(i as int);
            &&& refiltered(s.list, cs2, ListView { status: s.list.status, ..n.list })
            &&& n.list.status == Some(deleted_message(cs[i as int].name))
            &&& n == AppView { connections: cs2, list: n.list, ..s }
        } else {
            n == s
        },
        ActionView::ToggleFavorite(i) => if i < cs.len() {
            let cs2 = cs.update(i as int, toggled(cs[i as int]));
            refiltered(s.list, cs2, n.list) && n == AppView { connections: cs2, list: n.list, ..s }
        } else {
            n == s
        },
        ActionView::ImportAccept => {
            let l0 = ListView { modal: None, ..s.list };
            match s.list.modal {
                Some(ListModalView::ImportPrompt(imp)) => {
                    let cs2 = cs + imp;
                    &&& refiltered(l0, cs2, ListView { status: l0.status, ..n.list })
                    &&& n.list.status == Some(imported_message(imp.len()))
                    &&& n == AppView { connections: cs2, list: n.list, ..s }
                },
                _ => n == AppView { list: l0, ..s },
            }
        },
        ActionView::ImportDecline => n == s,
    }
}

/// What an action asks of the application.
pub open spec fn apply_effects(s: AppView, a: ActionView) -> Seq<EffectView> {
    let cs = s.connections;
    match a {
        ActionView::SubmitForm(_, _) => seq![EffectView::Save],
        ActionView::OpenPicker(start) => seq![EffectView::OpenPicker(start)],
        ActionView::Connect(i) => if i < cs.len() {
            seq![EffectView::RunSsh(i)]
        } else {
            Seq::empty()
        },
        ActionView::OpenSftp(i) => if i < cs.len() {
            seq![EffectView::StartSftp(i)]
        } else {
            Seq::empty()
        },
        ActionView::Delete(i) => if i < cs.len() {
            seq![EffectView::Save]
        } else {
            Seq::empty()
        },
        ActionView::ToggleFavorite(i) => if i < cs.len() {
            seq![EffectView::Save]
        } else {
            Seq::empty()
        },
        ActionView::ImportAccept => match s.list.modal {
            Some(ListModalView::ImportPrompt(_)) => seq![EffectView::Save],
            _ => Seq::empty(),
        },
        ActionView::ImportDecline => seq![EffectView::Save],
        _ => Seq::empty(),
    }
}

/// Every change an action makes to the connections asks for a save.
pub proof fn lemma_changes_are_saved(s: AppView, a: ActionView, n: AppView)
    requires
        apply_ok(s, a, n),
        n.connections != s.connections,
    ensures
        apply_effects(s, a) == seq![EffectView::Save],
{
}

impl App {
    pub open spec fn wf(&self) -> bool {
        &&& (self.form matches Some(f) ==> f.wf())
        &&& (self.picker matches Some(p) ==> p.wf())
        &&& (self.sftp matches Some(v) ==> v.wf())
    }

    fn message(prefix: &str, body: &Vec<char>, suffix: &str) -> (r: String)
        ensures
            r@ == prefix@ + body@ + suffix@,
    {
        let mut m = chars_of(prefix);
        append_chars(&mut m, body);
        let t = chars_of(suffix);
        append_chars(&mut m, &t);
        string_of(&m)
    }

    fn prefixed(prefix: &str, body: &str) -> (r: String)
        ensures
            r@ == prefix@ + body@,
    {
        let mut m = chars_of(prefix);
        let b = chars_of(body);
        append_chars(&mut m, &b);
        string_of(&m)
    }

    /// Carry out an action from a screen.
    pub fn apply(&mut self, action: Action) -> (fx: Vec<Effect>)
        requires
            old(self).wf(),
        ensures
            final(self).wf(),
            apply_ok(old(self)@, action@, final(self)@),
            effects_view(fx@) == apply_effects(old(self)@, action@),
    {
        let ghost s = self@;
        let ghost a = action@;
        let mut fx: Vec<Effect> = Vec::new();
        match action {
            Action::Nothing => {},
            Action::Quit => {
                self.should_quit = true;
            },
            Action::OpenForm(None) => {
                self.form = Some(FormScreen::new_add());
                self.screen = Screen::Form;
            },
            Action::OpenForm(Some(idx)) => {
                if idx < self.store.connections.len() {
                    self.form = Some(FormScreen::new_edit(idx, &self.store.connections[idx]));
                    self.screen = Screen::Form;
                }
            },
            Action::Duplicate(idx) => {
                if idx < self.store.connections.len() {
                    self.form = Some(FormScreen::new_duplicate(&self.store.connections[idx], self.store.connections.as_slice()));
                    self.screen = Screen::Form;
                }
            },
            Action::SubmitForm(editing, conn) => {
                let ghost c = conn@;
                match editing {
                    Some(idx) => {
                        if idx < self.store.connections.len() {
                            self.store.connections.set(idx, conn);
                        } else {
                            self.store.connections.push(conn);
                        }
                    },
                    None => {
                        self.store.connections.push(conn);
                    },
                }
                assert(self@.connections =~= submitted(s.connections, editing, c));
                fx.push(Effect::Save);
                self.form = None;
                self.screen = Screen::List;
                self.list.refilter(self.store.connections.as_slice());
            },
            Action::CancelForm => {
                self.form = None;
                self.screen = Screen::List;
            },
            Action::OpenPicker(start) => {
                fx.push(Effect::OpenPicker(start));
            },
            Action::PickFile(path) => {
                match (&mut self.form, path) {
                    (Some(form), Some(p)) => {
                        form.set_key_path(p);
                    },
                    _ => {},
                }
                self.picker = None;
                self.screen = Screen::Form;
            },
            Action::Connect(idx) => {
                if idx < self.store.connections.len() {
                    fx.push(Effect::RunSsh(idx));
                }
            },
            Action::OpenSftp(idx) => {
                if idx < self.store.connections.len() {
                    fx.push(Effect::StartSftp(idx));
                }
            },
            Action::Delete(idx) => {
                if idx < self.store.connections.len() {
                    let removed = self.store.connections.remove(idx);
                    assert(self@.connections =~= s.connections.remove(idx as int));
                    fx.push(Effect::Save);
                    self.list.refilter(self.store.connections.as_slice());
                    let name = chars_of(removed.name.as_str());
                    self.list.status = Some(Self::message("Deleted \"", &name, "\""));
                }
            },
            Action::ToggleFavorite(idx) => {
                if idx < self.store.connections.len() {
                    let mut c = self.store.connections.remove(idx);
                    c.favorite = !c.favorite;
                    self.store.connections.insert(idx, c);
                    assert(self@.connections =~= s.connections.update(idx as int, toggled(s.connections[idx as int])));
                    fx.push(Effect::Save);
                    self.list.refilter(self.store.connections.as_slice());
                }
            },
            Action::ImportAccept => {
                let m = self.list.modal.take();
                match m {
                    Some(ListModal::ImportPrompt(conns)) => {
                        let mut conns = conns;
                        let count = conns.len();
                        self.store.connections.append(&mut conns);
                        assert(self@.connections =~= s.connections + conns_view(old(self).list.modal->Some_0->ImportPrompt_0@));
                        fx.push(Effect::Save);
                        self.list.refilter(self.store.connections.as_slice());
                        let digits = decimal_chars(count as u128);
                        self.list.status = Some(Self::message("Imported ", &digits, " connection(s)"));
                    },
                    _ => {},
                }
            },
            Action::ImportDecline => {
                fx.push(Effect::Save);
            },
        }
        assert(effects_view(fx@) =~= apply_effects(s, a));
        fx
    }
}


// ------------------------------------------------------------------ keys

pub open spec fn help_for(screen: Screen) -> HelpOverlayView {
    match screen {
        Screen::List => help_list(),
        Screen::Form => help_form(),
        Screen::Picker => help_picker(),
        Screen::Sftp => help_sftp(),
    }
}

/// `?` opens contextual help everywhere except where it is typed as text:
/// list search, picker filter, and the SFTP filter, passphrase and rename
/// prompts.
pub open spec fn app_help_allowed(s: AppView) -> bool {
    match s.screen {
        Screen::List => !s.list.searching,
        Screen::Form => true,
        Screen::Picker => match s.picker {
            Some(p) => !p.filtering,
            None => true,
        },
        Screen::Sftp => match s.sftp {
            Some(v) => !v.filtering && !(v.modal matches Some(ModalView::Passphrase { .. })) && !(v.modal matches Some(
                ModalView::Rename { .. },
            )),
            None => true,
        },
    }
}

/// The SFTP browser after it handled something; it closes when it asks to.
pub open spec fn after_sftp(s: AppView, out: (SftpView, Seq<CommandView>)) -> (AppView, Seq<EffectView>) {
    if out.0.exit {
        (AppView { sftp: None, screen: Screen::List, ..s }, sftp_fx(out.1).push(EffectView::StopSftp))
    } else {
        (AppView { sftp: Some(out.0), ..s }, sftp_fx(out.1))
    }
}

pub open spec fn load_fx(l: Option<LoadDirView>) -> Seq<EffectView> {
    match l {
        Some(d) => seq![EffectView::ListPickerDir(d)],
        None => Seq::empty(),
    }
}

pub open spec fn is_char(key: KeyEvent, c: char) -> bool {
    key.code == KeyCode::Char(c)
}

/// One key press: help closes on any key; Ctrl-C quits; `?` opens help where
/// allowed; any other key goes to the screen in front, and the action it
/// returns is carried out.
pub open spec fn app_key_ok(s: AppView, key: KeyEvent, key_file_exists: bool, n: AppView, fx: Seq<EffectView>) -> bool {
    if s.help is Some {
        n == AppView { help: None, ..s } && fx.len() == 0
    } else if is_char(key, 'c') && key.ctrl {
        n == AppView { should_quit: true, ..s } && fx.len() == 0
    } else if is_char(key, '?') && app_help_allowed(s) {
        n == AppView { help: Some(help_for(s.screen)), ..s } && fx.len() == 0
    } else {
        match s.screen {
            Screen::List => exists|l: ListView, a: ActionView|
                #[trigger] list_key_ok(s.list, key, s.connections, l, a) && apply_ok(AppView { list: l, ..s }, a, n) && fx
                    == apply_effects(AppView { list: l, ..s }, a),
            Screen::Form => match s.form {
                Some(f) => {
                    let (f2, a) = form_key(f, key, s.connections, key_file_exists);
                    let m = AppView { form: Some(f2), ..s };
                    apply_ok(m, a, n) && fx == apply_effects(m, a)
                },
                None => n == s && fx.len() == 0,
            },
            Screen::Picker => match s.picker {
                Some(p) => {
                    let (p2, a, l) = picker_key(p, key);
                    let m = AppView { picker: Some(p2), ..s };
                    apply_ok(m, a, n) && fx == load_fx(l) + apply_effects(m, a)
                },
                None => n == s && fx.len() == 0,
            },
            Screen::Sftp => match s.sftp {
                Some(v) => (n, fx) == after_sftp(s, sftp_key(v, key)),
                None => n == s && fx.len() == 0,
            },
        }
    }
}

fn append_effects(fx: &mut Vec<Effect>, more: Vec<Effect>)
    ensures
        effects_view(final(fx)@) == effects_view(old(fx)@) + effects_view(more@),
{
    let ghost m = more@;
    let mut more = more;
    fx.append(&mut more);
    assert(effects_view(fx@) =~= effects_view(old(fx)@) + effects_view(m));
}

fn push_sftp_effects(fx: &mut Vec<Effect>, cmds: Vec<SftpCommand>)
    ensures
        effects_view(final(fx)@) == effects_view(old(fx)@) + sftp_fx(cmds_view(cmds@)),
{
    let ghost all = cmds@;
    let mut rest = cmds;
    let ghost mut taken: int = 0;
    while rest.len() > 0
        invariant
            0 <= taken <= all.len(),
            rest@ == all.subrange(taken, all.len() as int),
            effects_view(fx@) == effects_view(old(fx)@) + sftp_fx(cmds_view(all.subrange(0, taken))),
        decreases rest.len(),
    {
        let c = rest.remove(0);
        let ghost before = fx@;
        fx.push(Effect::Sftp(c));
        proof {
            assert(c@ == all[taken]@);
            assert(effects_view(fx@) =~= effects_view(before).push(EffectView::Sftp(c@)));
            assert(cmds_view(all.subrange(0, taken + 1)) =~= cmds_view(all.subrange(0, taken)).push(all[taken]@));
            assert(sftp_fx(cmds_view(all.subrange(0, taken + 1))) =~= sftp_fx(cmds_view(all.subrange(0, taken))).push(
                EffectView::Sftp(all[taken]@),
            ));
            assert(effects_view(fx@) =~= effects_view(old(fx)@) + sftp_fx(cmds_view(all.subrange(0, taken + 1))));
            taken = taken + 1;
            assert(rest@ =~= all.subrange(taken, all.len() as int));
        }
    }
    assert(all.subrange(0, taken) =~= all);
}

impl App {
    /// Whether `?` opens help now.
    pub fn help_allowed(&self) -> (r: bool)
        ensures
            r == app_help_allowed(self@),
    {
        match self.screen {
            Screen::List => !self.list.searching,
            Screen::Form => true,
            Screen::Picker => match &self.picker {
                Some(p) => !p.filtering,
                None => true,
            },
            Screen::Sftp => match &self.sftp {
                Some(v) => v.help_allowed(),
                None => true,
            },
        }
    }

    /// The SFTP browser goes away; its worker is stopped by the application.
    fn close_sftp(&mut self)
        ensures
            final(self)@ == (AppView { sftp: None, screen: Screen::List, ..old(self)@ }),
            final(self).wf() == old(self).wf() || final(self).wf(),
    {
        self.sftp = None;
        self.screen = Screen::List;
    }

    /// The key went to the SFTP browser.
    fn sftp_key(&mut self, key: KeyEvent) -> (fx: Vec<Effect>)
        requires
            old(self).wf(),
            old(self).sftp is Some,
        ensures
            final(self).wf(),
            (final(self)@, effects_view(fx@)) == after_sftp(old(self)@, sftp_key(old(self)@.sftp->Some_0, key)),
    {
        let mut fx: Vec<Effect> = Vec::new();
        let taken = self.sftp.take();
        match taken {
            Some(mut v) => {
                let cmds = v.on_key(key);
                push_sftp_effects(&mut fx, cmds);
                if v.exit_requested() {
                    self.close_sftp();
                    fx.push(Effect::StopSftp);
                } else {
                    self.sftp = Some(v);
                }
            },
            None => {},
        }
        fx
    }

    /// One key press (see `app_key_ok`). `key_file_exists` says whether the
    /// form's key-file field names an existing file.
    pub fn on_key(&mut self, key: KeyEvent, key_file_exists: bool) -> (fx: Vec<Effect>)
        requires
            old(self).wf(),
        ensures
            final(self).wf(),
            app_key_ok(old(self)@, key, key_file_exists, final(self)@, effects_view(fx@)),
    {
        let ghost s = self@;
        if self.help.is_some() {
            self.help = None;
            return Vec::new();
        }
        let is_c = match key.code {
            KeyCode::Char(c) => c == 'c',
            _ => false,
        };
        if is_c && key.ctrl {
            self.should_quit = true;
            return Vec::new();
        }
        let is_q = match key.code {
            KeyCode::Char(c) => c == '?',
            _ => false,
        };
        if is_q && self.help_allowed() {
            self.help = Some(
                match self.screen {
                    Screen::List => for_list(),
                    Screen::Form => for_form(),
                    Screen::Picker => for_picker(),
                    Screen::Sftp => for_sftp(),
                },
            );
            return Vec::new();
        }
        match self.screen {
            Screen::List => {
                let action = self.list.handle_key(key, self.store.connections.as_slice());
                let ghost l = self.list@;
                let ghost a = action@;
                assert(self@ == AppView { list: l, ..s });
                let fx = self.apply(action);
                assert(list_key_ok(s.list, key, s.connections, l, a) && apply_ok(AppView { list: l, ..s }, a, self@)
                    && effects_view(fx@) == apply_effects(AppView { list: l, ..s }, a));
                fx
            },
            Screen::Form => {
                let taken = self.form.take();
                match taken {
                    Some(mut form) => {
                        let action = form.handle_key(key, self.store.connections.as_slice(), key_file_exists);
                        self.form = Some(form);
                        self.apply(action)
                    },
                    None => Vec::new(),
                }
            },
            Screen::Picker => {
                let taken = self.picker.take();
                match taken {
                    Some(mut picker) => {
                        let (action, load) = picker.handle_key(key);
                        let ghost lv = load_view(load);
                        self.picker = Some(picker);
                        let mut fx: Vec<Effect> = Vec::new();
                        match load {
                            Some(l) => {
                                fx.push(Effect::ListPickerDir(l));
                            },
                            None => {},
                        }
                        assert(effects_view(fx@) =~= load_fx(lv));
                        let more = self.apply(action);
                        append_effects(&mut fx, more);
                        fx
                    },
                    None => Vec::new(),
                }
            },
            Screen::Sftp => {
                if self.sftp.is_some() {
                    self.sftp_key(key)
                } else {
                    Vec::new()
                }
            },
        }
    }
}


// ------------------------------------------------------------------ reports

/// How an interactive ssh session ended.
pub enum SshOutcome {
    /// ssh ran and exited; `status` describes the exit status.
    Exited { success: bool, status: String },
    /// ssh could not be started.
    LaunchFailed(String),
}

pub enum SshOutcomeView {
    Exited { success: bool, status: Seq<char> },
    LaunchFailed(Seq<char>),
}

impl View for SshOutcome {
    type V = SshOutcomeView;

    open spec fn view(&self) -> SshOutcomeView {
        match self {
            SshOutcome::Exited { success, status } => SshOutcomeView::Exited { success: *success, status: status@ },
            SshOutcome::LaunchFailed(e) => SshOutcomeView::LaunchFailed(e@),
        }
    }
}

pub open spec fn empty_list() -> ListView {
    ListView {
        query: Seq::empty(),
        searching: false,
        filtered: Seq::empty(),
        selected: 0,
        modal: None,
        status: None,
    }
}

pub open spec fn conns_opt(o: Option<Vec<Connection>>) -> Option<Seq<ConnectionView>> {
    match o {
        Some(cs) => Some(conns_view(cs@)),
        None => None,
    }
}

/// The application at start, on the list. On a first run (`imported` is
/// `Some`) the hosts found in the ssh config are offered for import, and
/// with none found the empty store is saved at once.
pub open spec fn app_started(st: StoreView, imported: Option<Seq<ConnectionView>>, n: AppView, fx: Seq<EffectView>) -> bool {
    let l0 = match imported {
        Some(cs) => if cs.len() > 0 {
            ListView { modal: Some(ListModalView::ImportPrompt(cs)), ..empty_list() }
        } else {
            empty_list()
        },
        None => empty_list(),
    };
    &&& refiltered(l0, st.connections, n.list)
    &&& n == AppView {
        store_path: st.path,
        connections: st.connections,
        screen: Screen::List,
        list: n.list,
        form: None,
        picker: None,
        sftp: None,
        help: None,
        should_quit: false,
    }
    &&& fx == match imported {
        Some(cs) => if cs.len() == 0 {
            seq![EffectView::Save]
        } else {
            Seq::<EffectView>::empty()
        },
        None => Seq::<EffectView>::empty(),
    }
}

/// After an ssh session: when ssh ran, the entry's last use is `now`, the
/// store is saved and the list reordered, and a failed exit is reported;
/// when it could not start, that is reported.
pub open spec fn connect_done(s: AppView, idx: usize, o: SshOutcomeView, now: u64, n: AppView, fx: Seq<EffectView>) -> bool {
    let cs = s.connections;
    match o {
        SshOutcomeView::Exited { success, status } => if idx < cs.len() {
            let cs2 = cs.update(idx as int, ConnectionView { last_used: Some(now), ..cs[idx as int] });
            &&& refiltered(s.list, cs2, ListView { status: s.list.status, ..n.list })
            &&& n.list.status == if success {
                s.list.status
            } else {
                Some("ssh exited with "@ + status)
            }
            &&& n == AppView { connections: cs2, list: n.list, ..s }
            &&& fx == seq![EffectView::Save]
        } else {
            n == s && fx.len() == 0
        },
        SshOutcomeView::LaunchFailed(e) => n == AppView {
            list: ListView { status: Some("failed to launch ssh: "@ + e), ..s.list },
            ..s
        } && fx.len() == 0,
    }
}

impl App {
    /// The application at start (see `app_started`).
    pub fn new(store: Store, imported: Option<Vec<Connection>>) -> (r: (App, Vec<Effect>))
        ensures
            r.0.wf(),
            app_started(store@, conns_opt(imported), r.0@, effects_view(r.1@)),
    {
        let ghost st = store@;
        let ghost imp = conns_opt(imported);
        let mut list = ListScreen::new();
        let mut fx: Vec<Effect> = Vec::new();
        match imported {
            Some(conns) => {
                if conns.len() == 0 {
                    fx.push(Effect::Save);
                } else {
                    list.modal = Some(ListModal::ImportPrompt(conns));
                }
            },
            None => {},
        }
        let ghost l0 = list@;
        assert(l0 == match imp {
            Some(cs) => if cs.len() > 0 {
                ListView { modal: Some(ListModalView::ImportPrompt(cs)), ..empty_list() }
            } else {
                empty_list()
            },
            None => empty_list(),
        }) by {
            assert(l0.query =~= Seq::<char>::empty());
            assert(l0.filtered =~= Seq::<usize>::empty());
        }
        list.refilter(store.connections.as_slice());
        let app = App {
            store,
            screen: Screen::List,
            list,
            form: None,
            picker: None,
            sftp: None,
            help: None,
            should_quit: false,
        };
        assert(effects_view(fx@) =~= match imp {
            Some(cs) => if cs.len() == 0 {
                seq![EffectView::Save]
            } else {
                Seq::<EffectView>::empty()
            },
            None => Seq::<EffectView>::empty(),
        });
        (app, fx)
    }

    /// An ssh session started by `Effect::RunSsh(idx)` ended (see `connect_done`).
    pub fn connect_finished(&mut self, idx: usize, outcome: SshOutcome, now: u64) -> (fx: Vec<Effect>)
        requires
            old(self).wf(),
        ensures
            final(self).wf(),
            connect_done(old(self)@, idx, outcome@, now, final(self)@, effects_view(fx@)),
    {
        let ghost s = self@;
        let mut fx: Vec<Effect> = Vec::new();
        match outcome {
            SshOutcome::Exited { success, status } => {
                if idx < self.store.connections.len() {
                    let mut c = self.store.connections.remove(idx);
                    c.last_used = Some(now);
                    self.store.connections.insert(idx, c);
                    assert(self@.connections =~= s.connections.update(
                        idx as int,
                        ConnectionView { last_used: Some(now), ..s.connections[idx as int] },
                    ));
                    fx.push(Effect::Save);
                    self.list.refilter(self.store.connections.as_slice());
                    if !success {
                        self.list.status = Some(Self::prefixed("ssh exited with ", status.as_str()));
                    }
                }
            },
            SshOutcome::LaunchFailed(e) => {
                self.list.status = Some(Self::prefixed("failed to launch ssh: ", e.as_str()));
            },
        }
        assert(effects_view(fx@) =~= if outcome@ is Exited && idx < s.connections.len() {
            seq![EffectView::Save]
        } else {
            Seq::<EffectView>::empty()
        });
        fx
    }

    /// The picker asked for by `Effect::OpenPicker` starts in `dir`.
    pub fn picker_opened(&mut self, dir: String, listing: Result<Vec<FsEntry>, String>)
        requires
            old(self).wf(),
        ensures
            final(self).wf(),
            final(self)@ == (AppView {
                picker: Some(picker_loaded(picker_start(dir@), dir@, listing_view(listing))),
                screen: Screen::Picker,
                ..old(self)@
            }),
    {
        self.picker = Some(PickerScreen::new(dir, listing));
        self.screen = Screen::Picker;
    }

    /// The listing asked for by `Effect::ListPickerDir` arrived.
    pub fn picker_listed(&mut self, req: LoadDir, listing: Result<Vec<FsEntry>, String>)
        requires
            old(self).wf(),
        ensures
            final(self).wf(),
            final(self)@ == (AppView {
                picker: match old(self)@.picker {
                    Some(p) => Some(picker_after_load(p, req@, listing_view(listing))),
                    None => None,
                },
                ..old(self)@
            }),
    {
        let taken = self.picker.take();
        match taken {
            Some(mut p) => {
                p.dir_loaded(req, listing);
                self.picker = Some(p);
            },
            None => {},
        }
    }

    /// The SFTP browser asked for by `Effect::StartSftp` is open.
    pub fn sftp_opened(&mut self, browser: SftpScreen)
        requires
            old(self).wf(),
            browser.wf(),
        ensures
            final(self).wf(),
            final(self)@ == (AppView { sftp: Some(browser@), screen: Screen::Sftp, ..old(self)@ }),
    {
        self.sftp = Some(browser);
        self.screen = Screen::Sftp;
    }

    /// An event from the SFTP worker.
    pub fn sftp_event(&mut self, event: SftpEvent) -> (fx: Vec<Effect>)
        requires
            old(self).wf(),
        ensures
            final(self).wf(),
            match old(self)@.sftp {
                Some(v) => (final(self)@, effects_view(fx@)) == after_sftp(old(self)@, sftp_event(v, event@)),
                None => final(self)@ == old(self)@ && fx@.len() == 0,
            },
    {
        let mut fx: Vec<Effect> = Vec::new();
        let taken = self.sftp.take();
        match taken {
            Some(mut v) => {
                let cmds = v.on_event(event);
                push_sftp_effects(&mut fx, cmds);
                if v.exit_requested() {
                    self.close_sftp();
                    fx.push(Effect::StopSftp);
                } else {
                    self.sftp = Some(v);
                }
            },
            None => {},
        }
        fx
    }
}


/// Nor is a key press, or the end of an ssh session, ever left unsaved:
/// whenever the connections change, the effects ask for a save.
pub proof fn lemma_key_changes_are_saved(s: AppView, key: KeyEvent, key_file_exists: bool, n: AppView, fx: Seq<EffectView>)
    requires
        app_key_ok(s, key, key_file_exists, n, fx),
        n.connections != s.connections,
    ensures
        fx.contains(EffectView::Save),
{
    if s.help is None && !(is_char(key, 'c') && key.ctrl) && !(is_char(key, '?') && app_help_allowed(s)) {
        match s.screen {
            Screen::List => {
                let (l, a) = choose|l: ListView, a: ActionView|
                    #[trigger] list_key_ok(s.list, key, s.connections, l, a) && apply_ok(AppView { list: l, ..s }, a, n) && fx
                        == apply_effects(AppView { list: l, ..s }, a);
                lemma_changes_are_saved(AppView { list: l, ..s }, a, n);
                assert(fx[0] == EffectView::Save);
            },
            Screen::Form => {
                let f = s.form->Some_0;
                let (f2, a) = form_key(f, key, s.connections, key_file_exists);
                lemma_changes_are_saved(AppView { form: Some(f2), ..s }, a, n);
                assert(fx[0] == EffectView::Save);
            },
            Screen::Picker => {
                let p = s.picker->Some_0;
                let (p2, a, l) = picker_key(p, key);
                let m = AppView { picker: Some(p2), ..s };
                lemma_changes_are_saved(m, a, n);
                assert(fx[load_fx(l).len() as int] == EffectView::Save);
            },
            Screen::Sftp => {},
        }
    }
}

/// The end of an ssh session that records the connection's last use asks
/// for a save.
pub proof fn lemma_connect_changes_are_saved(s: AppView, idx: usize, o: SshOutcomeView, now: u64, n: AppView, fx: Seq<EffectView>)
    requires
        connect_done(s, idx, o, now, n, fx),
        n.connections != s.connections,
    ensures
        fx == seq![EffectView::Save],
{
}

} // verus!
