//! Contextual help overlay, opened with `?` from any screen.
//! The section for the current screen always comes first.

use vstd::prelude::*;

verus! {

pub struct HelpSection {
    pub title: String,
    pub entries: Vec<(String, String)>,
}

pub struct HelpOverlay {
    pub title: String,
    pub sections: Vec<HelpSection>,
}

pub struct HelpSectionView {
    pub title: Seq<char>,
    pub entries: Seq<(Seq<char>, Seq<char>)>,
}

pub struct HelpOverlayView {
    pub title: Seq<char>,
    pub sections: Seq<HelpSectionView>,
}

impl View for HelpSection {
    type V = HelpSectionView;

    open spec fn view(&self) -> HelpSectionView {
        HelpSectionView {
            title: self.title@,
            entries: self.entries@.map_values(|e: (String, String)| (e.0@, e.1@)),
        }
    }
}

impl View for HelpOverlay {
    type V = HelpOverlayView;

    open spec fn view(&self) -> HelpOverlayView {
        HelpOverlayView {
            title: self.title@,
            sections: self.sections@.map_values(|s: HelpSection| s@),
        }
    }
}

fn section(title: &str, pairs: &[(&str, &str)]) -> (r: HelpSection)
    ensures
        r@.title == title@,
        r@.entries == pairs@.map_values(|p: (&str, &str)| (p.0@, p.1@)),
{
    let mut entries: Vec<(String, String)> = Vec::new();
    let mut i: usize = 0;
    while i < pairs.len()
        invariant
            i <= pairs@.len(),
            entries@.map_values(|e: (String, String)| (e.0@, e.1@)) == pairs@.subrange(0, i as int).map_values(|p: (&str, &str)| (p.0@, p.1@)),
        decreases pairs@.len() - i,
    {
        let p = pairs[i];
        assert(p == pairs@[i as int]);
        let e = (p.0.to_owned(), p.1.to_owned());
        let ghost pv = (p.0@, p.1@);
        assert((e.0@, e.1@) == pv);
        let ghost before = entries@.map_values(|e: (String, String)| (e.0@, e.1@));
        let ghost pre = pairs@.subrange(0, i as int).map_values(|p: (&str, &str)| (p.0@, p.1@));
        entries.push(e);
        assert(entries@.map_values(|e: (String, String)| (e.0@, e.1@)) =~= before.push(pv));
        assert(pairs@.subrange(0, i + 1).map_values(|p: (&str, &str)| (p.0@, p.1@)) =~= pre.push(pv));
        i += 1;
        assert(entries@.map_values(|e: (String, String)| (e.0@, e.1@)) =~= pairs@.subrange(0, i as int).map_values(|p: (&str, &str)| (p.0@, p.1@)));
    }
    assert(pairs@.subrange(0, pairs@.len() as int) =~= pairs@);
    HelpSection { title: title.to_owned(), entries }
}

pub open spec fn global_section() -> HelpSectionView {
    HelpSectionView {
        title: "Global"@,
        entries: seq![("?"@, "toggle this help"@), ("Ctrl-c"@, "quit the application"@), ("Esc"@, "clear filter / go back / quit"@)],
    }
}

fn global() -> (r: HelpSection)
    ensures
        r@ == global_section(),
{
    let pairs: [(&str, &str); 3] = [("?", "toggle this help"), ("Ctrl-c", "quit the application"), ("Esc", "clear filter / go back / quit")];
    let r = section("Global", &pairs);
    assert(r@.entries =~= global_section().entries);
    r
}

/// The help for the list screen: its own section first, then Global.
pub open spec fn help_list() -> HelpOverlayView {
    HelpOverlayView {
        title: " Help — Connections "@,
        sections: seq![
            HelpSectionView {
                title: "Connections"@,
                entries: seq![("/"@, "fuzzy-search (Enter connects, Esc leaves)"@), ("Enter"@, "connect (ssh) to selection"@), ("s"@, "open SFTP browser for selection"@), ("j/k  ↑/↓"@, "move selection"@), ("g / G"@, "first / last"@), ("a"@, "add new connection"@), ("e"@, "edit selection"@), ("y"@, "duplicate selection"@), ("f"@, "toggle favorite ★"@), ("d"@, "delete selection (asks y/n)"@), ("q"@, "quit"@)],
            },
            global_section(),
        ],
    }
}

pub fn for_list() -> (r: HelpOverlay)
    ensures
        r@ == help_list(),
{
    let pairs: [(&str, &str); 11] = [("/", "fuzzy-search (Enter connects, Esc leaves)"), ("Enter", "connect (ssh) to selection"), ("s", "open SFTP browser for selection"), ("j/k  ↑/↓", "move selection"), ("g / G", "first / last"), ("a", "add new connection"), ("e", "edit selection"), ("y", "duplicate selection"), ("f", "toggle favorite ★"), ("d", "delete selection (asks y/n)"), ("q", "quit")];
    let own = section("Connections", &pairs);
    assert(own@.entries =~= help_list().sections[0].entries);
    let mut sections: Vec<HelpSection> = Vec::new();
    sections.push(own);
    sections.push(global());
    let r = HelpOverlay { title: " Help — Connections ".to_owned(), sections };
    assert(r@.sections =~= help_list().sections);
    r
}

/// The help for the form screen: its own section first, then Global.
pub open spec fn help_form() -> HelpOverlayView {
    HelpOverlayView {
        title: " Help — Edit connection "@,
        sections: seq![
            HelpSectionView {
                title: "Form"@,
                entries: seq![("Tab / ↓"@, "next field"@), ("Shift-Tab / ↑"@, "previous field"@), ("Ctrl-o"@, "browse for key file (on Key field)"@), ("Space"@, "toggle favorite (on Favorite field)"@), ("Enter"@, "save connection"@), ("Esc"@, "cancel without saving"@)],
            },
            global_section(),
        ],
    }
}

pub fn for_form() -> (r: HelpOverlay)
    ensures
        r@ == help_form(),
{
    let pairs: [(&str, &str); 6] = [("Tab / ↓", "next field"), ("Shift-Tab / ↑", "previous field"), ("Ctrl-o", "browse for key file (on Key field)"), ("Space", "toggle favorite (on Favorite field)"), ("Enter", "save connection"), ("Esc", "cancel without saving")];
    let own = section("Form", &pairs);
    assert(own@.entries =~= help_form().sections[0].entries);
    let mut sections: Vec<HelpSection> = Vec::new();
    sections.push(own);
    sections.push(global());
    let r = HelpOverlay { title: " Help — Edit connection ".to_owned(), sections };
    assert(r@.sections =~= help_form().sections);
    r
}

/// The help for the picker screen: its own section first, then Global.
pub open spec fn help_picker() -> HelpOverlayView {
    HelpOverlayView {
        title: " Help — Key file picker "@,
        sections: seq![
            HelpSectionView {
                title: "File picker"@,
                entries: seq![("/"@, "filter entries in this directory"@), ("Enter / l"@, "enter directory or pick file"@), ("h / Backspace"@, "parent directory"@), ("j/k  ↑/↓"@, "move selection"@), ("."@, "show/hide hidden files"@), ("Esc / q"@, "cancel back to form"@)],
            },
            global_section(),
        ],
    }
}

pub fn for_picker() -> (r: HelpOverlay)
    ensures
        r@ == help_picker(),
{
    let pairs: [(&str, &str); 6] = [("/", "filter entries in this directory"), ("Enter / l", "enter directory or pick file"), ("h / Backspace", "parent directory"), ("j/k  ↑/↓", "move selection"), (".", "show/hide hidden files"), ("Esc / q", "cancel back to form")];
    let own = section("File picker", &pairs);
    assert(own@.entries =~= help_picker().sections[0].entries);
    let mut sections: Vec<HelpSection> = Vec::new();
    sections.push(own);
    sections.push(global());
    let r = HelpOverlay { title: " Help — Key file picker ".to_owned(), sections };
    assert(r@.sections =~= help_picker().sections);
    r
}

/// The help for the sftp screen: its own section first, then Global.
pub open spec fn help_sftp() -> HelpOverlayView {
    HelpOverlayView {
        title: " Help — SFTP "@,
        sections: seq![
            HelpSectionView {
                title: "SFTP"@,
                entries: seq![("Tab"@, "switch local ⇄ remote pane"@), ("Enter (on file)"@, "transfer to the other pane"@), ("Enter / l (on dir)"@, "enter directory"@), ("h / Backspace"@, "parent directory"@), ("/"@, "filter files in active pane"@), ("Space"@, "preview text/images in a modal"@), ("y"@, "copy path to clipboard"@), ("R"@, "rename selection"@), ("D"@, "delete selection (asks y/n)"@), ("j/k ↑/↓ PgUp/PgDn g/G"@, "move selection"@), ("."@, "show/hide hidden files"@), ("r"@, "refresh both panes"@), ("Esc"@, "cancel transfer / clear filter / leave"@), ("q"@, "leave SFTP"@), ("y / n"@, "answer overwrite & host-key prompts"@)],
            },
            global_section(),
        ],
    }
}

pub fn for_sftp() -> (r: HelpOverlay)
    ensures
        r@ == help_sftp(),
{
    let pairs: [(&str, &str); 15] = [("Tab", "switch local ⇄ remote pane"), ("Enter (on file)", "transfer to the other pane"), ("Enter / l (on dir)", "enter directory"), ("h / Backspace", "parent directory"), ("/", "filter files in active pane"), ("Space", "preview text/images in a modal"), ("y", "copy path to clipboard"), ("R", "rename selection"), ("D", "delete selection (asks y/n)"), ("j/k ↑/↓ PgUp/PgDn g/G", "move selection"), (".", "show/hide hidden files"), ("r", "refresh both panes"), ("Esc", "cancel transfer / clear filter / leave"), ("q", "leave SFTP"), ("y / n", "answer overwrite & host-key prompts")];
    let own = section("SFTP", &pairs);
    assert(own@.entries =~= help_sftp().sections[0].entries);
    let mut sections: Vec<HelpSection> = Vec::new();
    sections.push(own);
    sections.push(global());
    let r = HelpOverlay { title: " Help — SFTP ".to_owned(), sections };
    assert(r@.sections =~= help_sftp().sections);
    r
}

/// Every screen's help lists that screen's own bindings first and the
/// global ones last.
pub proof fn lemma_help_screen_first()
    ensures
        help_list().sections.len() == 2 && help_list().sections[0].title == "Connections"@
            && help_list().sections[1] == global_section(),
        help_form().sections.len() == 2 && help_form().sections[0].title == "Form"@
            && help_form().sections[1] == global_section(),
        help_picker().sections.len() == 2 && help_picker().sections[0].title == "File picker"@
            && help_picker().sections[1] == global_section(),
        help_sftp().sections.len() == 2 && help_sftp().sections[0].title == "SFTP"@
            && help_sftp().sections[1] == global_section(),
{
}

/// A screen rectangle: position and size in cells.
#[derive(PartialEq, Eq, Structural, Clone, Copy)]
pub struct Rect {
    pub x: u16,
    pub y: u16,
    pub width: u16,
    pub height: u16,
}

/// A `width` x `height` box centered in `area`, shrunk to fit it.
pub open spec fn centered(width: u16, height: u16, area: Rect) -> Rect {
    let w = if width < area.width { width } else { area.width };
    let h = if height < area.height { height } else { area.height };
    Rect {
        x: (area.x + (area.width - w) / 2) as u16,
        y: (area.y + (area.height - h) / 2) as u16,
        width: w,
        height: h,
    }
}

/// Whether the centered box's corner fits in a `u16` (it always does for a
/// box inside the screen).
pub open spec fn centered_fits(width: u16, height: u16, area: Rect) -> bool {
    let c = centered_unclamped(width, height, area);
    c.0 <= u16::MAX && c.1 <= u16::MAX
}

pub open spec fn centered_unclamped(width: u16, height: u16, area: Rect) -> (int, int) {
    let w = if width < area.width { width } else { area.width };
    let h = if height < area.height { height } else { area.height };
    (area.x + (area.width - w) / 2, area.y + (area.height - h) / 2)
}

pub fn centered_rect(width: u16, height: u16, area: Rect) -> (r: Rect)
    requires
        centered_fits(width, height, area),
    ensures
        r == centered(width, height, area),
{
    let width = if width < area.width {
        width
    } else {
        area.width
    };
    let height = if height < area.height {
        height
    } else {
        area.height
    };
    Rect {
        x: area.x + (area.width - width) / 2,
        y: area.y + (area.height - height) / 2,
        width,
        height,
    }
}

} // verus!
