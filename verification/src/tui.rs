//! The selector's look and its event timing: colours and styles by name,
//! badges, and when the event loop ticks. Drawing and reading the
//! terminal happen in the caller.

use vstd::prelude::*;

use crate::recommendation::FitStatus;
use crate::selector::WizardMode;
use crate::text::{decimal, push_str, u64_to_string};

verus! {

/// The terminal colours the selector uses.
#[derive(Debug, Clone, Copy, PartialEq, Eq, Structural)]
pub enum ThemeColor {
    Black,
    Cyan,
    LightCyan,
    Gray,
    White,
    Yellow,
    LightRed,
    LightGreen,
    DarkGray,
    Magenta,
    Red,
}

/// A text style: foreground, background, bold.
#[derive(Debug, Clone, Copy, PartialEq, Eq, Structural)]
pub struct StyleSpec {
    pub fg: Option<ThemeColor>,
    pub bg: Option<ThemeColor>,
    pub bold: bool,
}

pub open spec fn style(fg: Option<ThemeColor>, bg: Option<ThemeColor>, bold: bool) -> StyleSpec {
    StyleSpec { fg, bg, bold }
}

pub open spec fn background_style() -> StyleSpec {
    style(None, Some(ThemeColor::Black), false)
}

pub open spec fn header_style() -> StyleSpec {
    style(Some(ThemeColor::Cyan), None, true)
}

pub open spec fn block_title_style() -> StyleSpec {
    style(Some(ThemeColor::LightCyan), None, true)
}

pub open spec fn body_text_style() -> StyleSpec {
    style(Some(ThemeColor::Gray), None, false)
}

pub open spec fn emphasis_style() -> StyleSpec {
    style(Some(ThemeColor::White), None, true)
}

pub open spec fn selected_row_style() -> StyleSpec {
    style(Some(ThemeColor::Black), Some(ThemeColor::LightCyan), true)
}

pub open spec fn warning_style() -> StyleSpec {
    style(Some(ThemeColor::Yellow), None, false)
}

pub open spec fn danger_style() -> StyleSpec {
    style(Some(ThemeColor::LightRed), None, false)
}

pub open spec fn success_style() -> StyleSpec {
    style(Some(ThemeColor::LightGreen), None, false)
}

pub open spec fn muted_style() -> StyleSpec {
    style(Some(ThemeColor::DarkGray), None, false)
}

/// The selector's palette.
#[derive(Debug, Clone, Copy)]
pub struct Theme;

impl Theme {
    pub fn background() -> (r: StyleSpec)
        ensures
            r == background_style(),
    {
        StyleSpec { fg: None, bg: Some(ThemeColor::Black), bold: false }
    }

    pub fn header() -> (r: StyleSpec)
        ensures
            r == header_style(),
    {
        StyleSpec { fg: Some(ThemeColor::Cyan), bg: None, bold: true }
    }

    pub fn block_title() -> (r: StyleSpec)
        ensures
            r == block_title_style(),
    {
        StyleSpec { fg: Some(ThemeColor::LightCyan), bg: None, bold: true }
    }

    pub fn body_text() -> (r: StyleSpec)
        ensures
            r == body_text_style(),
    {
        StyleSpec { fg: Some(ThemeColor::Gray), bg: None, bold: false }
    }

    pub fn emphasis() -> (r: StyleSpec)
        ensures
            r == emphasis_style(),
    {
        StyleSpec { fg: Some(ThemeColor::White), bg: None, bold: true }
    }

    pub fn selected_row() -> (r: StyleSpec)
        ensures
            r == selected_row_style(),
    {
        StyleSpec { fg: Some(ThemeColor::Black), bg: Some(ThemeColor::LightCyan), bold: true }
    }

    pub fn warning() -> (r: StyleSpec)
        ensures
            r == warning_style(),
    {
        StyleSpec { fg: Some(ThemeColor::Yellow), bg: None, bold: false }
    }

    pub fn danger() -> (r: StyleSpec)
        ensures
            r == danger_style(),
    {
        StyleSpec { fg: Some(ThemeColor::LightRed), bg: None, bold: false }
    }

    pub fn success() -> (r: StyleSpec)
        ensures
            r == success_style(),
    {
        StyleSpec { fg: Some(ThemeColor::LightGreen), bg: None, bold: false }
    }

    pub fn muted() -> (r: StyleSpec)
        ensures
            r == muted_style(),
    {
        StyleSpec { fg: Some(ThemeColor::DarkGray), bg: None, bold: false }
    }
}

/// The badge shown for a fit: its label and background colour (black bold text).
pub open spec fn fit_badge_spec(fit: FitStatus) -> (Seq<char>, ThemeColor) {
    match fit {
        FitStatus::Easy => (" easy "@, ThemeColor::LightGreen),
        FitStatus::Fits => (" fits "@, ThemeColor::Cyan),
        FitStatus::Tight => (" tight "@, ThemeColor::Yellow),
        FitStatus::RequiresQuantization => (" quant "@, ThemeColor::Magenta),
        FitStatus::RequiresMultiGpu => (" multi-gpu "@, ThemeColor::LightRed),
        FitStatus::NotRecommended => (" risky "@, ThemeColor::Red),
        FitStatus::Unknown => (" unknown "@, ThemeColor::Gray),
    }
}

pub fn fit_badge(fit: FitStatus) -> (r: (&'static str, StyleSpec))
    ensures
        r.0@ == fit_badge_spec(fit).0,
        r.1 == style(Some(ThemeColor::Black), Some(fit_badge_spec(fit).1), true),
{
    let (label, color) = match fit {
        FitStatus::Easy => (" easy ", ThemeColor::LightGreen),
        FitStatus::Fits => (" fits ", ThemeColor::Cyan),
        FitStatus::Tight => (" tight ", ThemeColor::Yellow),
        FitStatus::RequiresQuantization => (" quant ", ThemeColor::Magenta),
        FitStatus::RequiresMultiGpu => (" multi-gpu ", ThemeColor::LightRed),
        FitStatus::NotRecommended => (" risky ", ThemeColor::Red),
        FitStatus::Unknown => (" unknown ", ThemeColor::Gray),
    };
    (label, StyleSpec { fg: Some(ThemeColor::Black), bg: Some(color), bold: true })
}

/// A yes/no badge: ` label:ok ` on green, or ` label:missing ` on grey.
pub fn boolean_badge(label: &str, value: bool) -> (r: (String, StyleSpec))
    ensures
        value ==> r.0@ == " "@ + label@ + ":ok "@ && r.1 == style(Some(ThemeColor::Black), Some(ThemeColor::LightGreen), false),
        !value ==> r.0@ == " "@ + label@ + ":missing "@ && r.1 == style(Some(ThemeColor::White), Some(ThemeColor::DarkGray), false),
{
    let mut text = " ".to_owned();
    push_str(&mut text, label);
    if value {
        push_str(&mut text, ":ok ");
        (text, StyleSpec { fg: Some(ThemeColor::Black), bg: Some(ThemeColor::LightGreen), bold: false })
    } else {
        push_str(&mut text, ":missing ");
        (text, StyleSpec { fg: Some(ThemeColor::White), bg: Some(ThemeColor::DarkGray), bold: false })
    }
}

/// The kind of a key event the terminal reports.
#[derive(Debug, Clone, Copy, PartialEq, Eq, Structural)]
pub enum KeyKind {
    Press,
    Repeat,
    Release,
}

/// The event loop's timing: a tick every `tick_rate_ms` milliseconds.
#[derive(Debug, Clone, Copy)]
pub struct EventHandler {
    pub tick_rate_ms: u64,
}

impl EventHandler {
    pub fn new(tick_rate_ms: u64) -> (r: Self)
        ensures
            r.tick_rate_ms == tick_rate_ms,
    {
        EventHandler { tick_rate_ms }
    }

    /// How long to wait for input, `elapsed_ms` after the last tick.
    pub fn poll_timeout_ms(&self, elapsed_ms: u64) -> (r: u64)
        ensures
            r == if elapsed_ms <= self.tick_rate_ms { (self.tick_rate_ms - elapsed_ms) as u64 } else { 0 },
    {
        if elapsed_ms <= self.tick_rate_ms { self.tick_rate_ms - elapsed_ms } else { 0 }
    }

    /// Whether a tick is due.
    pub fn tick_due(&self, elapsed_ms: u64) -> (r: bool)
        ensures
            r == (elapsed_ms >= self.tick_rate_ms),
    {
        elapsed_ms >= self.tick_rate_ms
    }

    /// Presses and repeats reach the selector; releases do not.
    pub fn accepts_key(kind: KeyKind) -> (r: bool)
        ensures
            r == (kind == KeyKind::Press || kind == KeyKind::Repeat),
    {
        match kind {
            KeyKind::Press => true,
            KeyKind::Repeat => true,
            KeyKind::Release => false,
        }
    }
}

/// The backends shown in a panel of `height` rows (two rows per backend,
/// two for the border): `[start, end)`, the selected one kept in view and
/// as near the middle as the list allows.
pub open spec fn viewport(total: nat, selected: nat, height: nat) -> (nat, nat) {
    let content = if height >= 2 { (height - 2) as nat } else { 0nat };
    let visible = if content / 2 >= 1 { content / 2 } else { 1nat };
    let sel = if selected < total { selected } else if total > 0 { (total - 1) as nat } else { 0nat };
    let start = if total > visible {
        let half = visible / 2;
        let s = if sel >= half { (sel - half) as nat } else { 0nat };
        if s > total - visible { (total - visible) as nat } else { s }
    } else {
        0nat
    };
    let end = if start + visible < total { start + visible } else { total };
    (start, end)
}

pub fn backend_viewport(total: usize, selected: usize, height: u16) -> (r: (usize, usize))
    requires
        total > 0,
    ensures
        r.0 == viewport(total as nat, selected as nat, height as nat).0,
        r.1 == viewport(total as nat, selected as nat, height as nat).1,
        r.0 <= r.1 <= total,
        selected < total ==> r.0 <= selected < r.1,
{
    let content: usize = if height >= 2 { (height - 2) as usize } else { 0 };
    let visible: usize = if content / 2 >= 1 { content / 2 } else { 1 };
    let sel: usize = if selected < total { selected } else { total - 1 };
    let mut start: usize = 0;
    if total > visible {
        let half = visible / 2;
        start = if sel >= half { sel - half } else { 0 };
        if start > total - visible {
            start = total - visible;
        }
    }
    let end = if start + visible < total { start + visible } else { total };
    (start, end)
}

/// The shortcut line for a mode; in browse mode with the details focused,
/// the selected model's page (or a notice when none is selected).
pub open spec fn footer_line(mode: WizardMode, details_focus: bool, hf_url: Option<Seq<char>>) -> Seq<char> {
    match mode {
        WizardMode::Browse => if details_focus {
            match hf_url {
                Some(u) => u,
                None => "No model selected."@,
            }
        } else {
            "Enter: select | /: search | x: clear search | f: filters | b: backend | c: category | s: size | r: refresh catalog | Space: details focus | q: quit"@
        },
        WizardMode::Search => "Search: type text | Enter apply | Esc cancel"@,
        WizardMode::CategoryPicker => "Category filter: Up/Down select | Enter apply | Esc cancel"@,
        WizardMode::SizePicker => "Size filter: Up/Down select | Enter apply | Esc cancel"@,
        WizardMode::PortInput => "Port input: digits | Enter continue | Esc back"@,
        WizardMode::ApiKeyInput => "API key: Enter continue | Ctrl+g local-key | Esc back"@,
        WizardMode::Confirm => "Confirm: Enter launch | Esc back | q quit"@,
    }
}

pub fn footer_text(mode: WizardMode, details_focus: bool, hf_url: Option<String>) -> (r: String)
    ensures
        r@ == footer_line(mode, details_focus, crate::config::opt_view(hf_url)),
{
    match mode {
        WizardMode::Browse => if details_focus {
            match hf_url {
                Some(u) => u,
                None => "No model selected.".to_owned(),
            }
        } else {
            crate::selector::footer_help().to_owned()
        },
        WizardMode::Search => "Search: type text | Enter apply | Esc cancel".to_owned(),
        WizardMode::CategoryPicker => "Category filter: Up/Down select | Enter apply | Esc cancel".to_owned(),
        WizardMode::SizePicker => "Size filter: Up/Down select | Enter apply | Esc cancel".to_owned(),
        WizardMode::PortInput => "Port input: digits | Enter continue | Esc back".to_owned(),
        WizardMode::ApiKeyInput => "API key: Enter continue | Ctrl+g local-key | Esc back".to_owned(),
        WizardMode::Confirm => "Confirm: Enter launch | Esc back | q quit".to_owned(),
    }
}

/// The model list's title: backend, category, size and search filter.
pub open spec fn list_title(backend: Seq<char>, category: Seq<char>, size: Seq<char>, search: Seq<char>) -> Seq<char> {
    " Models | backend="@ + backend + " | category="@ + category + " | size="@ + size + " | search="@
        + (if search.len() == 0 { "none"@ } else { search })
        + (if search.len() == 0 { Seq::empty() } else { " | press x to clear"@ }) + " "@
}

pub fn model_list_title(backend: &str, category: &str, size: &str, search: &str) -> (r: String)
    ensures
        r@ == list_title(backend@, category@, size@, search@),
{
    proof {
        reveal_strlit("");
    }
    let mut t = " Models | backend=".to_owned();
    push_str(&mut t, backend);
    push_str(&mut t, " | category=");
    push_str(&mut t, category);
    push_str(&mut t, " | size=");
    push_str(&mut t, size);
    push_str(&mut t, " | search=");
    if search.is_empty() {
        push_str(&mut t, "none");
    } else {
        push_str(&mut t, search);
        push_str(&mut t, " | press x to clear");
    }
    push_str(&mut t, " ");
    assert(t@ =~= list_title(backend@, category@, size@, search@));
    t
}

/// A figure kept in tenths, written with one decimal.
pub open spec fn tenths_text(t: nat) -> Seq<char> {
    decimal(t / 10) + "."@ + decimal(t % 10)
}

pub fn format_tenths(t: u32) -> (r: String)
    ensures
        r@ == tenths_text(t as nat),
{
    let mut s = u64_to_string((t / 10) as u64);
    push_str(&mut s, ".");
    push_str(&mut s, u64_to_string((t % 10) as u64).as_str());
    s
}

} // verus!
