//! The interactive backend/model selector: its state, filters, and how
//! each key press changes it. Terminal drawing and input reading stand
//! outside; keys arrive here as `Key` values.

use vstd::prelude::*;

use crate::backend::{backend_for_name, backend_from_name, BackendAvailability};
use crate::machine::MachineSpecs;
use crate::model_catalog::{ModelCatalog, ModelEntryView};
use crate::recommendation::{
    fit_is_positive, FitStatus, PreferredBackend, RecommendationEngine,
};
use crate::text::{
    ascii_lower, char_is_ascii_digit, chars_of, decimal, eq_ignore_ascii_case, is_ascii_digit,
    str_eq, string_of, sub_chars, trim, trim_chars, u64_to_string,
};

verus! {

#[derive(Debug, Clone)]
pub struct SelectorResult {
    pub backend: String,
    pub model_id: String,
    pub port: u16,
    pub api_key: String,
}

#[derive(Debug, Clone, Copy, PartialEq, Eq, Structural)]
pub enum WizardMode {
    Browse,
    Search,
    CategoryPicker,
    SizePicker,
    PortInput,
    ApiKeyInput,
    Confirm,
}

#[derive(Debug, Clone, Copy, PartialEq, Eq, Structural)]
pub enum SizeFilter {
    All,
    UpTo8B,
    UpTo14B,
    UpTo32B,
}

/// The size filters in picker order.
pub open spec fn size_filters() -> Seq<SizeFilter> {
    seq![SizeFilter::All, SizeFilter::UpTo8B, SizeFilter::UpTo14B, SizeFilter::UpTo32B]
}

/// Largest model (tenths of a billion) a filter lets through.
pub open spec fn size_limit(f: SizeFilter) -> Option<u32> {
    match f {
        SizeFilter::All => None,
        SizeFilter::UpTo8B => Some(80),
        SizeFilter::UpTo14B => Some(140),
        SizeFilter::UpTo32B => Some(320),
    }
}

pub open spec fn size_allows(f: SizeFilter, params_tenths_b: u32) -> bool {
    match size_limit(f) {
        Some(l) => params_tenths_b <= l,
        None => true,
    }
}

/// Each size filter lets through exactly the models up to the size its
/// label names (8B, 14B, 32B; every model for "All sizes"), so each filter
/// lets through everything a smaller one does.
pub proof fn lemma_size_filters_match_their_labels(p: u32)
    ensures
        size_allows(SizeFilter::All, p),
        size_allows(SizeFilter::UpTo8B, p) <==> p <= 80,
        size_allows(SizeFilter::UpTo14B, p) <==> p <= 140,
        size_allows(SizeFilter::UpTo32B, p) <==> p <= 320,
        size_allows(SizeFilter::UpTo8B, p) ==> size_allows(SizeFilter::UpTo14B, p),
        size_allows(SizeFilter::UpTo14B, p) ==> size_allows(SizeFilter::UpTo32B, p),
{
}

impl SizeFilter {
    pub fn all() -> (r: [SizeFilter; 4])
        ensures
            r@ == size_filters(),
    {
        let r = [SizeFilter::All, SizeFilter::UpTo8B, SizeFilter::UpTo14B, SizeFilter::UpTo32B];
        assert(r@ =~= size_filters());
        r
    }

    pub fn label(self) -> (r: &'static str)
        ensures
            r@ == match self {
                SizeFilter::All => "All sizes"@,
                SizeFilter::UpTo8B => "<= 8B"@,
                SizeFilter::UpTo14B => "<= 14B"@,
                SizeFilter::UpTo32B => "<= 32B"@,
            },
    {
        match self {
            SizeFilter::All => "All sizes",
            SizeFilter::UpTo8B => "<= 8B",
            SizeFilter::UpTo14B => "<= 14B",
            SizeFilter::UpTo32B => "<= 32B",
        }
    }

    /// Whether a model of this size (tenths of a billion) passes.
    pub fn allows(self, params_tenths_b: u32) -> (r: bool)
        ensures
            r == size_allows(self, params_tenths_b),
    {
        match self {
            SizeFilter::All => true,
            SizeFilter::UpTo8B => params_tenths_b <= 80,
            SizeFilter::UpTo14B => params_tenths_b <= 140,
            SizeFilter::UpTo32B => params_tenths_b <= 320,
        }
    }
}

#[derive(Debug, Clone, Copy)]
pub struct BackendChoice {
    pub id: &'static str,
    pub label: &'static str,
}

/// What a key press asks of the caller.
#[derive(Debug, Clone)]
pub enum AppAction {
    /// Keep running.
    NoAction,
    Cancelled,
    Confirmed(SelectorResult),
    /// Refresh the catalog in the background and hand the outcome to
    /// `AppState::apply_catalog_refresh`.
    RefreshCatalog,
}

#[derive(Debug, Clone)]
pub enum SelectorOutcome {
    Cancelled,
    Launch(SelectorResult),
}

/// A key, as the selector sees it.
#[derive(Debug, Clone, Copy, PartialEq, Eq, Structural)]
pub enum KeyCode {
    Char(char),
    Up,
    Down,
    PageUp,
    PageDown,
    Enter,
    Esc,
    Backspace,
    Other,
}

/// A key press: the key and whether Control was held.
#[derive(Debug, Clone, Copy, PartialEq, Eq, Structural)]
pub struct Key {
    pub code: KeyCode,
    pub ctrl: bool,
}

// ---------------------------------------------------------------------------
// Small display helpers
// ---------------------------------------------------------------------------

pub fn footer_help() -> (r: &'static str)
    ensures
        r@ == "Enter: select | /: search | x: clear search | f: filters | b: backend | c: category | s: size | r: refresh catalog | Space: details focus | q: quit"@,
{
    "Enter: select | /: search | x: clear search | f: filters | b: backend | c: category | s: size | r: refresh catalog | Space: details focus | q: quit"
}

pub open spec fn spinner_frames() -> Seq<Seq<char>> {
    seq!["|"@, "/"@, "-"@, "\\"@]
}

pub fn spinner_frame(tick: usize) -> (r: &'static str)
    ensures
        r@ == spinner_frames()[(tick % 4) as int],
{
    let frames: [&'static str; 4] = ["|", "/", "-", "\\"];
    frames[tick % 4]
}

/// `s` cut to `max_chars` characters, the end replaced by `...`, when it is
/// longer than that.
pub open spec fn compacted(s: Seq<char>, max_chars: nat) -> Seq<char> {
    if s.len() <= max_chars {
        s
    } else {
        s.take(if max_chars >= 3 { max_chars - 3 } else { 0 }) + "..."@
    }
}

pub fn compact_model_name(id: &str, max_chars: usize) -> (r: String)
    ensures
        r@ == compacted(id@, max_chars as nat),
{
    let v = chars_of(id);
    if v.len() <= max_chars {
        return id.to_owned();
    }
    let keep = if max_chars >= 3 { max_chars - 3 } else { 0 };
    let mut r = string_of(&sub_chars(&v, 0, keep));
    r.append("...");
    proof {
        assert(v@.subrange(0, keep as int) =~= v@.take(keep as int));
    }
    r
}

// ---------------------------------------------------------------------------
// Port parsing
// ---------------------------------------------------------------------------

pub open spec fn digits_value(d: Seq<char>) -> nat
    decreases d.len(),
{
    if d.len() == 0 {
        0
    } else {
        digits_value(d.drop_last()) * 10 + ((d.last() as u32) - 48) as nat
    }
}

pub open spec fn strip_plus(s: Seq<char>) -> Seq<char> {
    if s.len() > 0 && s[0] == '+' { s.drop_first() } else { s }
}

/// One or more decimal digits whose value fits in 16 bits.
pub open spec fn parse_digits_u16(d: Seq<char>) -> Option<u16> {
    if d.len() > 0 && (forall|i: int| 0 <= i < d.len() ==> is_ascii_digit(#[trigger] d[i])) && digits_value(d) <= 65535 {
        Some(digits_value(d) as u16)
    } else {
        None
    }
}

/// `u16::from_str`: an optional `+`, then the digits.
pub open spec fn parse_u16(s: Seq<char>) -> Option<u16> {
    parse_digits_u16(strip_plus(s))
}

/// A TCP port typed by the user: surrounding whitespace ignored, 1..=65535.
pub open spec fn spec_parse_port(s: Seq<char>) -> Option<u16> {
    match parse_u16(trim(s)) {
        Some(p) => if p == 0 { None } else { Some(p) },
        None => None,
    }
}

fn parse_u16_chars(s: &Vec<char>) -> (r: Option<u16>)
    ensures
        r == parse_u16(s@),
{
    let start: usize = if s.len() > 0 && s[0] == '+' { 1 } else { 0 };
    let ghost d = strip_plus(s@);
    assert(d =~= s@.subrange(start as int, s@.len() as int));
    if start >= s.len() {
        return None;
    }
    let mut acc: u64 = 0;
    let mut over = false;
    let mut i = start;
    while i < s.len()
        invariant
            start <= i <= s.len(),
            d == s@.subrange(start as int, s@.len() as int),
            d == strip_plus(s@),
            forall|k: int| 0 <= k < i - start ==> is_ascii_digit(#[trigger] d[k]),
            !over ==> acc == digits_value(d.take(i - start)) && acc <= 65535,
            over ==> digits_value(d.take(i - start)) > 65535,
        decreases s.len() - i,
    {
        let c = s[i];
        if !char_is_ascii_digit(c) {
            assert(d[i - start] == c);
            return None;
        }
        proof {
            assert(d.take(i - start + 1).drop_last() =~= d.take(i - start));
            assert(d.take(i - start + 1).last() == c);
        }
        if !over {
            acc = acc * 10 + ((c as u32) - 48) as u64;
            if acc > 65535 {
                over = true;
            }
        }
        i = i + 1;
    }
    assert(d.take(d.len() as int) =~= d);
    if over {
        None
    } else {
        Some(acc as u16)
    }
}

pub fn parse_port(value: &str) -> (r: Option<u16>)
    ensures
        r == spec_parse_port(value@),
{
    let t = trim_chars(&chars_of(value));
    match parse_u16_chars(&t) {
        Some(p) => if p == 0 { None } else { Some(p) },
        None => None,
    }
}

// ---------------------------------------------------------------------------
// Backend choices
// ---------------------------------------------------------------------------

pub open spec fn choice_ids(choices: Seq<BackendChoice>) -> Seq<Seq<char>> {
    choices.map_values(|c: BackendChoice| c.id@)
}

/// The first index whose id equals `name` ignoring ASCII case (the length
/// when there is none).
pub open spec fn index_ignoring_case(ids: Seq<Seq<char>>, name: Seq<char>) -> int
    decreases ids.len(),
{
    if ids.len() == 0 {
        0
    } else if ascii_lower(ids[0]) == ascii_lower(name) {
        0
    } else {
        1 + index_ignoring_case(ids.drop_first(), name)
    }
}

/// The first index whose id is `name` (the length when there is none).
pub open spec fn index_of(ids: Seq<Seq<char>>, name: Seq<char>) -> int
    decreases ids.len(),
{
    if ids.len() == 0 {
        0
    } else if ids[0] == name {
        0
    } else {
        1 + index_of(ids.drop_first(), name)
    }
}

proof fn lemma_index_ignoring_case_at(ids: Seq<Seq<char>>, name: Seq<char>, i: int)
    requires
        0 <= i <= ids.len(),
        forall|k: int| 0 <= k < i ==> ascii_lower(#[trigger] ids[k]) != ascii_lower(name),
        i == ids.len() || ascii_lower(ids[i]) == ascii_lower(name),
    ensures
        index_ignoring_case(ids, name) == i,
    decreases i,
{
    if i > 0 {
        let t = ids.drop_first();
        assert(ascii_lower(ids[0]) != ascii_lower(name));
        assert forall|k: int| 0 <= k < i - 1 implies ascii_lower(#[trigger] t[k]) != ascii_lower(name) by {
            assert(t[k] == ids[k + 1]);
        }
        lemma_index_ignoring_case_at(t, name, i - 1);
    }
}

pub(crate) proof fn lemma_index_of_at(ids: Seq<Seq<char>>, name: Seq<char>, i: int)
    requires
        0 <= i <= ids.len(),
        forall|k: int| 0 <= k < i ==> #[trigger] ids[k] != name,
        i == ids.len() || ids[i] == name,
    ensures
        index_of(ids, name) == i,
    decreases i,
{
    if i > 0 {
        let t = ids.drop_first();
        assert(ids[0] != name);
        assert forall|k: int| 0 <= k < i - 1 implies #[trigger] t[k] != name by {
            assert(t[k] == ids[k + 1]);
        }
        lemma_index_of_at(t, name, i - 1);
    }
}

/// The name of a preferred backend, if any.
pub open spec fn preferred_name(p: PreferredBackend) -> Option<Seq<char>> {
    match p {
        PreferredBackend::Vllm => Some("vllm"@),
        PreferredBackend::Tgi => Some("tgi"@),
        PreferredBackend::NoBackend => Option::None,
    }
}

/// The choice the selector starts on: the configured backend (any ASCII
/// case), else the preferred one, else the first.
pub open spec fn spec_backend_index(default_backend: Seq<char>, preferred: PreferredBackend, ids: Seq<Seq<char>>) -> int {
    if index_ignoring_case(ids, default_backend) < ids.len() {
        index_ignoring_case(ids, default_backend)
    } else {
        match preferred_name(preferred) {
            Some(name) => if index_of(ids, name) < ids.len() { index_of(ids, name) } else { 0 },
            Option::None => 0,
        }
    }
}

pub(crate) proof fn lemma_index_of_nonneg(ids: Seq<Seq<char>>, name: Seq<char>)
    ensures
        0 <= index_of(ids, name) <= ids.len(),
    decreases ids.len(),
{
    if ids.len() > 0 {
        lemma_index_of_nonneg(ids.drop_first(), name);
    }
}

/// The starting choice is one of the choices.
pub proof fn lemma_backend_index_in_range(default_backend: Seq<char>, preferred: PreferredBackend, ids: Seq<Seq<char>>)
    requires
        ids.len() > 0,
    ensures
        spec_backend_index(default_backend, preferred, ids) < ids.len(),
{
}

pub fn resolve_backend_index(default_backend: &str, preferred_backend: PreferredBackend, choices: &[BackendChoice]) -> (r: usize)
    ensures
        r == spec_backend_index(default_backend@, preferred_backend, choice_ids(choices@)),
{
    let ghost ids = choice_ids(choices@);
    let mut i: usize = 0;
    while i < choices.len()
        invariant
            i <= choices@.len(),
            ids == choice_ids(choices@),
            forall|k: int| 0 <= k < i ==> ascii_lower(#[trigger] ids[k]) != ascii_lower(default_backend@),
        decreases choices@.len() - i,
    {
        assert(ids[i as int] == choices@[i as int].id@);
        if eq_ignore_ascii_case(choices[i].id, default_backend) {
            proof {
                lemma_index_ignoring_case_at(ids, default_backend@, i as int);
            }
            return i;
        }
        i = i + 1;
    }
    proof {
        lemma_index_ignoring_case_at(ids, default_backend@, ids.len() as int);
    }
    match preferred_backend.as_str() {
        Some(name) => {
            let mut j: usize = 0;
            while j < choices.len()
                invariant
                    j <= choices@.len(),
                    ids == choice_ids(choices@),
                    index_ignoring_case(ids, default_backend@) == ids.len(),
                    preferred_name(preferred_backend) == Some(name@),
                    forall|k: int| 0 <= k < j ==> #[trigger] ids[k] != name@,
                decreases choices@.len() - j,
            {
                assert(ids[j as int] == choices@[j as int].id@);
                if str_eq(choices[j].id, name) {
                    proof {
                        lemma_index_of_at(ids, name@, j as int);
                    }
                    return j;
                }
                j = j + 1;
            }
            proof {
                lemma_index_of_at(ids, name@, ids.len() as int);
            }
            0
        },
        None => 0,
    }
}

} // verus!
