//! The selector's state machine: what the list shows and how each key
//! press changes the state.
//!
//! `AppState::handle_key` is the whole behaviour; each wizard mode has a
//! step predicate (`browse_step`, `search_step`, ...) that says exactly
//! which fields a key changes and to what.

use vstd::prelude::*;

use crate::backend::{backend_for_name, backend_from_name, BackendAvailability};
use crate::config::opt_view;
use crate::machine::MachineSpecs;
use crate::model_catalog::{
    entry_supports, entry_views, opt_str_view, ModelCatalog, ModelEntryView, ModelEntry,
};
use crate::order::{
    chars_lt, lemma_lex_asymmetric, lemma_lex_irreflexive, lemma_lex_total, lemma_lex_transitive,
    lex_lt, strictly_sorted,
};
use crate::recommendation::{
    fit_is_positive, ranked, rec_views, spec_preferred_backend, unranked, with_key, FitStatus,
    ModelRecommendation, PreferredBackend, RecView, RecommendationEngine,
};
use crate::selector::{
    index_of, lemma_index_of_at, parse_port, resolve_backend_index, size_allows, size_filters,
    spec_backend_index, spec_parse_port, choice_ids, AppAction, BackendChoice, Key, KeyCode,
    SelectorResult, SizeFilter, WizardMode,
};
use crate::text::{
    ascii_lower, is_ascii_digit,
    chars_contains, chars_of, contains_seq, decimal, join, join_strings, push_str, string_of,
    sub_chars, to_lowercase, trim, trim_str, u64_to_string, unicode_lowercase, views,
};

verus! {

/// One row of the model list.
#[derive(Debug, Clone)]
pub struct ModelItem {
    pub id: String,
    pub display_name: String,
    pub family: String,
    /// Parameter count in tenths of a billion.
    pub params_tenths_b: u32,
    pub categories: Vec<String>,
    pub recommended_use: String,
    /// VRAM targets in tenths of a gigabyte.
    pub min_vram_fp16_tenths_gb: u32,
    pub min_vram_int8_tenths_gb: u32,
    pub min_vram_int4_tenths_gb: u32,
    pub supports_vllm: bool,
    pub supports_tgi: bool,
    pub supports_sglang: bool,
    pub supports_llamacpp: bool,
    pub supports_ollama: bool,
    pub gated: bool,
    pub fit: FitStatus,
    pub explanation: String,
    pub recommended: bool,
}

pub struct ModelItemView {
    pub model: ModelEntryView,
    pub supports_sglang: bool,
    pub supports_llamacpp: bool,
    pub supports_ollama: bool,
    pub fit: FitStatus,
    pub explanation: Seq<char>,
    pub recommended: bool,
}

impl View for ModelItem {
    type V = ModelItemView;

    open spec fn view(&self) -> ModelItemView {
        ModelItemView {
            model: ModelEntryView {
                id: self.id@,
                display_name: self.display_name@,
                family: self.family@,
                params_tenths_b: self.params_tenths_b,
                categories: views(self.categories@),
                recommended_use: self.recommended_use@,
                min_vram_fp16_tenths_gb: self.min_vram_fp16_tenths_gb,
                min_vram_int8_tenths_gb: self.min_vram_int8_tenths_gb,
                min_vram_int4_tenths_gb: self.min_vram_int4_tenths_gb,
                supports_vllm: self.supports_vllm,
                supports_tgi: self.supports_tgi,
                gated: self.gated,
            },
            supports_sglang: self.supports_sglang,
            supports_llamacpp: self.supports_llamacpp,
            supports_ollama: self.supports_ollama,
            fit: self.fit,
            explanation: self.explanation@,
            recommended: self.recommended,
        }
    }
}

pub open spec fn item_views(s: Seq<ModelItem>) -> Seq<ModelItemView> {
    s.map_values(|m: ModelItem| m@)
}

/// The row shown for a recommendation. SGLang follows the vLLM flag;
/// llama.cpp and Ollama serve every model.
pub open spec fn item_of(r: RecView, recommended: bool) -> ModelItemView {
    ModelItemView {
        model: r.0,
        supports_sglang: r.0.supports_vllm,
        supports_llamacpp: true,
        supports_ollama: true,
        fit: r.1,
        explanation: r.2,
        recommended,
    }
}

/// The text a search query is matched against, before lowercasing.
pub open spec fn searchable(e: ModelEntryView) -> Seq<char> {
    e.id + " "@ + e.display_name + " "@ + e.family + " "@ + join(e.categories, " "@)
}

/// Whether a model passes the category, size and (lowercased) search filters.
pub open spec fn passes(e: ModelEntryView, category: Option<Seq<char>>, size: SizeFilter, query: Seq<char>) -> bool {
    &&& match category {
        Some(c) => e.categories.contains(c),
        None => true,
    }
    &&& size_allows(size, e.params_tenths_b)
    &&& (query.len() == 0 || contains_seq(unicode_lowercase(searchable(e)), query))
}

/// The rows for ranked recommendations: those passing the filters, in
/// order, the first five positive fits marked as recommended.
/// `positives` counts the positive fits already listed.
pub open spec fn listing(
    recs: Seq<RecView>,
    category: Option<Seq<char>>,
    size: SizeFilter,
    query: Seq<char>,
    positives: nat,
) -> Seq<ModelItemView>
    decreases recs.len(),
{
    if recs.len() == 0 {
        Seq::empty()
    } else {
        let r = recs[0];
        let pos = fit_is_positive(r.1);
        if passes(r.0, category, size, query) {
            seq![item_of(r, pos && positives < 5)] + listing(
                recs.drop_first(),
                category,
                size,
                query,
                if pos { positives + 1 } else { positives },
            )
        } else {
            listing(recs.drop_first(), category, size, query, positives)
        }
    }
}

/// `recs` is the ranked recommendation list for a machine, catalog and backend.
pub open spec fn sorted_recommendations(
    recs: Seq<RecView>,
    m: MachineSpecs,
    cat: Seq<ModelEntryView>,
    backend: Seq<char>,
) -> bool {
    &&& ranked(recs)
    &&& forall|k: (u8, u32)| #[trigger] with_key(recs, k) == with_key(unranked(m, cat, Some(backend)), k)
}

pub open spec fn item_ids(models: Seq<ModelItemView>) -> Seq<Seq<char>> {
    models.map_values(|m: ModelItemView| m.model.id)
}

/// Where the cursor lands: on the first row with the target id, else the top.
pub open spec fn selection(models: Seq<ModelItemView>, target: Seq<char>) -> int {
    if index_of(item_ids(models), target) < models.len() {
        index_of(item_ids(models), target)
    } else {
        0
    }
}


proof fn lemma_support_literals(e: ModelEntryView)
    ensures
        entry_supports(e, ascii_lower("sglang"@)) == e.supports_vllm,
        entry_supports(e, ascii_lower("llamacpp"@)),
        entry_supports(e, ascii_lower("ollama"@)),
{
    reveal_strlit("sglang");
    reveal_strlit("llamacpp");
    reveal_strlit("ollama");
    reveal_strlit("vllm");
    reveal_strlit("tgi");
    assert(ascii_lower("sglang"@) =~= "sglang"@);
    assert(ascii_lower("llamacpp"@) =~= "llamacpp"@);
    assert(ascii_lower("ollama"@) =~= "ollama"@);
    assert("sglang"@ != "vllm"@ && "sglang"@ != "tgi"@) by {
        assert("sglang"@.len() != "vllm"@.len());
        assert("sglang"@.len() != "tgi"@.len());
    }
    assert("llamacpp"@ != "vllm"@ && "llamacpp"@ != "tgi"@ && "llamacpp"@ != "sglang"@) by {
        assert("llamacpp"@.len() != "vllm"@.len());
        assert("llamacpp"@.len() != "tgi"@.len());
        assert("llamacpp"@.len() != "sglang"@.len());
    }
    assert("ollama"@ != "vllm"@ && "ollama"@ != "tgi"@ && "ollama"@ != "sglang"@) by {
        assert("ollama"@.len() != "vllm"@.len());
        assert("ollama"@.len() != "tgi"@.len());
        assert("ollama"@[0] != "sglang"@[0]);
    }
}

/// The searchable text of a catalog entry, lowercased.
fn searchable_lower(e: &ModelEntry) -> (r: Vec<char>)
    ensures
        r@ == unicode_lowercase(searchable(e@)),
{
    let mut s = e.id.clone();
    push_str(&mut s, " ");
    push_str(&mut s, e.display_name.as_str());
    push_str(&mut s, " ");
    push_str(&mut s, e.family.as_str());
    push_str(&mut s, " ");
    let cats = join_strings(&e.categories, " ");
    push_str(&mut s, cats.as_str());
    let lower = to_lowercase(s.as_str());
    chars_of(lower.as_str())
}

fn passes_filters(e: &ModelEntry, category: &Option<String>, size: SizeFilter, query: &Vec<char>) -> (r: bool)
    ensures
        r == passes(e@, opt_view(*category), size, query@),
{
    let cat_ok = match category {
        Some(c) => e.has_category(c),
        None => true,
    };
    if !cat_ok || !size.allows(e.params_tenths_b) {
        return false;
    }
    if query.len() == 0 {
        return true;
    }
    chars_contains(&searchable_lower(e), query)
}

fn item_from(rec: &ModelRecommendation, recommended: bool) -> (r: ModelItem)
    ensures
        r@ == item_of(rec@, recommended),
{
    let m = &rec.model;
    proof {
        lemma_support_literals(m@);
    }
    let supports_sglang = m.supports_backend("sglang");
    let supports_llamacpp = m.supports_backend("llamacpp");
    let supports_ollama = m.supports_backend("ollama");
    ModelItem {
        id: m.id.clone(),
        display_name: m.display_name.clone(),
        family: m.family.clone(),
        params_tenths_b: m.params_tenths_b,
        categories: crate::model_catalog::clone_strings(&m.categories),
        recommended_use: m.recommended_use.clone(),
        min_vram_fp16_tenths_gb: m.min_vram_fp16_tenths_gb,
        min_vram_int8_tenths_gb: m.min_vram_int8_tenths_gb,
        min_vram_int4_tenths_gb: m.min_vram_int4_tenths_gb,
        supports_vllm: m.supports_vllm,
        supports_tgi: m.supports_tgi,
        supports_sglang,
        supports_llamacpp,
        supports_ollama,
        gated: m.gated,
        fit: rec.status,
        explanation: rec.explanation.clone(),
        recommended,
    }
}

/// The rows for a ranked recommendation list under the given filters.
fn build_listing(
    recs: &Vec<ModelRecommendation>,
    category: &Option<String>,
    size: SizeFilter,
    query: &Vec<char>,
) -> (r: Vec<ModelItem>)
    ensures
        item_views(r@) == listing(rec_views(recs@), opt_view(*category), size, query@, 0),
{
    let ghost rv = rec_views(recs@);
    let ghost cat = opt_view(*category);
    let mut out: Vec<ModelItem> = Vec::new();
    let mut positives: usize = 0;
    let mut i: usize = 0;
    assert(rv.skip(0) =~= rv);
    assert(item_views(out@) =~= Seq::<ModelItemView>::empty());
    while i < recs.len()
        invariant
            i <= recs.len(),
            positives <= i,
            rv == rec_views(recs@),
            cat == opt_view(*category),
            item_views(out@) + listing(rv.skip(i as int), cat, size, query@, positives as nat)
                == listing(rv, cat, size, query@, 0),
        decreases recs.len() - i,
    {
        let rec = &recs[i];
        let ghost rest = rv.skip(i as int);
        proof {
            assert(rest[0] == rec@);
            assert(rest.drop_first() =~= rv.skip(i + 1));
        }
        let pos = rec.status.is_positive();
        if passes_filters(&rec.model, category, size, query) {
            let item = item_from(rec, pos && positives < 5);
            let ghost prev = out@;
            out.push(item);
            proof {
                assert(item_views(out@) =~= item_views(prev).push(item@));
                assert(item_views(out@) + listing(rv.skip(i + 1), cat, size, query@, if pos { (positives + 1) as nat } else { positives as nat })
                    =~= item_views(prev) + listing(rest, cat, size, query@, positives as nat));
            }
            if pos {
                positives = positives + 1;
            }
        }
        i = i + 1;
    }
    assert(rv.skip(recs.len() as int) =~= Seq::<RecView>::empty());
    assert(item_views(out@) + listing(rv.skip(i as int), cat, size, query@, positives as nat) =~= item_views(out@));
    out
}


/// Everything the selector needs to start.
#[derive(Debug)]
pub struct SelectorInput {
    pub machine: MachineSpecs,
    pub catalog: ModelCatalog,
    pub default_backend: String,
    pub default_model: Option<String>,
    pub default_port: u16,
    pub default_api_key: String,
}

/// The selector's state.
#[derive(Debug)]
pub struct AppState {
    pub machine: MachineSpecs,
    pub mode: WizardMode,
    pub status_message: String,
    pub spinner_tick: usize,
    pub preferred_backend: PreferredBackend,
    pub backend_choices: Vec<BackendChoice>,
    pub backend_availability: Vec<BackendAvailability>,
    pub backend_index: usize,
    pub models: Vec<ModelItem>,
    pub selected_model_index: usize,
    pub search_query: String,
    pub search_input: String,
    pub category_options: Vec<String>,
    pub category_picker_index: usize,
    pub selected_category: Option<String>,
    pub size_filter: SizeFilter,
    pub size_picker_index: usize,
    pub port_input: String,
    pub api_key_input: String,
    pub model_details_scroll: u16,
    pub details_focus: bool,
    /// The catalog the list is built from.
    pub catalog: ModelCatalog,
    /// Whether a background catalog refresh is under way.
    pub catalog_refreshing: bool,
}

/// The state's public fields, as mathematical values.
pub struct AppStateView {
    pub machine: MachineSpecs,
    pub mode: WizardMode,
    pub status_message: Seq<char>,
    pub spinner_tick: usize,
    pub preferred_backend: PreferredBackend,
    pub backend_choices: Seq<BackendChoice>,
    pub backend_availability: Seq<BackendAvailability>,
    pub backend_index: usize,
    pub models: Seq<ModelItemView>,
    pub selected_model_index: usize,
    pub search_query: Seq<char>,
    pub search_input: Seq<char>,
    pub category_options: Seq<Seq<char>>,
    pub category_picker_index: usize,
    pub selected_category: Option<Seq<char>>,
    pub size_filter: SizeFilter,
    pub size_picker_index: usize,
    pub port_input: Seq<char>,
    pub api_key_input: Seq<char>,
    pub model_details_scroll: u16,
    pub details_focus: bool,
    pub catalog: Seq<ModelEntryView>,
    pub catalog_refreshing: bool,
}

impl View for AppState {
    type V = AppStateView;

    open spec fn view(&self) -> AppStateView {
        AppStateView {
            machine: self.machine,
            mode: self.mode,
            status_message: self.status_message@,
            spinner_tick: self.spinner_tick,
            preferred_backend: self.preferred_backend,
            backend_choices: self.backend_choices@,
            backend_availability: self.backend_availability@,
            backend_index: self.backend_index,
            models: item_views(self.models@),
            selected_model_index: self.selected_model_index,
            search_query: self.search_query@,
            search_input: self.search_input@,
            category_options: views(self.category_options@),
            category_picker_index: self.category_picker_index,
            selected_category: opt_view(self.selected_category),
            size_filter: self.size_filter,
            size_picker_index: self.size_picker_index,
            port_input: self.port_input@,
            api_key_input: self.api_key_input@,
            model_details_scroll: self.model_details_scroll,
            details_focus: self.details_focus,
            catalog: entry_views(self.catalog.models@),
            catalog_refreshing: self.catalog_refreshing,
        }
    }
}

/// The id of the backend the cursor is on.
pub open spec fn backend_id(s: AppStateView) -> Seq<char> {
    s.backend_choices[s.backend_index as int].id@
}

/// The id of the selected row, if the cursor is on one.
pub open spec fn selected_id(s: AppStateView) -> Option<Seq<char>> {
    if s.selected_model_index < s.models.len() {
        Some(s.models[s.selected_model_index as int].model.id)
    } else {
        None
    }
}

/// What the cursor aims for after the list is rebuilt: the preferred id,
/// else the row selected before, else the new top row.
pub open spec fn rebuild_target(prefer: Option<Seq<char>>, s: AppStateView, models: Seq<ModelItemView>) -> Seq<char> {
    match prefer {
        Some(p) => p,
        None => match selected_id(s) {
            Some(q) => q,
            None => models[0].model.id,
        },
    }
}

/// `models` and `sel` are the list and cursor that rebuilding from state
/// `s` produces: the ranked recommendations for the current backend that
/// pass the filters, the cursor on the target row.
pub open spec fn relisted(
    s: AppStateView,
    prefer: Option<Seq<char>>,
    models: Seq<ModelItemView>,
    sel: int,
) -> bool {
    &&& exists|recs: Seq<RecView>|
        #[trigger] sorted_recommendations(recs, s.machine, s.catalog, backend_id(s)) && models == listing(
            recs,
            s.selected_category,
            s.size_filter,
            unicode_lowercase(s.search_query),
            0,
        )
    &&& sel == if models.len() == 0 { 0 } else { selection(models, rebuild_target(prefer, s, models)) }
}

/// `t` is `s` with the list rebuilt (and details scrolled to the top).
pub open spec fn rebuilt(s: AppStateView, prefer: Option<Seq<char>>, t: AppStateView) -> bool {
    &&& relisted(s, prefer, t.models, t.selected_model_index as int)
    &&& t == AppStateView { models: t.models, selected_model_index: t.selected_model_index, model_details_scroll: 0, ..s }
}

impl AppState {
    fn position_of(models: &Vec<ModelItem>, target: &String) -> (r: usize)
        ensures
            r == selection(item_views(models@), target@),
    {
        let ghost ids = item_ids(item_views(models@));
        let mut j: usize = 0;
        while j < models.len()
            invariant
                j <= models.len(),
                ids == item_ids(item_views(models@)),
                forall|k: int| 0 <= k < j ==> #[trigger] ids[k] != target@,
            decreases models.len() - j,
        {
            assert(ids[j as int] == models@[j as int].id@);
            if models[j].id == *target {
                proof {
                    lemma_index_of_at(ids, target@, j as int);
                }
                return j;
            }
            j = j + 1;
        }
        proof {
            lemma_index_of_at(ids, target@, ids.len() as int);
        }
        0
    }

    /// Rebuilds the model list for the current backend and filters.
    fn rebuild_models(&mut self, prefer_model_id: Option<&str>)
        requires
            old(self).backend_index < old(self).backend_choices.len(),
        ensures
            rebuilt(old(self)@, opt_str_view(prefer_model_id), final(self)@),
    {
        let previous: Option<String> = if self.selected_model_index < self.models.len() {
            Some(self.models[self.selected_model_index].id.clone())
        } else {
            None
        };
        let backend = self.backend_choices[self.backend_index].id;
        let query = chars_of(to_lowercase(self.search_query.as_str()).as_str());
        let recs = RecommendationEngine::recommend_models(&self.machine, &self.catalog, Some(backend));
        let models = build_listing(&recs, &self.selected_category, self.size_filter, &query);
        proof {
            assert(sorted_recommendations(rec_views(recs@), self.machine, entry_views(self.catalog.models@), backend@));
        }
        if models.len() == 0 {
            self.selected_model_index = 0;
            self.model_details_scroll = 0;
            self.models = models;
            proof {
                let o = old(self)@;
                assert(self@.models == listing(rec_views(recs@), o.selected_category, o.size_filter, unicode_lowercase(o.search_query), 0));
                assert(sorted_recommendations(rec_views(recs@), o.machine, o.catalog, backend_id(o)));
                assert(self@ == AppStateView { models: self@.models, selected_model_index: self@.selected_model_index, model_details_scroll: 0, ..o });
            }
            return;
        }
        let target: String = match prefer_model_id {
            Some(p) => p.to_owned(),
            None => match previous {
                Some(q) => q,
                None => models[0].id.clone(),
            },
        };
        self.selected_model_index = Self::position_of(&models, &target);
        self.model_details_scroll = 0;
        self.models = models;
        let ghost o = old(self)@;
        assert(self@.models == listing(rec_views(recs@), o.selected_category, o.size_filter, unicode_lowercase(o.search_query), 0));
        assert(sorted_recommendations(rec_views(recs@), o.machine, o.catalog, backend_id(o)));
        assert(target@ == rebuild_target(opt_str_view(prefer_model_id), o, self@.models));
        assert(relisted(old(self)@, opt_str_view(prefer_model_id), self@.models, self@.selected_model_index as int));
        assert(self@ == AppStateView { models: self@.models, selected_model_index: self@.selected_model_index, model_details_scroll: 0, ..old(self)@ });
    }
}


/// The invariant every reachable state keeps: the cursors point into
/// their lists.
pub open spec fn wf(s: AppStateView) -> bool {
    &&& s.backend_index < s.backend_choices.len()
    &&& s.category_picker_index < s.category_options.len()
    &&& s.size_picker_index < 4
    &&& (s.selected_model_index < s.models.len() || s.selected_model_index == 0)
}

/// The length `str::len` reports: the size of the UTF-8 encoding.
pub open spec fn byte_len(s: Seq<char>) -> usize {
    vstd::utf8::encode_utf8(s).len() as usize
}

/// Removes the last character, if any (`String::pop`).
pub open spec fn popped(s: Seq<char>) -> Seq<char> {
    if s.len() > 0 { s.drop_last() } else { s }
}

pub open spec fn size_label(f: SizeFilter) -> Seq<char> {
    match f {
        SizeFilter::All => "All sizes"@,
        SizeFilter::UpTo8B => "<= 8B"@,
        SizeFilter::UpTo14B => "<= 14B"@,
        SizeFilter::UpTo32B => "<= 32B"@,
    }
}

/// Position of a filter in the size picker.
pub open spec fn size_index(f: SizeFilter) -> usize {
    match f {
        SizeFilter::All => 0,
        SizeFilter::UpTo8B => 1,
        SizeFilter::UpTo14B => 2,
        SizeFilter::UpTo32B => 3,
    }
}

/// Where the category picker opens: on the active category, else on `all`.
pub open spec fn category_index(s: AppStateView) -> usize {
    match s.selected_category {
        Some(c) => if index_of(s.category_options, c) < s.category_options.len() {
            index_of(s.category_options, c) as usize
        } else {
            0
        },
        None => 0,
    }
}

/// `t` is `mid` rebuilt, then given a new mode and status message.
pub open spec fn rebuilt_then(mid: AppStateView, t: AppStateView, mode: WizardMode, status: Seq<char>) -> bool {
    &&& rebuilt(mid, None, AppStateView { mode: mid.mode, status_message: mid.status_message, ..t })
    &&& t.mode == mode
    &&& t.status_message == status
}

/// The search filter cleared and the list rebuilt.
pub open spec fn search_cleared(s: AppStateView, t: AppStateView) -> bool {
    rebuilt_then(
        AppStateView { search_query: Seq::empty(), search_input: Seq::empty(), ..s },
        t,
        s.mode,
        "Search cleared, back to full list."@,
    )
}

/// Browse mode with the details pane focused.
pub open spec fn details_step(s: AppStateView, key: Key, t: AppStateView, r: AppAction) -> bool {
    let c = key.code;
    if c == KeyCode::Char('q') {
        r is Cancelled && t == s
    } else {
        &&& r is NoAction
        &&& if c == KeyCode::Char(' ') {
            t == AppStateView { details_focus: false, status_message: "Model list focus restored."@, ..s }
        } else if c == KeyCode::Esc {
            t == AppStateView { details_focus: false, status_message: "Details focus disabled."@, ..s }
        } else if c == KeyCode::Up || (c == KeyCode::Char('u') && key.ctrl) {
            t == AppStateView { model_details_scroll: s.model_details_scroll.saturating_sub(1), ..s }
        } else if c == KeyCode::Down || (c == KeyCode::Char('d') && key.ctrl) {
            t == AppStateView { model_details_scroll: s.model_details_scroll.saturating_add(1), ..s }
        } else if c == KeyCode::PageUp {
            t == AppStateView { model_details_scroll: s.model_details_scroll.saturating_sub(4), ..s }
        } else if c == KeyCode::PageDown {
            t == AppStateView { model_details_scroll: s.model_details_scroll.saturating_add(4), ..s }
        } else {
            t == AppStateView {
                status_message: "Details focus active. Press Space to return to model list."@,
                ..s
            }
        }
    }
}

/// Browse mode: moving through the list and opening the other modes.
pub open spec fn browse_step(s: AppStateView, key: Key, t: AppStateView, r: AppAction) -> bool {
    let c = key.code;
    if s.details_focus {
        details_step(s, key, t, r)
    } else if c == KeyCode::Char('q') || (c == KeyCode::Esc && s.search_query.len() == 0) {
        r is Cancelled && t == s
    } else if c == KeyCode::Char('r') && !s.catalog_refreshing {
        r is RefreshCatalog && t == AppStateView {
            catalog_refreshing: true,
            status_message: "Refreshing catalog in the background..."@,
            ..s
        }
    } else {
        &&& r is NoAction
        &&& if c == KeyCode::Char('r') {
            t == AppStateView { status_message: "Catalog refresh already running."@, ..s }
        } else if c == KeyCode::Char(' ') {
            t == AppStateView {
                details_focus: true,
                status_message: "Details focus enabled: Up/Down scroll details, Space to return."@,
                ..s
            }
        } else if c == KeyCode::Up && s.selected_model_index > 0 {
            t == AppStateView { selected_model_index: (s.selected_model_index - 1) as usize, model_details_scroll: 0, ..s }
        } else if c == KeyCode::Down && s.selected_model_index + 1 < s.models.len() {
            t == AppStateView { selected_model_index: (s.selected_model_index + 1) as usize, model_details_scroll: 0, ..s }
        } else if c == KeyCode::Char('b') {
            rebuilt_then(
                AppStateView { backend_index: ((s.backend_index + 1) % (s.backend_choices.len() as int)) as usize, ..s },
                t,
                s.mode,
                "Backend switched to "@ + t.backend_choices[t.backend_index as int].label@ + "."@,
            )
        } else if c == KeyCode::Char('x') {
            if s.search_query.len() == 0 {
                t == AppStateView { status_message: "No active search filter."@, ..s }
            } else {
                search_cleared(s, t)
            }
        } else if c == KeyCode::Char('/') {
            t == AppStateView {
                search_input: s.search_query,
                mode: WizardMode::Search,
                status_message: "Search mode: type and press Enter."@,
                ..s
            }
        } else if c == KeyCode::Char('f') || c == KeyCode::Char('c') {
            t == AppStateView {
                category_picker_index: category_index(s),
                mode: WizardMode::CategoryPicker,
                status_message: "Category filter opened."@,
                ..s
            }
        } else if c == KeyCode::Char('s') {
            t == AppStateView {
                size_picker_index: size_index(s.size_filter),
                mode: WizardMode::SizePicker,
                status_message: "Size filter opened."@,
                ..s
            }
        } else if c == KeyCode::Enter {
            if s.models.len() == 0 {
                t == AppStateView { status_message: "No model matches current filters."@, ..s }
            } else {
                t == AppStateView {
                    mode: WizardMode::PortInput,
                    status_message: "Enter API port, then press Enter."@,
                    ..s
                }
            }
        } else if c == KeyCode::Esc {
            search_cleared(s, t)
        } else {
            t == s
        }
    }
}

/// Search mode: editing the query, applying it with Enter.
pub open spec fn search_step(s: AppStateView, key: Key, t: AppStateView, r: AppAction) -> bool {
    let c = key.code;
    &&& r is NoAction
    &&& if c == KeyCode::Esc {
        t == AppStateView { mode: WizardMode::Browse, status_message: "Search cancelled."@, ..s }
    } else if c == KeyCode::Enter {
        let q = trim(s.search_input);
        rebuilt_then(
            AppStateView { search_query: q, ..s },
            t,
            WizardMode::Browse,
            if q.len() == 0 { "Search cleared."@ } else { "Search applied: "@ + q },
        )
    } else if c == KeyCode::Backspace {
        t == AppStateView { search_input: popped(s.search_input), ..s }
    } else if c is Char && !key.ctrl {
        t == AppStateView { search_input: s.search_input.push(c->0), ..s }
    } else {
        t == s
    }
}

/// The category picker.
pub open spec fn category_step(s: AppStateView, key: Key, t: AppStateView, r: AppAction) -> bool {
    let c = key.code;
    let i = s.category_picker_index;
    &&& r is NoAction
    &&& if c == KeyCode::Esc {
        t == AppStateView { mode: WizardMode::Browse, status_message: "Category filter unchanged."@, ..s }
    } else if c == KeyCode::Up && i > 0 {
        t == AppStateView { category_picker_index: (i - 1) as usize, ..s }
    } else if c == KeyCode::Down && i + 1 < s.category_options.len() {
        t == AppStateView { category_picker_index: (i + 1) as usize, ..s }
    } else if c == KeyCode::Enter {
        let chosen = s.category_options[i as int];
        rebuilt_then(
            AppStateView { selected_category: if chosen == "all"@ { None } else { Some(chosen) }, ..s },
            t,
            WizardMode::Browse,
            "Category filter: "@ + chosen,
        )
    } else {
        t == s
    }
}

/// The size picker.
pub open spec fn size_step(s: AppStateView, key: Key, t: AppStateView, r: AppAction) -> bool {
    let c = key.code;
    let i = s.size_picker_index;
    &&& r is NoAction
    &&& if c == KeyCode::Esc {
        t == AppStateView { mode: WizardMode::Browse, status_message: "Size filter unchanged."@, ..s }
    } else if c == KeyCode::Up && i > 0 {
        t == AppStateView { size_picker_index: (i - 1) as usize, ..s }
    } else if c == KeyCode::Down && i + 1 < 4 {
        t == AppStateView { size_picker_index: (i + 1) as usize, ..s }
    } else if c == KeyCode::Enter {
        let chosen = size_filters()[i as int];
        rebuilt_then(
            AppStateView { size_filter: chosen, ..s },
            t,
            WizardMode::Browse,
            "Size filter: "@ + size_label(chosen),
        )
    } else {
        t == s
    }
}

/// Typing the port: at most five digits (counted in bytes), accepted
/// once it parses as a port.
pub open spec fn port_step(s: AppStateView, key: Key, t: AppStateView, r: AppAction) -> bool {
    let c = key.code;
    &&& r is NoAction
    &&& if c == KeyCode::Esc {
        t == AppStateView { mode: WizardMode::Browse, status_message: "Port input cancelled."@, ..s }
    } else if c == KeyCode::Backspace {
        t == AppStateView { port_input: popped(s.port_input), ..s }
    } else if c is Char && is_ascii_digit(c->0) && byte_len(s.port_input) < 5 {
        t == AppStateView { port_input: s.port_input.push(c->0), ..s }
    } else if c == KeyCode::Enter {
        if spec_parse_port(s.port_input) is Some {
            t == AppStateView {
                mode: WizardMode::ApiKeyInput,
                status_message: "Set API key or leave empty for local-key."@,
                ..s
            }
        } else {
            t == AppStateView {
                status_message: "Invalid port. Please enter a value between 1 and 65535."@,
                ..s
            }
        }
    } else {
        t == s
    }
}

/// Typing the API key; an empty key becomes `local-key`.
pub open spec fn api_key_step(s: AppStateView, key: Key, t: AppStateView, r: AppAction) -> bool {
    let c = key.code;
    &&& r is NoAction
    &&& if c == KeyCode::Esc {
        t == AppStateView { mode: WizardMode::PortInput, status_message: "Back to port configuration."@, ..s }
    } else if c == KeyCode::Backspace {
        t == AppStateView { api_key_input: popped(s.api_key_input), ..s }
    } else if c == KeyCode::Enter {
        t == AppStateView {
            api_key_input: if trim(s.api_key_input).len() == 0 { "local-key"@ } else { s.api_key_input },
            mode: WizardMode::Confirm,
            status_message: "Review and confirm launch."@,
            ..s
        }
    } else if c == KeyCode::Char('g') && key.ctrl {
        t == AppStateView {
            api_key_input: "local-key"@,
            status_message: "API key generated (local-key). Press Enter to continue."@,
            ..s
        }
    } else if c is Char && !key.ctrl {
        t == AppStateView { api_key_input: s.api_key_input.push(c->0), ..s }
    } else {
        t == s
    }
}

/// The launch choices a state confirms: backend id, model id, port and
/// API key (trimmed, `local-key` when empty); none without a selected row
/// or a valid port.
pub open spec fn spec_result(s: AppStateView) -> Option<(Seq<char>, Seq<char>, u16, Seq<char>)> {
    if s.selected_model_index < s.models.len() && spec_parse_port(s.port_input) is Some {
        let key = trim(s.api_key_input);
        Some((
            backend_id(s),
            s.models[s.selected_model_index as int].model.id,
            spec_parse_port(s.port_input)->0,
            if key.len() == 0 { "local-key"@ } else { key },
        ))
    } else {
        None
    }
}

pub open spec fn result_view(r: SelectorResult) -> (Seq<char>, Seq<char>, u16, Seq<char>) {
    (r.backend@, r.model_id@, r.port, r.api_key@)
}

/// The confirmation screen.
pub open spec fn confirm_step(s: AppStateView, key: Key, t: AppStateView, r: AppAction) -> bool {
    let c = key.code;
    if c == KeyCode::Char('q') {
        r is Cancelled && t == s
    } else if c == KeyCode::Enter && spec_result(s) is Some {
        t == s && (r matches AppAction::Confirmed(res) && result_view(res) == spec_result(s)->0)
    } else {
        &&& r is NoAction
        &&& if c == KeyCode::Esc {
            t == AppStateView {
                mode: WizardMode::Browse,
                status_message: "Confirmation cancelled. You can adjust selections."@,
                ..s
            }
        } else if c == KeyCode::Enter {
            t == AppStateView { status_message: "Unable to launch: invalid selections."@, ..s }
        } else {
            t == s
        }
    }
}

/// What one key press does, by mode.
pub open spec fn key_step(s: AppStateView, key: Key, t: AppStateView, r: AppAction) -> bool {
    match s.mode {
        WizardMode::Browse => browse_step(s, key, t, r),
        WizardMode::Search => search_step(s, key, t, r),
        WizardMode::CategoryPicker => category_step(s, key, t, r),
        WizardMode::SizePicker => size_step(s, key, t, r),
        WizardMode::PortInput => port_step(s, key, t, r),
        WizardMode::ApiKeyInput => api_key_step(s, key, t, r),
        WizardMode::Confirm => confirm_step(s, key, t, r),
    }
}


/// `s` without its last character, if any (what `String::pop` leaves).
fn without_last(s: &str) -> (r: String)
    ensures
        r@ == popped(s@),
{
    let v = chars_of(s);
    if v.len() > 0 {
        assert(v@.subrange(0, v.len() - 1) =~= v@.drop_last());
        string_of(&sub_chars(&v, 0, v.len() - 1))
    } else {
        s.to_owned()
    }
}

/// `s` with one more character at the end.
fn pushed(s: &str, ch: char) -> (r: String)
    ensures
        r@ == s@.push(ch),
{
    let mut t = s.to_owned();
    t.push(ch);
    t
}

fn message(parts: &str, tail: &str) -> (r: String)
    ensures
        r@ == parts@ + tail@,
{
    let mut m = parts.to_owned();
    push_str(&mut m, tail);
    m
}

impl AppState {
    fn current_backend_id(&self) -> (r: &'static str)
        requires
            self.backend_index < self.backend_choices.len(),
        ensures
            r@ == backend_id(self@),
    {
        self.backend_choices[self.backend_index].id
    }

    fn clear_search(&mut self)
        requires
            old(self).backend_index < old(self).backend_choices.len(),
        ensures
            search_cleared(old(self)@, final(self)@),
    {
        self.search_query = String::new();
        self.search_input = String::new();
        self.rebuild_models(None);
        self.status_message = "Search cleared, back to full list.".to_owned();
    }

    fn handle_details_key(&mut self, key: Key) -> (r: AppAction)
        requires
            old(self).details_focus,
        ensures
            details_step(old(self)@, key, final(self)@, r),
    {
        match key.code {
            KeyCode::Char(' ') => {
                self.details_focus = false;
                self.status_message = "Model list focus restored.".to_owned();
            },
            KeyCode::Esc => {
                self.details_focus = false;
                self.status_message = "Details focus disabled.".to_owned();
            },
            KeyCode::Char('q') => {
                return AppAction::Cancelled;
            },
            KeyCode::Up => {
                self.model_details_scroll = self.model_details_scroll.saturating_sub(1);
            },
            KeyCode::Down => {
                self.model_details_scroll = self.model_details_scroll.saturating_add(1);
            },
            KeyCode::PageUp => {
                self.model_details_scroll = self.model_details_scroll.saturating_sub(4);
            },
            KeyCode::PageDown => {
                self.model_details_scroll = self.model_details_scroll.saturating_add(4);
            },
            KeyCode::Char('u') if key.ctrl => {
                self.model_details_scroll = self.model_details_scroll.saturating_sub(1);
            },
            KeyCode::Char('d') if key.ctrl => {
                self.model_details_scroll = self.model_details_scroll.saturating_add(1);
            },
            _ => {
                self.status_message = "Details focus active. Press Space to return to model list.".to_owned();
            },
        }
        AppAction::NoAction
    }

    fn handle_browse_key(&mut self, key: Key) -> (r: AppAction)
        requires
            wf(old(self)@),
        ensures
            browse_step(old(self)@, key, final(self)@, r),
    {
        if self.details_focus {
            return self.handle_details_key(key);
        }
        match key.code {
            KeyCode::Char(' ') => {
                self.details_focus = true;
                self.status_message = "Details focus enabled: Up/Down scroll details, Space to return.".to_owned();
            },
            KeyCode::Up if self.selected_model_index > 0 => {
                self.selected_model_index = self.selected_model_index - 1;
                self.model_details_scroll = 0;
            },
            KeyCode::Down if self.selected_model_index < self.models.len() && self.selected_model_index + 1 < self.models.len() => {
                self.selected_model_index = self.selected_model_index + 1;
                self.model_details_scroll = 0;
            },
            KeyCode::Char('b') => {
                assert(self.backend_index < self.backend_choices.len());
                self.backend_index = (self.backend_index + 1) % self.backend_choices.len();
                self.rebuild_models(None);
                let label = self.backend_choices[self.backend_index].label;
                let mut m = message("Backend switched to ", label);
                push_str(&mut m, ".");
                self.status_message = m;
            },
            KeyCode::Char('x') => {
                if self.search_query.as_str().is_empty() {
                    self.status_message = "No active search filter.".to_owned();
                } else {
                    self.clear_search();
                }
            },
            KeyCode::Char('/') => {
                self.search_input = self.search_query.clone();
                self.mode = WizardMode::Search;
                self.status_message = "Search mode: type and press Enter.".to_owned();
            },
            KeyCode::Char('f') | KeyCode::Char('c') => {
                self.category_picker_index = self.category_position();
                self.mode = WizardMode::CategoryPicker;
                self.status_message = "Category filter opened.".to_owned();
            },
            KeyCode::Char('s') => {
                self.size_picker_index = match self.size_filter {
                    SizeFilter::All => 0,
                    SizeFilter::UpTo8B => 1,
                    SizeFilter::UpTo14B => 2,
                    SizeFilter::UpTo32B => 3,
                };
                self.mode = WizardMode::SizePicker;
                self.status_message = "Size filter opened.".to_owned();
            },
            KeyCode::Enter => {
                if self.models.len() == 0 {
                    self.status_message = "No model matches current filters.".to_owned();
                } else {
                    self.mode = WizardMode::PortInput;
                    self.status_message = "Enter API port, then press Enter.".to_owned();
                }
            },
            KeyCode::Esc => {
                if self.search_query.as_str().is_empty() {
                    return AppAction::Cancelled;
                }
                self.clear_search();
            },
            KeyCode::Char('q') => {
                return AppAction::Cancelled;
            },
            KeyCode::Char('r') => {
                if self.catalog_refreshing {
                    self.status_message = "Catalog refresh already running.".to_owned();
                } else {
                    self.catalog_refreshing = true;
                    self.status_message = "Refreshing catalog in the background...".to_owned();
                    return AppAction::RefreshCatalog;
                }
            },
            _ => {},
        }
        AppAction::NoAction
    }

    fn category_position(&self) -> (r: usize)
        ensures
            r == category_index(self@),
    {
        match &self.selected_category {
            Some(selected) => {
                let ghost ids = views(self.category_options@);
                let mut j: usize = 0;
                while j < self.category_options.len()
                    invariant
                        j <= self.category_options.len(),
                        ids == views(self.category_options@),
                        self.selected_category == Some(*selected),
                        forall|k: int| 0 <= k < j ==> #[trigger] ids[k] != selected@,
                    decreases self.category_options.len() - j,
                {
                    assert(ids[j as int] == self.category_options@[j as int]@);
                    if self.category_options[j] == *selected {
                        proof {
                            lemma_index_of_at(ids, selected@, j as int);
                            assert(index_of(self@.category_options, selected@) == j);
                        }
                        return j;
                    }
                    j = j + 1;
                }
                proof {
                    lemma_index_of_at(ids, selected@, ids.len() as int);
                }
                0
            },
            None => 0,
        }
    }
}


impl AppState {
    fn handle_search_key(&mut self, key: Key) -> (r: AppAction)
        requires
            wf(old(self)@),
        ensures
            search_step(old(self)@, key, final(self)@, r),
    {
        let code = key.code;
        match code {
            KeyCode::Esc => {
                self.mode = WizardMode::Browse;
                self.status_message = "Search cancelled.".to_owned();
            },
            KeyCode::Enter => {
                self.search_query = trim_str(self.search_input.as_str());
                self.rebuild_models(None);
                self.mode = WizardMode::Browse;
                self.status_message = if self.search_query.as_str().is_empty() {
                    "Search cleared.".to_owned()
                } else {
                    message("Search applied: ", self.search_query.as_str())
                };
            },
            KeyCode::Backspace => {
                self.search_input = without_last(self.search_input.as_str());
            },
            KeyCode::Char(ch) => {
                if !key.ctrl {
                    self.search_input = pushed(self.search_input.as_str(), ch);
                }
            },
            _ => {},
        }
        AppAction::NoAction
    }

    fn handle_category_picker_key(&mut self, key: Key) -> (r: AppAction)
        requires
            wf(old(self)@),
        ensures
            category_step(old(self)@, key, final(self)@, r),
    {
        match key.code {
            KeyCode::Esc => {
                self.mode = WizardMode::Browse;
                self.status_message = "Category filter unchanged.".to_owned();
            },
            KeyCode::Up => {
                if self.category_picker_index > 0 {
                    self.category_picker_index = self.category_picker_index - 1;
                }
            },
            KeyCode::Down => {
                if self.category_picker_index < self.category_options.len()
                    && self.category_picker_index + 1 < self.category_options.len() {
                    self.category_picker_index = self.category_picker_index + 1;
                }
            },
            KeyCode::Enter => {
                let selected = self.category_options[self.category_picker_index].clone();
                proof {
                    reveal_strlit("all");
                }
                self.selected_category = if crate::text::str_eq(selected.as_str(), "all") {
                    None
                } else {
                    Some(selected.clone())
                };
                self.rebuild_models(None);
                self.mode = WizardMode::Browse;
                self.status_message = message("Category filter: ", selected.as_str());
            },
            _ => {},
        }
        AppAction::NoAction
    }

    fn handle_size_picker_key(&mut self, key: Key) -> (r: AppAction)
        requires
            wf(old(self)@),
        ensures
            size_step(old(self)@, key, final(self)@, r),
    {
        let options = SizeFilter::all();
        match key.code {
            KeyCode::Esc => {
                self.mode = WizardMode::Browse;
                self.status_message = "Size filter unchanged.".to_owned();
            },
            KeyCode::Up if self.size_picker_index > 0 => {
                self.size_picker_index = self.size_picker_index - 1;
            },
            KeyCode::Down if self.size_picker_index + 1 < 4 => {
                self.size_picker_index = self.size_picker_index + 1;
            },
            KeyCode::Enter => {
                self.size_filter = options[self.size_picker_index];
                self.rebuild_models(None);
                self.mode = WizardMode::Browse;
                self.status_message = message("Size filter: ", self.size_filter.label());
            },
            _ => {},
        }
        AppAction::NoAction
    }

    fn handle_port_input_key(&mut self, key: Key) -> (r: AppAction)
        ensures
            port_step(old(self)@, key, final(self)@, r),
    {
        match key.code {
            KeyCode::Esc => {
                self.mode = WizardMode::Browse;
                self.status_message = "Port input cancelled.".to_owned();
            },
            KeyCode::Backspace => {
                self.port_input = without_last(self.port_input.as_str());
            },
            KeyCode::Char(ch) => {
                if crate::text::char_is_ascii_digit(ch) && self.port_input.as_str().len() < 5 {
                    self.port_input = pushed(self.port_input.as_str(), ch);
                }
            },
            KeyCode::Enter => {
                if parse_port(self.port_input.as_str()).is_some() {
                    self.mode = WizardMode::ApiKeyInput;
                    self.status_message = "Set API key or leave empty for local-key.".to_owned();
                } else {
                    self.status_message = "Invalid port. Please enter a value between 1 and 65535.".to_owned();
                }
            },
            _ => {},
        }
        AppAction::NoAction
    }

    fn handle_api_key_input_key(&mut self, key: Key) -> (r: AppAction)
        ensures
            api_key_step(old(self)@, key, final(self)@, r),
    {
        match key.code {
            KeyCode::Esc => {
                self.mode = WizardMode::PortInput;
                self.status_message = "Back to port configuration.".to_owned();
            },
            KeyCode::Backspace => {
                self.api_key_input = without_last(self.api_key_input.as_str());
            },
            KeyCode::Enter => {
                if trim_str(self.api_key_input.as_str()).as_str().is_empty() {
                    self.api_key_input = "local-key".to_owned();
                }
                self.mode = WizardMode::Confirm;
                self.status_message = "Review and confirm launch.".to_owned();
            },
            KeyCode::Char(ch) => {
                if key.ctrl {
                    if ch == 'g' {
                        self.api_key_input = "local-key".to_owned();
                        self.status_message = "API key generated (local-key). Press Enter to continue.".to_owned();
                    }
                } else {
                    self.api_key_input = pushed(self.api_key_input.as_str(), ch);
                }
            },
            _ => {},
        }
        AppAction::NoAction
    }

    /// The launch choices, when a row is selected and the port is valid.
    fn build_result(&self) -> (r: Option<SelectorResult>)
        requires
            self.backend_index < self.backend_choices.len(),
        ensures
            match r {
                Some(res) => spec_result(self@) == Some(result_view(res)),
                None => spec_result(self@) is None,
            },
    {
        if self.selected_model_index >= self.models.len() {
            return None;
        }
        let port = match parse_port(self.port_input.as_str()) {
            Some(p) => p,
            None => {
                return None;
            },
        };
        let trimmed = trim_str(self.api_key_input.as_str());
        let api_key = if trimmed.as_str().is_empty() {
            "local-key".to_owned()
        } else {
            trimmed
        };
        Some(
            SelectorResult {
                backend: self.current_backend_id().to_owned(),
                model_id: self.models[self.selected_model_index].id.clone(),
                port,
                api_key,
            },
        )
    }

    fn handle_confirm_key(&mut self, key: Key) -> (r: AppAction)
        requires
            wf(old(self)@),
        ensures
            confirm_step(old(self)@, key, final(self)@, r),
    {
        match key.code {
            KeyCode::Esc => {
                self.mode = WizardMode::Browse;
                self.status_message = "Confirmation cancelled. You can adjust selections.".to_owned();
                AppAction::NoAction
            },
            KeyCode::Char('q') => AppAction::Cancelled,
            KeyCode::Enter => {
                match self.build_result() {
                    Some(result) => AppAction::Confirmed(result),
                    None => {
                        self.status_message = "Unable to launch: invalid selections.".to_owned();
                        AppAction::NoAction
                    },
                }
            },
            _ => AppAction::NoAction,
        }
    }
}


proof fn lemma_push_contains<A>(s: Seq<A>, x: A, c: A)
    ensures
        s.push(x).contains(c) <==> (s.contains(c) || c == x),
{
    if s.contains(c) {
        let i = choose|i: int| 0 <= i < s.len() && s[i] == c;
        assert(s.push(x)[i] == c);
    }
    if c == x {
        assert(s.push(x)[s.len() as int] == c);
    }
    if s.push(x).contains(c) {
        let i = choose|i: int| 0 <= i < s.push(x).len() && s.push(x)[i] == c;
        if i < s.len() {
            assert(s[i] == c);
        }
    }
}

/// Inserts `s` into a strictly sorted vector, unless it is already there.
fn insert_sorted_unique(v: &mut Vec<String>, s: String)
    requires
        strictly_sorted(views(old(v)@)),
    ensures
        strictly_sorted(views(final(v)@)),
        forall|c: Seq<char>| #[trigger] views(final(v)@).contains(c) <==> (views(old(v)@).contains(c) || c == s@),
{
    let sc = chars_of(s.as_str());
    let ghost old_v = views(v@);
    let mut j: usize = 0;
    let mut searching = true;
    while searching && j < v.len()
        invariant
            j <= v.len(),
            v@ == old(v)@,
            old_v == views(v@),
            sc@ == s@,
            forall|k: int| 0 <= k < j ==> lex_lt(#[trigger] old_v[k], s@),
            !searching ==> j < v.len() && !lex_lt(old_v[j as int], s@),
        decreases (v.len() - j) * 2 + if searching { 1int } else { 0int },
    {
        let vc = chars_of(v[j].as_str());
        assert(vc@ == old_v[j as int]);
        if chars_lt(&vc, &sc) {
            j = j + 1;
        } else {
            searching = false;
        }
    }
    if j < v.len() && v[j] == s {
        assert(old_v[j as int] == s@);
        assert forall|c: Seq<char>| #[trigger] views(v@).contains(c) <==> (old_v.contains(c) || c == s@) by {
            if c == s@ {
                assert(old_v[j as int] == c);
            }
        }
        return;
    }
    proof {
        if j < v.len() {
            lemma_lex_total(old_v[j as int], s@);
        }
    }
    let ghost x = s@;
    v.insert(j, s);
    let ghost nv = views(v@);
    assert(nv =~= old_v.insert(j as int, x));
    assert forall|a: int, b: int| 0 <= a < b < nv.len() implies lex_lt(#[trigger] nv[a], #[trigger] nv[b]) by {
        if b < j {
        } else if b == j {
            assert(nv[a] == old_v[a]);
        } else if a < j {
            assert(nv[a] == old_v[a]);
            assert(nv[b] == old_v[b - 1]);
            assert(lex_lt(old_v[a], x));
            lemma_lex_transitive(old_v[a], x, old_v[j as int]);
            if b - 1 > j {
                lemma_lex_transitive(old_v[a], old_v[j as int], old_v[b - 1]);
            }
        } else if a == j {
            assert(nv[b] == old_v[b - 1]);
            if b - 1 > j {
                lemma_lex_transitive(x, old_v[j as int], old_v[b - 1]);
            }
        } else {
            assert(nv[a] == old_v[a - 1]);
            assert(nv[b] == old_v[b - 1]);
        }
    }
    assert forall|c: Seq<char>| #[trigger] nv.contains(c) <==> (old_v.contains(c) || c == x) by {
        if nv.contains(c) {
            let i = choose|i: int| 0 <= i < nv.len() && nv[i] == c;
            if i < j {
                assert(old_v[i] == c);
            } else if i > j {
                assert(old_v[i - 1] == c);
            }
        }
        if old_v.contains(c) {
            let i = choose|i: int| 0 <= i < old_v.len() && old_v[i] == c;
            if i < j {
                assert(nv[i] == c);
            } else {
                assert(nv[i + 1] == c);
            }
        }
        if c == x {
            assert(nv[j as int] == c);
        }
    }
}

/// Every category of every catalog entry, in catalog order, repeats kept.
pub open spec fn catalog_categories(cat: Seq<ModelEntryView>) -> Seq<Seq<char>>
    decreases cat.len(),
{
    if cat.len() == 0 {
        Seq::empty()
    } else {
        catalog_categories(cat.drop_last()) + cat.last().categories
    }
}

/// The category picker's options: `all`, then each catalog category once,
/// sorted.
pub open spec fn category_choices(options: Seq<Seq<char>>, cat: Seq<ModelEntryView>) -> bool {
    &&& options.len() >= 1
    &&& options[0] == "all"@
    &&& strictly_sorted(options.drop_first())
    &&& forall|c: Seq<char>| #[trigger] options.drop_first().contains(c) <==> catalog_categories(cat).contains(c)
}

fn build_category_options(models: &Vec<ModelEntry>) -> (r: Vec<String>)
    ensures
        category_choices(views(r@), entry_views(models@)),
{
    let ghost cat = entry_views(models@);
    let mut cats: Vec<String> = Vec::new();
    let mut i: usize = 0;
    assert(cat.take(0) =~= Seq::<ModelEntryView>::empty());
    while i < models.len()
        invariant
            i <= models.len(),
            cat == entry_views(models@),
            strictly_sorted(views(cats@)),
            forall|c: Seq<char>| #[trigger] views(cats@).contains(c) <==> catalog_categories(cat.take(i as int)).contains(c),
        decreases models.len() - i,
    {
        let ghost prefix = catalog_categories(cat.take(i as int));
        let entry = &models[i];
        let ghost ec = views(entry.categories@);
        let mut k: usize = 0;
        assert(prefix + ec.take(0) =~= prefix);
        while k < entry.categories.len()
            invariant
                k <= entry.categories.len(),
                ec == views(entry.categories@),
                strictly_sorted(views(cats@)),
                forall|c: Seq<char>| #[trigger] views(cats@).contains(c) <==> (prefix + ec.take(k as int)).contains(c),
            decreases entry.categories.len() - k,
        {
            let ghost before = views(cats@);
            let item = entry.categories[k].clone();
            insert_sorted_unique(&mut cats, item);
            proof {
                assert(prefix + ec.take(k + 1) =~= (prefix + ec.take(k as int)).push(ec[k as int]));
                assert forall|c: Seq<char>| #[trigger] views(cats@).contains(c) <==> (prefix + ec.take(k + 1)).contains(c) by {
                    lemma_push_contains(prefix + ec.take(k as int), ec[k as int], c);
                }
            }
            k = k + 1;
        }
        proof {
            assert(ec.take(ec.len() as int) =~= ec);
            assert(cat.take(i + 1).drop_last() =~= cat.take(i as int));
            assert(cat.take(i + 1).last() == entry@);
        }
        i = i + 1;
    }
    assert(cat.take(models.len() as int) =~= cat);
    let ghost sorted = views(cats@);
    cats.insert(0, "all".to_owned());
    assert(views(cats@).drop_first() =~= sorted);
    cats
}


/// The backend ids the selector offers, in order.
pub open spec fn offered_ids() -> Seq<Seq<char>> {
    seq!["vllm"@, "tgi"@, "sglang"@, "llamacpp"@, "ollama"@]
}

/// Their labels.
pub open spec fn offered_labels() -> Seq<Seq<char>> {
    seq!["vLLM"@, "TGI"@, "SGLang"@, "llama.cpp"@, "Ollama"@]
}

pub open spec fn choice_labels(choices: Seq<BackendChoice>) -> Seq<Seq<char>> {
    choices.map_values(|c: BackendChoice| c.label@)
}

/// Whether the backend with this id can run on the machine, and why.
pub open spec fn availability_for(id: Seq<char>, m: MachineSpecs) -> (bool, Seq<char>) {
    match backend_for_name(ascii_lower(id)) {
        Some(b) => b.spec_availability(m),
        None => (false, "Backend unavailable."@),
    }
}

fn availability_of(id: &str, machine: &MachineSpecs) -> (r: BackendAvailability)
    ensures
        (r.available, r.reason@) == availability_for(id@, *machine),
{
    match backend_from_name(id) {
        Some(backend) => backend.is_available(machine),
        None => BackendAvailability::unavailable("Backend unavailable."),
    }
}

impl AppState {
    /// The selector's first state: every backend with its availability,
    /// the configured backend (else the preferred one) selected, the
    /// category options built from the catalog, the list built with the
    /// cursor on the default model when it is listed.
    pub fn new(input: SelectorInput) -> (r: Self)
        ensures
            r.machine == input.machine,
            r.mode == WizardMode::Browse,
            r.status_message@ == "Use arrows to explore models, then press Enter."@,
            r.spinner_tick == 0,
            r.preferred_backend == spec_preferred_backend(input.machine),
            choice_ids(r.backend_choices@) == offered_ids(),
            choice_labels(r.backend_choices@) == offered_labels(),
            r.backend_availability@.len() == 5,
            forall|i: int| 0 <= i < 5 ==> ((#[trigger] r.backend_availability@[i]).available, r.backend_availability@[i].reason@)
                == availability_for(offered_ids()[i], input.machine),
            r.backend_index == spec_backend_index(input.default_backend@, r.preferred_backend, offered_ids()),
            category_choices(r@.category_options, entry_views(input.catalog.models@)),
            r.category_picker_index == 0,
            r.selected_category is None,
            r.size_filter == SizeFilter::All,
            r.size_picker_index == 0,
            r.search_query@.len() == 0,
            r.search_input@.len() == 0,
            r.port_input@ == decimal(input.default_port as nat),
            r.api_key_input@ == input.default_api_key@,
            r.model_details_scroll == 0,
            !r.details_focus,
            r@.catalog == entry_views(input.catalog.models@),
            !r.catalog_refreshing,
            rebuilt(
                AppStateView { models: Seq::empty(), selected_model_index: 0, ..r@ },
                opt_view(input.default_model),
                r@,
            ),
            wf(r@),
            selector_inv(r@),
    {
        let mut backend_choices: Vec<BackendChoice> = Vec::new();
        backend_choices.push(BackendChoice { id: "vllm", label: "vLLM" });
        backend_choices.push(BackendChoice { id: "tgi", label: "TGI" });
        backend_choices.push(BackendChoice { id: "sglang", label: "SGLang" });
        backend_choices.push(BackendChoice { id: "llamacpp", label: "llama.cpp" });
        backend_choices.push(BackendChoice { id: "ollama", label: "Ollama" });
        assert(choice_ids(backend_choices@) =~= offered_ids());
        assert(choice_labels(backend_choices@) =~= offered_labels());

        let mut backend_availability: Vec<BackendAvailability> = Vec::new();
        let mut i: usize = 0;
        while i < backend_choices.len()
            invariant
                i <= backend_choices.len(),
                choice_ids(backend_choices@) == offered_ids(),
                backend_availability@.len() == i,
                forall|k: int| 0 <= k < i ==> ((#[trigger] backend_availability@[k]).available, backend_availability@[k].reason@)
                    == availability_for(offered_ids()[k], input.machine),
            decreases backend_choices.len() - i,
        {
            assert(backend_choices@[i as int].id@ == offered_ids()[i as int]);
            let a = availability_of(backend_choices[i].id, &input.machine);
            backend_availability.push(a);
            i = i + 1;
        }

        let preferred_backend = RecommendationEngine::preferred_backend(&input.machine);
        let backend_index = resolve_backend_index(
            input.default_backend.as_str(),
            preferred_backend,
            backend_choices.as_slice(),
        );
        let category_options = build_category_options(&input.catalog.models);
        let port_input = u64_to_string(input.default_port as u64);
        let default_model = input.default_model;
        let mut app = AppState {
            machine: input.machine,
            mode: WizardMode::Browse,
            status_message: "Use arrows to explore models, then press Enter.".to_owned(),
            spinner_tick: 0,
            preferred_backend,
            backend_choices,
            backend_availability,
            backend_index,
            models: Vec::new(),
            selected_model_index: 0,
            search_query: String::new(),
            search_input: String::new(),
            category_options,
            category_picker_index: 0,
            selected_category: None,
            size_filter: SizeFilter::All,
            size_picker_index: 0,
            port_input,
            api_key_input: input.default_api_key,
            model_details_scroll: 0,
            details_focus: false,
            catalog: input.catalog,
            catalog_refreshing: false,
        };
        proof {
            let ids = choice_ids(app.backend_choices@);
            assert(spec_backend_index(input.default_backend@, preferred_backend, ids) < 5) by {
                crate::selector::lemma_backend_index_in_range(input.default_backend@, preferred_backend, ids);
            }
            assert(item_views(app.models@) =~= Seq::<ModelItemView>::empty());
        }
        let ghost before = app@;
        match &default_model {
            Some(m) => app.rebuild_models(Some(m.as_str())),
            None => app.rebuild_models(None),
        }
        proof {
            assert(before == AppStateView { models: Seq::empty(), selected_model_index: 0, ..app@ });
        }
        app
    }

    /// Advances the spinner, wrapping around.
    pub fn on_tick(&mut self)
        ensures
            final(self)@ == (AppStateView {
                spinner_tick: if old(self).spinner_tick == usize::MAX { 0 } else { (old(self).spinner_tick + 1) as usize },
                ..old(self)@
            }),
    {
        self.spinner_tick = if self.spinner_tick == usize::MAX { 0 } else { self.spinner_tick + 1 };
    }

    pub fn current_backend(&self) -> (r: BackendChoice)
        requires
            self.backend_index < self.backend_choices.len(),
        ensures
            r == self.backend_choices@[self.backend_index as int],
    {
        self.backend_choices[self.backend_index]
    }

    pub fn current_backend_availability(&self) -> (r: &BackendAvailability)
        requires
            self.backend_index < self.backend_availability.len(),
        ensures
            *r == self.backend_availability@[self.backend_index as int],
    {
        &self.backend_availability[self.backend_index]
    }

    pub fn selected_model(&self) -> (r: Option<&ModelItem>)
        ensures
            match r {
                Some(m) => self.selected_model_index < self.models.len() && *m == self.models@[self.selected_model_index as int],
                None => self.selected_model_index >= self.models.len(),
            },
    {
        if self.selected_model_index < self.models.len() {
            Some(&self.models[self.selected_model_index])
        } else {
            None
        }
    }

    /// The Hugging Face page of the selected model.
    pub fn selected_model_hf_url(&self) -> (r: Option<String>)
        ensures
            match r {
                Some(u) => selected_id(self@) is Some && u@ == "https://hf.co/"@ + selected_id(self@)->0,
                None => selected_id(self@) is None,
            },
    {
        match self.selected_model() {
            Some(model) => Some(message("https://hf.co/", model.id.as_str())),
            None => None,
        }
    }

    pub fn category_label(&self) -> (r: &str)
        ensures
            r@ == match self@.selected_category {
                Some(c) => c,
                None => "all"@,
            },
    {
        match &self.selected_category {
            Some(c) => c.as_str(),
            None => "all",
        }
    }

    pub fn size_label(&self) -> (r: &'static str)
        ensures
            r@ == size_label(self.size_filter),
    {
        self.size_filter.label()
    }

    /// Whether Gaia prefers the backend with this id on this machine.
    pub fn is_backend_preferred(&self, backend_id: &str) -> (r: bool)
        ensures
            r == (crate::selector::preferred_name(self.preferred_backend) == Some(backend_id@)),
    {
        match self.preferred_backend.as_str() {
            Some(preferred) => crate::text::str_eq(preferred, backend_id),
            None => false,
        }
    }

    /// Takes the outcome of a background catalog refresh: a new catalog
    /// replaces the old one, with the category options and the list rebuilt
    /// (the category picker back on `all`); a failure is reported. Either
    /// way no refresh is under way afterwards.
    pub fn apply_catalog_refresh(&mut self, refreshed: Result<ModelCatalog, String>)
        requires
            wf(old(self)@),
        ensures
            refresh_applied(
                old(self)@,
                match refreshed {
                    Ok(c) => Ok(entry_views(c.models@)),
                    Err(m) => Err(m@),
                },
                final(self)@,
            ),
            wf(final(self)@),
    {
        match refreshed {
            Ok(catalog) => {
                let count = catalog.models.len();
                self.category_options = build_category_options(&catalog.models);
                self.category_picker_index = 0;
                self.catalog = catalog;
                self.catalog_refreshing = false;
                let ghost mid = self@;
                self.rebuild_models(None);
                let mut m = message("Catalog refreshed: ", u64_to_string(count as u64).as_str());
                push_str(&mut m, " models.");
                self.status_message = m;
                proof {
                    lemma_rebuilt_then_wf(mid, self@, mid.mode, self@.status_message);
                }
            },
            Err(e) => {
                self.catalog_refreshing = false;
                self.status_message = message("Catalog refresh failed: ", e.as_str());
            },
        }
    }

    /// Applies one key press; says whether to keep going, quit, or launch.
    pub fn handle_key(&mut self, key: Key) -> (r: AppAction)
        requires
            wf(old(self)@),
        ensures
            key_step(old(self)@, key, final(self)@, r),
            wf(final(self)@),
    {
        let r = match self.mode {
            WizardMode::Browse => self.handle_browse_key(key),
            WizardMode::Search => self.handle_search_key(key),
            WizardMode::CategoryPicker => self.handle_category_picker_key(key),
            WizardMode::SizePicker => self.handle_size_picker_key(key),
            WizardMode::PortInput => self.handle_port_input_key(key),
            WizardMode::ApiKeyInput => self.handle_api_key_input_key(key),
            WizardMode::Confirm => self.handle_confirm_key(key),
        };
        proof {
            lemma_step_keeps_wf(old(self)@, key, self@, r);
        }
        r
    }
}

/// The state after a finished background refresh (see
/// `AppState::apply_catalog_refresh`).
pub open spec fn refresh_applied(s: AppStateView, refreshed: Result<Seq<ModelEntryView>, Seq<char>>, t: AppStateView) -> bool {
    match refreshed {
        Ok(cat) => {
            &&& category_choices(t.category_options, cat)
            &&& rebuilt_then(
                AppStateView {
                    catalog: cat,
                    category_options: t.category_options,
                    category_picker_index: 0,
                    catalog_refreshing: false,
                    ..s
                },
                t,
                s.mode,
                "Catalog refreshed: "@ + decimal(cat.len()) + " models."@,
            )
        },
        Err(m) => t == AppStateView {
            catalog_refreshing: false,
            status_message: "Catalog refresh failed: "@ + m,
            ..s
        },
    }
}

/// The model list is a function of the machine, the catalog, the backend
/// and the filters (category, size, search up to case): rebuilding from two
/// states that agree on these gives the same list. So clearing a search, or
/// switching a filter back, shows again the list shown before.
pub proof fn lemma_listing_depends_only_on_filters(
    s1: AppStateView,
    p1: Option<Seq<char>>,
    m1: Seq<ModelItemView>,
    sel1: int,
    s2: AppStateView,
    p2: Option<Seq<char>>,
    m2: Seq<ModelItemView>,
    sel2: int,
)
    requires
        relisted(s1, p1, m1, sel1),
        relisted(s2, p2, m2, sel2),
        s1.machine == s2.machine,
        s1.catalog == s2.catalog,
        backend_id(s1) == backend_id(s2),
        s1.selected_category == s2.selected_category,
        s1.size_filter == s2.size_filter,
        unicode_lowercase(s1.search_query) == unicode_lowercase(s2.search_query),
    ensures
        m1 == m2,
{
    let r1 = choose|recs: Seq<RecView>|
        #[trigger] sorted_recommendations(recs, s1.machine, s1.catalog, backend_id(s1)) && m1 == listing(
            recs,
            s1.selected_category,
            s1.size_filter,
            unicode_lowercase(s1.search_query),
            0,
        );
    let r2 = choose|recs: Seq<RecView>|
        #[trigger] sorted_recommendations(recs, s2.machine, s2.catalog, backend_id(s2)) && m2 == listing(
            recs,
            s2.selected_category,
            s2.size_filter,
            unicode_lowercase(s2.search_query),
            0,
        );
    let u = unranked(s1.machine, s1.catalog, Some(backend_id(s1)));
    assert forall|k: (u8, u32)| #[trigger] with_key(r1, k) == with_key(r2, k) by {
        assert(with_key(r1, k) == with_key(u, k));
        assert(with_key(r2, k) == with_key(u, k));
    }
    crate::recommendation::lemma_ranking_is_unique(r1, r2);
}

/// Every key press keeps the cursors inside their lists.
pub proof fn lemma_step_keeps_wf(s: AppStateView, key: Key, t: AppStateView, r: AppAction)
    requires
        wf(s),
        key_step(s, key, t, r),
    ensures
        wf(t),
{
    let c = key.code;
    match s.mode {
        WizardMode::Browse => {
            if !s.details_focus && c == KeyCode::Char('b') {
                let mid = AppStateView { backend_index: ((s.backend_index + 1) % (s.backend_choices.len() as int)) as usize, ..s };
                assert(mid.backend_index < mid.backend_choices.len());
                lemma_rebuilt_then_wf(mid, t, s.mode, t.status_message);
            } else if !s.details_focus && (c == KeyCode::Char('x') || c == KeyCode::Esc) && s.search_query.len() > 0 {
                lemma_rebuilt_then_wf(AppStateView { search_query: Seq::empty(), search_input: Seq::empty(), ..s }, t, s.mode, t.status_message);
            } else if !s.details_focus && (c == KeyCode::Char('f') || c == KeyCode::Char('c')) {
                if s.selected_category is Some {
                    crate::selector::lemma_index_of_nonneg(s.category_options, s.selected_category->0);
                }
                assert(category_index(s) < s.category_options.len());
            } else if !s.details_focus && c == KeyCode::Down && s.selected_model_index + 1 < s.models.len() {
                assert(t.selected_model_index < t.models.len());
            } else if !s.details_focus && c == KeyCode::Up && s.selected_model_index > 0 {
                assert(t.selected_model_index < t.models.len());
            }
        },
        WizardMode::Search => {
            if c == KeyCode::Enter {
                lemma_rebuilt_then_wf(AppStateView { search_query: trim(s.search_input), ..s }, t, WizardMode::Browse, t.status_message);
            }
        },
        WizardMode::CategoryPicker => {
            if c == KeyCode::Enter {
                let chosen = s.category_options[s.category_picker_index as int];
                lemma_rebuilt_then_wf(
                    AppStateView { selected_category: if chosen == "all"@ { None } else { Some(chosen) }, ..s },
                    t, WizardMode::Browse, t.status_message,
                );
            }
        },
        WizardMode::SizePicker => {
            if c == KeyCode::Enter {
                lemma_rebuilt_then_wf(AppStateView { size_filter: size_filters()[s.size_picker_index as int], ..s }, t, WizardMode::Browse, t.status_message);
            }
        },
        _ => {},
    }
}

proof fn lemma_rebuilt_then_wf(mid: AppStateView, t: AppStateView, mode: WizardMode, status: Seq<char>)
    requires
        wf(mid),
        rebuilt_then(mid, t, mode, status),
    ensures
        wf(t),
{
    let u = AppStateView { mode: mid.mode, status_message: mid.status_message, ..t };
    assert(u.models.len() == 0 ==> u.selected_model_index == 0);
    assert(u.models.len() > 0 ==> u.selected_model_index < u.models.len());
}

/// The selector's invariant in every state it reaches: five backends with
/// the cursor on one of them, the category and size pickers on an option,
/// and the model cursor on a listed model (on the first place when none is
/// listed).
pub open spec fn selector_inv(s: AppStateView) -> bool {
    &&& wf(s)
    &&& s.backend_choices.len() == 5
}

/// Every key press keeps the selector's invariant, with the backends and
/// the category options unchanged.
pub proof fn lemma_step_keeps_selector_inv(s: AppStateView, key: Key, t: AppStateView, r: AppAction)
    requires
        selector_inv(s),
        key_step(s, key, t, r),
    ensures
        selector_inv(t),
        t.backend_choices == s.backend_choices,
        t.category_options == s.category_options,
{
    lemma_step_keeps_wf(s, key, t, r);
    lemma_step_keeps_setup(s, key, t, r);
}

/// A key press never changes the machine, the catalog, the backends on
/// offer or what Gaia prefers.
pub proof fn lemma_step_keeps_setup(s: AppStateView, key: Key, t: AppStateView, r: AppAction)
    requires
        key_step(s, key, t, r),
    ensures
        t.machine == s.machine,
        t.catalog == s.catalog,
        t.backend_choices == s.backend_choices,
        t.backend_availability == s.backend_availability,
        t.preferred_backend == s.preferred_backend,
        t.category_options == s.category_options,
{
}

/// A confirmed launch always names a listed model, a port from 1 to
/// 65535 and a non-empty API key, and leaves the state as it was.
pub proof fn lemma_confirmed_launch_is_valid(s: AppStateView, key: Key, t: AppStateView, r: AppAction)
    requires
        key_step(s, key, t, r),
        r is Confirmed,
    ensures
        t == s,
        s.mode == WizardMode::Confirm,
        result_view(r->0).2 >= 1,
        result_view(r->0).3.len() > 0,
        item_ids(s.models).contains(result_view(r->0).1),
{
    reveal_strlit("local-key");
    let i = s.selected_model_index as int;
    assert(item_ids(s.models)[i] == s.models[i].model.id);
}

} // verus!
