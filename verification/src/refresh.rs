//! Refreshing the catalog from the Hugging Face API: options, progress,
//! the report, the model-id list and the request URLs. The HTTP calls
//! themselves are made by the caller.

use vstd::prelude::*;

use crate::config::opt_view;
use crate::hf_catalog::{
    is_text_generation_model, normal_pipeline_view, normal_tags, opt_views, spec_is_text_generation, GatedField,
    HfModelMeta,
};
use crate::mock_api::{get, get_str, json_get, json_str, Json};
use crate::model_catalog::{entry_views, ModelEntry, ModelEntryView};
use crate::order::{chars_lt, lemma_lex_asymmetric, lemma_lex_irreflexive, lemma_lex_total, lemma_lex_transitive, lex_lt};
use crate::recommendation::{lemma_filter_none, lemma_filter_push};
use crate::text::{chars_of, decimal, push_str, to_lowercase, trim, trim_str, u64_to_string, unicode_lowercase, views};

verus! {

#[derive(Debug, Clone, Copy, PartialEq, Eq, Structural)]
pub enum DiscoverSort {
    Trending,
    Downloads,
}

impl DiscoverSort {
    /// The API's name for the sort order.
    pub fn api_field(self) -> (r: &'static str)
        ensures
            r@ == match self {
                DiscoverSort::Trending => "trendingScore"@,
                DiscoverSort::Downloads => "downloads"@,
            },
    {
        match self {
            DiscoverSort::Trending => "trendingScore",
            DiscoverSort::Downloads => "downloads",
        }
    }
}

#[derive(Debug, Clone)]
pub struct RefreshOptions {
    /// Model ids to refresh (typically the current catalog ids).
    pub seed_ids: Vec<String>,
    /// Discover the top N text-generation models (0 disables discovery).
    pub discover_limit: usize,
    pub discover_sort: DiscoverSort,
    /// Optional search query for discovery.
    pub search: Option<String>,
    /// Optional Hugging Face token.
    pub token: Option<String>,
    pub timeout_secs: u64,
    /// Keep models even when they do not look like text-generation models.
    pub allow_non_text_generation: bool,
}

impl RefreshOptions {
    /// The default options; `env_token` is the `HF_TOKEN` environment
    /// value, kept only when it is not blank.
    pub fn new(env_token: Option<String>) -> (r: Self)
        ensures
            r.seed_ids@.len() == 0,
            r.discover_limit == 0,
            r.discover_sort == DiscoverSort::Trending,
            r.search is None,
            match env_token {
                Some(t) => if trim(t@).len() > 0 { r.token == Some(t) } else { r.token is None },
                None => r.token is None,
            },
            r.timeout_secs == 25,
            !r.allow_non_text_generation,
    {
        let token = match env_token {
            Some(t) => if trim_str(t.as_str()).as_str().is_empty() {
                None
            } else {
                Some(t)
            },
            None => None,
        };
        RefreshOptions {
            seed_ids: Vec::new(),
            discover_limit: 0,
            discover_sort: DiscoverSort::Trending,
            search: None,
            token,
            timeout_secs: 25,
            allow_non_text_generation: false,
        }
    }
}

/// How many trending models a refresh from the selector adds.
pub const SESSION_DISCOVER_LIMIT: usize = 20;

/// The options of a refresh started from the selector: the current
/// catalog's ids plus the top trending text-generation models.
pub fn session_refresh_options(catalog: &crate::model_catalog::ModelCatalog, env_token: Option<String>) -> (r: RefreshOptions)
    ensures
        views(r.seed_ids@) == entry_views(catalog.models@).map_values(|e: ModelEntryView| e.id),
        r.discover_limit == SESSION_DISCOVER_LIMIT,
        r.discover_sort == DiscoverSort::Trending,
        r.search is None,
        match env_token {
            Some(t) => if trim(t@).len() > 0 { r.token == Some(t) } else { r.token is None },
            None => r.token is None,
        },
        r.timeout_secs == 25,
        !r.allow_non_text_generation,
{
    let mut options = RefreshOptions::new(env_token);
    let ghost ev = entry_views(catalog.models@);
    let mut ids: Vec<String> = Vec::new();
    let mut i: usize = 0;
    while i < catalog.models.len()
        invariant
            i <= catalog.models.len(),
            ev == entry_views(catalog.models@),
            views(ids@) == ev.take(i as int).map_values(|e: ModelEntryView| e.id),
        decreases catalog.models.len() - i,
    {
        let id = catalog.models[i].id.clone();
        assert(ev[i as int].id == id@);
        let ghost before = views(ids@);
        ids.push(id);
        assert(views(ids@) =~= before.push(ev[i as int].id));
        assert(ev.take(i + 1) =~= ev.take(i as int).push(ev[i as int]));
        i = i + 1;
        assert(views(ids@) =~= ev.take(i as int).map_values(|e: ModelEntryView| e.id));
    }
    assert(ev.take(catalog.models.len() as int) =~= ev);
    options.seed_ids = ids;
    options.discover_limit = SESSION_DISCOVER_LIMIT;
    options
}

/// What a refresh is doing, reported before each network step.
#[derive(Debug, Clone)]
pub enum RefreshProgress {
    Discovering,
    /// Model `index` (from 1) of `total`.
    Model { index: usize, total: usize, id: String },
}

/// Entries built, ids skipped as not text generation, and failures.
#[derive(Debug)]
pub struct RefreshReport {
    pub entries: Vec<ModelEntry>,
    pub skipped: Vec<String>,
    pub errors: Vec<String>,
}

// ---------------------------------------------------------------------------
// Model ids
// ---------------------------------------------------------------------------

/// The first occurrence of each item, in order.
pub open spec fn dedup(s: Seq<Seq<char>>) -> Seq<Seq<char>>
    decreases s.len(),
{
    if s.len() == 0 {
        Seq::empty()
    } else if dedup(s.drop_last()).contains(s.last()) {
        dedup(s.drop_last())
    } else {
        dedup(s.drop_last()).push(s.last())
    }
}

pub fn deduplicate_keep_order(items: Vec<String>) -> (r: Vec<String>)
    ensures
        views(r@) == dedup(views(items@)),
{
    let ghost v = views(items@);
    let mut seen: Vec<String> = Vec::new();
    let mut i: usize = 0;
    while i < items.len()
        invariant
            i <= items.len(),
            v == views(items@),
            views(seen@) == dedup(v.take(i as int)),
        decreases items.len() - i,
    {
        let item = &items[i];
        proof {
            assert(v.take(i + 1).drop_last() =~= v.take(i as int));
            assert(v.take(i + 1).last() == item@);
        }
        let mut found = false;
        let mut k: usize = 0;
        while k < seen.len()
            invariant
                k <= seen.len(),
                found == exists|j: int| 0 <= j < k && #[trigger] views(seen@)[j] == item@,
            decreases seen.len() - k,
        {
            if seen[k] == *item {
                assert(views(seen@)[k as int] == item@);
                found = true;
            }
            k = k + 1;
        }
        proof {
            if views(seen@).contains(item@) {
                let j = choose|j: int| 0 <= j < views(seen@).len() && views(seen@)[j] == item@;
                assert(views(seen@)[j] == item@);
            }
        }
        if !found {
            let ghost before = views(seen@);
            seen.push(item.clone());
            assert(views(seen@) =~= before.push(item@));
        }
        i = i + 1;
    }
    assert(v.take(items.len() as int) =~= v);
    seen
}

/// Removing repeats keeps exactly the items there were, each once.
pub proof fn lemma_dedup_keeps_items(s: Seq<Seq<char>>, x: Seq<char>)
    ensures
        dedup(s).contains(x) <==> s.contains(x),
    decreases s.len(),
{
    if s.len() > 0 {
        lemma_dedup_keeps_items(s.drop_last(), x);
        let d = dedup(s.drop_last());
        if s.contains(x) && !s.drop_last().contains(x) {
            assert(x == s.last()) by {
                let i = choose|i: int| 0 <= i < s.len() && s[i] == x;
                if i < s.len() - 1 {
                    assert(s.drop_last()[i] == x);
                }
            }
        }
        if s.drop_last().contains(x) {
            let i = choose|i: int| 0 <= i < s.drop_last().len() && s.drop_last()[i] == x;
            assert(s[i] == x);
        }
        if !d.contains(s.last()) {
            assert(d.push(s.last())[d.len() as int] == s.last());
            if d.push(s.last()).contains(x) && x != s.last() {
                let i = choose|i: int| 0 <= i < d.push(s.last()).len() && d.push(s.last())[i] == x;
                assert(d[i] == x);
            }
            if d.contains(x) {
                let i = choose|i: int| 0 <= i < d.len() && d[i] == x;
                assert(d.push(s.last())[i] == x);
            }
        }
        if s.contains(x) && x == s.last() {
            assert(s[s.len() - 1] == x);
        }
    }
}

/// No item appears twice after removing repeats.
pub proof fn lemma_dedup_distinct(s: Seq<Seq<char>>)
    ensures
        forall|i: int, j: int| 0 <= i < j < dedup(s).len() ==> dedup(s)[i] != dedup(s)[j],
    decreases s.len(),
{
    if s.len() > 0 {
        lemma_dedup_distinct(s.drop_last());
        let d = dedup(s.drop_last());
        if !d.contains(s.last()) {
            assert forall|i: int, j: int| 0 <= i < j < d.push(s.last()).len() implies d.push(s.last())[i] != d.push(s.last())[j] by {
                if j == d.len() {
                    assert(d[i] != s.last());
                }
            }
        }
    }
}

/// The seed ids, trimmed, blanks dropped.
pub open spec fn clean_ids(ids: Seq<Seq<char>>) -> Seq<Seq<char>>
    decreases ids.len(),
{
    if ids.len() == 0 {
        Seq::empty()
    } else if trim(ids.last()).len() == 0 {
        clean_ids(ids.drop_last())
    } else {
        clean_ids(ids.drop_last()).push(trim(ids.last()))
    }
}

pub fn clean_seed_ids(ids: &Vec<String>) -> (r: Vec<String>)
    ensures
        views(r@) == clean_ids(views(ids@)),
{
    let ghost v = views(ids@);
    let mut out: Vec<String> = Vec::new();
    let mut i: usize = 0;
    while i < ids.len()
        invariant
            i <= ids.len(),
            v == views(ids@),
            views(out@) == clean_ids(v.take(i as int)),
        decreases ids.len() - i,
    {
        proof {
            assert(v.take(i + 1).drop_last() =~= v.take(i as int));
            assert(v.take(i + 1).last() == ids@[i as int]@);
        }
        let t = trim_str(ids[i].as_str());
        if !t.as_str().is_empty() {
            let ghost before = views(out@);
            out.push(t);
            assert(views(out@) =~= before.push(trim(ids@[i as int]@)));
        }
        i = i + 1;
    }
    assert(v.take(ids.len() as int) =~= v);
    out
}

// ---------------------------------------------------------------------------
// URLs
// ---------------------------------------------------------------------------

/// Bytes left as they are in a query value.
pub open spec fn unreserved(b: u8) -> bool {
    (97 <= b <= 122) || (65 <= b <= 90) || (48 <= b <= 57) || b == 45 || b == 95 || b == 46 || b == 126
}

pub open spec fn hex_digit(n: u8) -> char {
    if n < 10 { (48 + n) as char } else { (55 + n) as char }
}

/// Percent-encoding of UTF-8 bytes, uppercase hexadecimal.
pub open spec fn url_encoded(bytes: Seq<u8>) -> Seq<char>
    decreases bytes.len(),
{
    if bytes.len() == 0 {
        Seq::empty()
    } else {
        let b = bytes.last();
        url_encoded(bytes.drop_last()) + if unreserved(b) {
            seq![b as char]
        } else {
            seq!['%', hex_digit(b / 16), hex_digit(b % 16)]
        }
    }
}

fn hex_char(n: u8) -> (r: char)
    requires
        n < 16,
    ensures
        r == hex_digit(n),
{
    if n < 10 { (48 + n) as char } else { (55 + n) as char }
}

pub fn urlencode(value: &str) -> (r: String)
    ensures
        r@ == url_encoded(vstd::utf8::encode_utf8(value@)),
{
    let bytes = value.as_bytes();
    let ghost bv = bytes@;
    let mut out = String::new();
    let mut i: usize = 0;
    while i < bytes.len()
        invariant
            i <= bytes.len(),
            bv == bytes@,
            out@ == url_encoded(bv.take(i as int)),
        decreases bytes.len() - i,
    {
        let b = bytes[i];
        proof {
            assert(bv.take(i + 1).drop_last() =~= bv.take(i as int));
            assert(bv.take(i + 1).last() == b);
        }
        if (97 <= b && b <= 122) || (65 <= b && b <= 90) || (48 <= b && b <= 57) || b == 45 || b == 95 || b == 46 || b == 126 {
            out.push(b as char);
        } else {
            out.push('%');
            out.push(hex_char(b / 16));
            out.push(hex_char(b % 16));
        }
        i = i + 1;
        assert(out@ =~= url_encoded(bv.take(i as int)));
    }
    assert(bv.take(bytes.len() as int) =~= bv);
    out
}

/// The discovery request for a sort field.
pub open spec fn discover_url(limit: usize, sort_field: Seq<char>, search: Option<Seq<char>>) -> Seq<char> {
    "https://huggingface.co/api/models?limit="@ + decimal(limit as nat) + "&sort="@ + sort_field
        + "&direction=-1&pipeline_tag=text-generation&full=true"@ + match search {
        Some(s) => if trim(s).len() > 0 {
            "&search="@ + url_encoded(vstd::utf8::encode_utf8(trim(s)))
        } else {
            Seq::empty()
        },
        None => Seq::empty(),
    }
}

pub fn discover_request_url(options: &RefreshOptions, sort_field: &str) -> (r: String)
    ensures
        r@ == discover_url(options.discover_limit, sort_field@, crate::config::opt_view(options.search)),
{
    let mut url = "https://huggingface.co/api/models?limit=".to_owned();
    push_str(&mut url, u64_to_string(options.discover_limit as u64).as_str());
    push_str(&mut url, "&sort=");
    push_str(&mut url, sort_field);
    push_str(&mut url, "&direction=-1&pipeline_tag=text-generation&full=true");
    if let Some(search) = &options.search {
        let t = trim_str(search.as_str());
        if !t.as_str().is_empty() {
            push_str(&mut url, "&search=");
            push_str(&mut url, urlencode(t.as_str()).as_str());
        }
    }
    url
}


/// The metadata request for a model.
pub fn metadata_url(model_id: &str) -> (r: String)
    ensures
        r@ == "https://huggingface.co/api/models/"@ + model_id@ + "?full=true"@,
{
    let mut url = "https://huggingface.co/api/models/".to_owned();
    push_str(&mut url, model_id);
    push_str(&mut url, "?full=true");
    url
}

/// The configuration file of a model.
pub fn config_url(model_id: &str) -> (r: String)
    ensures
        r@ == "https://huggingface.co/"@ + model_id@ + "/raw/main/config.json"@,
{
    let mut url = "https://huggingface.co/".to_owned();
    push_str(&mut url, model_id);
    push_str(&mut url, "/raw/main/config.json");
    url
}


// ---------------------------------------------------------------------------
// The report
// ---------------------------------------------------------------------------

/// Entries are listed by size, then by lowercased id.
pub open spec fn entry_key(e: ModelEntryView) -> (u32, Seq<char>) {
    (e.params_tenths_b, unicode_lowercase(e.id))
}

pub open spec fn entry_le(a: ModelEntryView, b: ModelEntryView) -> bool {
    a.params_tenths_b < b.params_tenths_b || (a.params_tenths_b == b.params_tenths_b
        && !lex_lt(unicode_lowercase(b.id), unicode_lowercase(a.id)))
}

pub open spec fn entries_sorted(s: Seq<ModelEntryView>) -> bool {
    forall|i: int, j: int| 0 <= i < j < s.len() ==> entry_le(#[trigger] s[i], #[trigger] s[j])
}

/// The entries with a given key, in order.
pub open spec fn entries_with_key(s: Seq<ModelEntryView>, k: (u32, Seq<char>)) -> Seq<ModelEntryView> {
    s.filter(|e: ModelEntryView| entry_key(e) == k)
}

proof fn lemma_entry_le_transitive(a: ModelEntryView, b: ModelEntryView, c: ModelEntryView)
    requires
        entry_le(a, b),
        entry_le(b, c),
    ensures
        entry_le(a, c),
{
    let (x, y, z) = (unicode_lowercase(a.id), unicode_lowercase(b.id), unicode_lowercase(c.id));
    if a.params_tenths_b == c.params_tenths_b && b.params_tenths_b == a.params_tenths_b {
        if lex_lt(z, x) {
            lemma_lex_total(y, x);
            lemma_lex_total(z, y);
            if lex_lt(x, y) {
                lemma_lex_transitive(z, x, y);
            } else if x == y {
            }
            if lex_lt(y, z) {
                lemma_lex_transitive(x, y, z);
                lemma_lex_asymmetric(x, z);
            }
        }
    }
}

proof fn lemma_insert_keeps_entry_keys(out: Seq<ModelEntryView>, pos: int, x: ModelEntryView, k: (u32, Seq<char>))
    requires
        0 <= pos <= out.len(),
        forall|j: int| pos <= j < out.len() ==> entry_key(#[trigger] out[j]) != entry_key(x),
    ensures
        entries_with_key(out.insert(pos, x), k) == (if entry_key(x) == k {
            entries_with_key(out, k).push(x)
        } else {
            entries_with_key(out, k)
        }),
{
    let p = |e: ModelEntryView| entry_key(e) == k;
    let a = out.subrange(0, pos);
    let b = out.subrange(pos, out.len() as int);
    assert(out =~= a + b);
    assert(out.insert(pos, x) =~= a.push(x) + b);
    Seq::filter_distributes_over_add(a, b, p);
    Seq::filter_distributes_over_add(a.push(x), b, p);
    lemma_filter_push(a, x, p);
    if entry_key(x) == k {
        assert forall|i: int| 0 <= i < b.len() implies !p(#[trigger] b[i]) by {
            assert(b[i] == out[pos + i]);
        }
        lemma_filter_none(b, p);
        assert(a.filter(p) + b.filter(p) =~= a.filter(p));
        assert(a.filter(p).push(x) + b.filter(p) =~= a.filter(p).push(x));
    }
}

fn entry_less_eq(a: &ModelEntry, b: &ModelEntry) -> (r: bool)
    ensures
        r == entry_le(a@, b@),
{
    if a.params_tenths_b != b.params_tenths_b {
        return a.params_tenths_b < b.params_tenths_b;
    }
    let la = chars_of(to_lowercase(a.id.as_str()).as_str());
    let lb = chars_of(to_lowercase(b.id.as_str()).as_str());
    !chars_lt(&lb, &la)
}

/// Sorts entries by size, then by lowercased id, keeping the input order
/// among equal keys.
pub fn sort_entries(input: Vec<ModelEntry>) -> (r: Vec<ModelEntry>)
    ensures
        entries_sorted(entry_views(r@)),
        forall|k: (u32, Seq<char>)| #[trigger] entries_with_key(entry_views(r@), k) == entries_with_key(entry_views(input@), k),
{
    let ghost iv = entry_views(input@);
    let mut rest = input;
    let mut out: Vec<ModelEntry> = Vec::new();
    let ghost mut done: int = 0;
    assert(iv.subrange(0, 0) =~= Seq::<ModelEntryView>::empty());
    proof {
        reveal(Seq::filter);
    }
    while rest.len() > 0
        invariant
            0 <= done <= iv.len(),
            rest@.len() == iv.len() - done,
            entry_views(rest@) == iv.subrange(done, iv.len() as int),
            entries_sorted(entry_views(out@)),
            forall|k: (u32, Seq<char>)| #[trigger] entries_with_key(entry_views(out@), k) == entries_with_key(iv.subrange(0, done), k),
        decreases rest@.len(),
    {
        let ghost rv = rest@;
        let x = rest.remove(0);
        proof {
            assert(x@ == entry_views(rv)[0]);
            assert(entry_views(rest@) =~= entry_views(rv).subrange(1, rv.len() as int));
        }
        let ghost ov = entry_views(out@);
        let mut pos: usize = 0;
        while pos < out.len() && entry_less_eq(&out[pos], &x)
            invariant
                pos <= out.len(),
                entry_views(out@) == ov,
                forall|j: int| 0 <= j < pos ==> entry_le(#[trigger] ov[j], x@),
            decreases out.len() - pos,
        {
            pos = pos + 1;
        }
        proof {
            assert forall|j: int| pos <= j < ov.len() implies entry_key(#[trigger] ov[j]) != entry_key(x@) && entry_le(x@, ov[j]) by {
                let o = ov[pos as int];
                assert(!entry_le(o, x@));
                lemma_lex_total(unicode_lowercase(o.id), unicode_lowercase(x@.id));
                lemma_lex_irreflexive(unicode_lowercase(o.id));
                if lex_lt(unicode_lowercase(x@.id), unicode_lowercase(o.id)) {
                    lemma_lex_asymmetric(unicode_lowercase(x@.id), unicode_lowercase(o.id));
                }
                assert(entry_le(x@, o));
                if j > pos {
                    assert(entry_le(o, ov[j]));
                    lemma_entry_le_transitive(x@, o, ov[j]);
                    if entry_key(ov[j]) == entry_key(x@) {
                        lemma_lex_total(unicode_lowercase(o.id), unicode_lowercase(x@.id));
                        if lex_lt(unicode_lowercase(x@.id), unicode_lowercase(o.id)) {
                            lemma_lex_asymmetric(unicode_lowercase(x@.id), unicode_lowercase(o.id));
                        }
                    }
                }
            }
            let nv = ov.insert(pos as int, x@);
            assert forall|i: int, j: int| 0 <= i < j < nv.len() implies entry_le(#[trigger] nv[i], #[trigger] nv[j]) by {
                if i < pos && j == pos {
                } else if i < pos && j > pos {
                    assert(nv[i] == ov[i]);
                    assert(nv[j] == ov[j - 1]);
                } else if i == pos {
                    assert(nv[j] == ov[j - 1]);
                } else if i > pos {
                    assert(nv[i] == ov[i - 1]);
                    assert(nv[j] == ov[j - 1]);
                } else {
                    assert(nv[i] == ov[i]);
                    assert(nv[j] == ov[j]);
                }
            }
            let pre = iv.subrange(0, done + 1);
            assert(pre =~= iv.subrange(0, done).push(x@));
            assert forall|k: (u32, Seq<char>)| #[trigger] entries_with_key(nv, k) == entries_with_key(pre, k) by {
                lemma_insert_keeps_entry_keys(ov, pos as int, x@, k);
                lemma_filter_push(iv.subrange(0, done), x@, |e: ModelEntryView| entry_key(e) == k);
            }
        }
        let ghost before = out@;
        out.insert(pos, x);
        proof {
            assert(entry_views(out@) =~= entry_views(before).insert(pos as int, x@));
            done = done + 1;
        }
    }
    assert(iv.subrange(0, iv.len() as int) =~= iv);
    out
}

/// A finished refresh: refused when no entry was built, else with the
/// entries sorted.
pub fn finish_report(report: RefreshReport) -> (r: Result<RefreshReport, String>)
    ensures
        report.entries@.len() == 0 ==> (r matches Err(m) && m@ == "No catalog entries generated ("@
            + decimal(report.errors@.len()) + " errors, "@ + decimal(report.skipped@.len()) + " skipped)."@),
        report.entries@.len() > 0 ==> (r matches Ok(out) && {
            &&& entries_sorted(entry_views(out.entries@))
            &&& forall|k: (u32, Seq<char>)| #[trigger] entries_with_key(entry_views(out.entries@), k) == entries_with_key(entry_views(report.entries@), k)
            &&& views(out.skipped@) == views(report.skipped@)
            &&& views(out.errors@) == views(report.errors@)
        }),
{
    if report.entries.len() == 0 {
        let mut m = "No catalog entries generated (".to_owned();
        push_str(&mut m, u64_to_string(report.errors.len() as u64).as_str());
        push_str(&mut m, " errors, ");
        push_str(&mut m, u64_to_string(report.skipped.len() as u64).as_str());
        push_str(&mut m, " skipped).");
        return Err(m);
    }
    let RefreshReport { entries, skipped, errors } = report;
    Ok(RefreshReport { entries: sort_entries(entries), skipped, errors })
}


/// The ids a refresh visits: the cleaned seed ids, then the discovered
/// ones when discovery is on, each once; refused when there are none.
pub fn refresh_model_ids(options: &RefreshOptions, discovered: Vec<String>) -> (r: Result<Vec<String>, String>)
    ensures
        ({
            let all = clean_ids(views(options.seed_ids@)) + if options.discover_limit > 0 {
                views(discovered@)
            } else {
                Seq::empty()
            };
            if dedup(all).len() == 0 {
                r matches Err(m) && m@ == "No model ids to refresh. Provide seed ids or enable discovery."@
            } else {
                r matches Ok(ids) && views(ids@) == dedup(all)
            }
        }),
{
    let mut ids = clean_seed_ids(&options.seed_ids);
    let ghost seeds = views(ids@);
    if options.discover_limit > 0 {
        let mut d = discovered;
        let ghost dv = views(d@);
        ids.append(&mut d);
        assert(views(ids@) =~= seeds + dv);
    } else {
        assert(views(ids@) =~= seeds + Seq::<Seq<char>>::empty());
    }
    let ids = deduplicate_keep_order(ids);
    if ids.len() == 0 {
        return Err("No model ids to refresh. Provide seed ids or enable discovery.".to_owned());
    }
    Ok(ids)
}

// ---------------------------------------------------------------------------
// Reading the API's answers
// ---------------------------------------------------------------------------

/// The string items of a list, in order; other items are left out.
pub open spec fn json_strs(items: Seq<Json>) -> Seq<Seq<char>>
    decreases items.len(),
{
    if items.len() == 0 {
        Seq::empty()
    } else {
        json_strs(items.drop_last()) + match items.last() {
            Json::Str(s) => seq![s@],
            _ => Seq::empty(),
        }
    }
}

/// The string items of a value that is a list; nothing otherwise.
pub open spec fn string_items(v: Option<Json>) -> Seq<Seq<char>> {
    match v {
        Some(Json::Arr(items)) => json_strs(items@),
        _ => Seq::empty(),
    }
}

fn json_strs_exec(items: &Vec<Json>) -> (r: Vec<String>)
    ensures
        views(r@) == json_strs(items@),
{
    let mut out: Vec<String> = Vec::new();
    let mut i: usize = 0;
    assert(items@.take(0) =~= Seq::<Json>::empty());
    while i < items.len()
        invariant
            i <= items.len(),
            views(out@) == json_strs(items@.take(i as int)),
        decreases items.len() - i,
    {
        proof {
            assert(items@.take(i + 1).drop_last() =~= items@.take(i as int));
            assert(items@.take(i + 1).last() == items@[i as int]);
        }
        let ghost before = views(out@);
        match &items[i] {
            Json::Str(s) => {
                out.push(s.clone());
                assert(views(out@) =~= before + seq![s@]);
            },
            _ => {
                assert(views(out@) =~= before + Seq::<Seq<char>>::empty());
            },
        }
        i = i + 1;
    }
    assert(items@.take(items.len() as int) =~= items@);
    out
}

fn string_items_exec(v: Option<&Json>) -> (r: Vec<String>)
    ensures
        views(r@) == string_items(match v {
            Some(j) => Some(*j),
            None => None,
        }),
{
    match v {
        Some(Json::Arr(items)) => json_strs_exec(items),
        _ => Vec::new(),
    }
}

/// A text field of the model card.
pub open spec fn card_text(meta: Json, key: Seq<char>) -> Option<Seq<char>> {
    match json_get(meta, "cardData"@) {
        Some(card) => json_str(json_get(card, key)),
        None => None,
    }
}

/// The card's languages: one string, or the strings of a list.
pub open spec fn card_languages(meta: Json) -> Seq<Seq<char>> {
    let language = match json_get(meta, "cardData"@) {
        Some(card) => json_get(card, "language"@),
        None => None,
    };
    match language {
        Some(Json::Str(s)) => seq![s@],
        other => string_items(other),
    }
}

fn card_text_exec(meta: &Json, key: &str) -> (r: Option<String>)
    ensures
        opt_view(r) == card_text(*meta, key@),
{
    match get(meta, "cardData") {
        Some(card) => get_str(card, key),
        None => None,
    }
}

/// `r` holds what the catalog rules read of a model's metadata `meta`:
/// the id, the tags, the pipeline tag, the card's names and languages, and
/// the `gated` field.
pub open spec fn meta_read(meta: Json, r: HfModelMeta) -> bool {
    &&& opt_view(r.id) == json_str(json_get(meta, "id"@))
    &&& views(r.tags@) == string_items(json_get(meta, "tags"@))
    &&& opt_view(r.pipeline_tag) == json_str(json_get(meta, "pipeline_tag"@))
    &&& opt_views(r.card_names@) == seq![
        card_text(meta, "model_name"@),
        card_text(meta, "name"@),
        card_text(meta, "title"@),
    ]
    &&& views(r.card_languages@) == card_languages(meta)
    &&& match json_get(meta, "gated"@) {
        Some(Json::Bool(b)) => r.gated == GatedField::Bool(b),
        Some(Json::Str(s)) => r.gated matches GatedField::Str(t) && t@ == s@,
        _ => r.gated is Other,
    }
}

/// Whether the catalog rules take a model, by its metadata, for a text
/// generator.
pub open spec fn generates_text(meta: Json, model_id: Seq<char>) -> bool {
    spec_is_text_generation(
        normal_pipeline_view(json_str(json_get(meta, "pipeline_tag"@))),
        normal_tags(string_items(json_get(meta, "tags"@))),
        model_id,
    )
}

/// The metadata fields the catalog rules read, from the API's answer for
/// one model.
pub fn meta_from_json(meta: &Json) -> (r: HfModelMeta)
    ensures
        meta_read(*meta, r),
{
    let mut card_names: Vec<Option<String>> = Vec::new();
    card_names.push(card_text_exec(meta, "model_name"));
    card_names.push(card_text_exec(meta, "name"));
    card_names.push(card_text_exec(meta, "title"));
    let language = match get(meta, "cardData") {
        Some(card) => get(card, "language"),
        None => None,
    };
    let card_languages = match language {
        Some(Json::Str(s)) => {
            let mut v: Vec<String> = Vec::new();
            v.push(s.clone());
            assert(views(v@) =~= seq![s@]);
            v
        },
        other => string_items_exec(other),
    };
    let gated = match get(meta, "gated") {
        Some(Json::Bool(b)) => GatedField::Bool(*b),
        Some(Json::Str(s)) => GatedField::Str(s.clone()),
        _ => GatedField::Other,
    };
    let r = HfModelMeta {
        id: get_str(meta, "id"),
        tags: string_items_exec(get(meta, "tags")),
        pipeline_tag: get_str(meta, "pipeline_tag"),
        card_names,
        card_languages,
        gated,
    };
    assert(opt_views(r.card_names@) =~= seq![
        card_text(*meta, "model_name"@),
        card_text(*meta, "name"@),
        card_text(*meta, "title"@),
    ]);
    r
}

/// What the API's answer for one model leads to: it is refused when it is
/// not an object; a model that does not generate text is skipped unless
/// those are allowed; otherwise its metadata is read.
pub fn read_model_metadata(raw: &Json, model_id: &str, allow_non_text_generation: bool) -> (r: Result<Option<HfModelMeta>, String>)
    ensures
        r is Err <==> !(raw is Obj),
        r matches Err(m) ==> m@ == "Invalid model metadata payload from HF API."@,
        r matches Ok(o) ==> (o is None <==> !allow_non_text_generation && !generates_text(*raw, model_id@)),
        r matches Ok(Some(m)) ==> meta_read(*raw, m),
{
    match raw {
        Json::Obj(_) => {},
        _ => return Err("Invalid model metadata payload from HF API.".to_owned()),
    }
    let meta = meta_from_json(raw);
    if !allow_non_text_generation && !is_text_generation_model(&meta, model_id) {
        return Ok(None);
    }
    Ok(Some(meta))
}

/// The ids of the models an API listing names, in order; items without a
/// string id are left out.
pub open spec fn listed_ids(items: Seq<Json>) -> Seq<Seq<char>>
    decreases items.len(),
{
    if items.len() == 0 {
        Seq::empty()
    } else {
        listed_ids(items.drop_last()) + match json_str(json_get(items.last(), "id"@)) {
            Some(id) => seq![id],
            None => Seq::empty(),
        }
    }
}

/// The ids of a discovery answer: nothing unless it is a list.
pub fn discovered_ids(payload: &Json) -> (r: Vec<String>)
    ensures
        views(r@) == match *payload {
            Json::Arr(items) => listed_ids(items@),
            _ => Seq::empty(),
        },
{
    let items = match payload {
        Json::Arr(items) => items,
        _ => return Vec::new(),
    };
    let mut out: Vec<String> = Vec::new();
    let mut i: usize = 0;
    assert(items@.take(0) =~= Seq::<Json>::empty());
    while i < items.len()
        invariant
            i <= items.len(),
            views(out@) == listed_ids(items@.take(i as int)),
        decreases items.len() - i,
    {
        proof {
            assert(items@.take(i + 1).drop_last() =~= items@.take(i as int));
            assert(items@.take(i + 1).last() == items@[i as int]);
        }
        let ghost before = views(out@);
        match get_str(&items[i], "id") {
            Some(id) => {
                out.push(id);
                assert(views(out@) =~= before + seq![json_str(json_get(items@[i as int], "id"@))->0]);
            },
            None => {
                assert(views(out@) =~= before + Seq::<Seq<char>>::empty());
            },
        }
        i = i + 1;
    }
    assert(items@.take(items.len() as int) =~= items@);
    out
}

/// The sort to retry discovery with when the first request fails: a
/// trending listing falls back to downloads; a downloads listing is not
/// retried.
pub fn discover_fallback(sort: DiscoverSort) -> (r: Option<&'static str>)
    ensures
        match sort {
            DiscoverSort::Trending => r matches Some(f) && f@ == "downloads"@,
            DiscoverSort::Downloads => r is None,
        },
{
    match sort {
        DiscoverSort::Trending => Some("downloads"),
        DiscoverSort::Downloads => None,
    }
}

// ---------------------------------------------------------------------------
// One model's outcome
// ---------------------------------------------------------------------------

/// The progress report for the model at `index` (from 0) of `total`.
pub fn model_progress(index: usize, total: usize, id: &str) -> (r: RefreshProgress)
    requires
        index < total,
    ensures
        r matches RefreshProgress::Model { index: i, total: t, id: d } && i == index + 1 && t == total && d@ == id@,
{
    RefreshProgress::Model { index: index + 1, total, id: id.to_owned() }
}

/// Files one model's outcome in the report: a built entry is kept, a
/// model that is not a text generator is listed as skipped, and a failure
/// is listed as `id: message`.
pub fn record_outcome(report: &mut RefreshReport, model_id: &str, outcome: Result<Option<ModelEntry>, String>)
    ensures
        match outcome {
            Ok(Some(e)) => entry_views(final(report).entries@) == entry_views(old(report).entries@).push(e@)
                && final(report).skipped@ == old(report).skipped@ && final(report).errors@ == old(report).errors@,
            Ok(None) => final(report).entries@ == old(report).entries@
                && views(final(report).skipped@) == views(old(report).skipped@).push(model_id@)
                && final(report).errors@ == old(report).errors@,
            Err(m) => final(report).entries@ == old(report).entries@ && final(report).skipped@ == old(report).skipped@
                && views(final(report).errors@) == views(old(report).errors@).push(model_id@ + ": "@ + m@),
        },
{
    match outcome {
        Ok(Some(entry)) => {
            let ghost ev = entry@;
            report.entries.push(entry);
            assert(entry_views(report.entries@) =~= entry_views(old(report).entries@).push(ev));
        },
        Ok(None) => {
            report.skipped.push(model_id.to_owned());
            assert(views(report.skipped@) =~= views(old(report).skipped@).push(model_id@));
        },
        Err(m) => {
            let mut line = model_id.to_owned();
            push_str(&mut line, ": ");
            push_str(&mut line, m.as_str());
            let ghost lv = line@;
            report.errors.push(line);
            assert(views(report.errors@) =~= views(old(report).errors@).push(lv));
        },
    }
}

} // verus!
