//! The commands' options and the small decisions they take between
//! reading the machine and printing.

use vstd::prelude::*;

use crate::config::{opt_view, AppConfig, AppConfigView};
use crate::machine::{format_gb, gb_text, MachineSpecs};
use crate::model_catalog::{entry_views, ModelEntry, ModelEntryView};
use crate::recommendation::{fit_is_positive, fit_status, lemma_filter_none, lemma_filter_push, FitStatus, RecommendationEngine};
use crate::recommendation::{badge_label, rec_views, ModelRecommendation, PreferredBackend, RecView};
use crate::backend::{all_backends, every_backend, ServingBackend};
use crate::refresh::{DiscoverSort, RefreshOptions};
use crate::selector::SelectorResult;
use crate::tui::{format_tenths, tenths_text};
use crate::text::{join, chars_of, push_str, string_of, sub_chars, trim, trim_str, u64_to_string, decimal, views};

verus! {

#[derive(Debug, Clone)]
pub struct StatusArgs {}

#[derive(Debug, Clone)]
pub struct StopArgs {
    pub container: Option<String>,
    pub mock: bool,
}

#[derive(Debug, Clone)]
pub struct LogsArgs {
    pub container: Option<String>,
    pub follow: bool,
    pub lines: usize,
    pub mock: bool,
}

#[derive(Debug, Clone)]
pub struct RecommendArgs {
    pub backend: Option<String>,
    pub top: usize,
}

#[derive(Debug, Clone)]
pub struct SelectArgs {
    pub mock: bool,
}

#[derive(Debug, Clone)]
pub struct DoctorArgs {}

#[derive(Debug, Clone)]
pub struct BenchmarkArgs {
    pub base_url: Option<String>,
    pub api_key: Option<String>,
    pub model: Option<String>,
    pub requests: usize,
    pub prompt: String,
    pub mock: bool,
}

#[derive(Debug, Clone)]
pub struct InitChatbotArgs {
    pub path: Option<String>,
    pub force: bool,
    pub skip_install: bool,
}

#[derive(Debug, Clone)]
pub struct OpenChatbotArgs {
    pub url: Option<String>,
}

#[derive(Debug, Clone, Copy, PartialEq, Eq, Structural)]
pub enum SortMode {
    Trending,
    Downloads,
}

#[derive(Debug, Clone)]
pub struct RefreshArgs {
    pub discover_limit: usize,
    pub sort: SortMode,
    pub ids: Vec<String>,
    pub search: Option<String>,
    pub from_existing: String,
    pub no_existing: bool,
    pub output: String,
    pub dry_run: bool,
    pub allow_non_text_generation: bool,
    pub timeout: u64,
}

#[derive(Debug, Clone)]
pub struct PromoteArgs {
    pub input: String,
    pub output: String,
}

#[derive(Debug, Clone)]
pub enum CatalogCommand {
    Refresh(RefreshArgs),
    Promote(PromoteArgs),
}

#[derive(Debug, Clone)]
pub struct CatalogArgs {
    pub command: CatalogCommand,
}

// ---------------------------------------------------------------------------
// status, stop, logs
// ---------------------------------------------------------------------------

/// The status line for the mock API, given its recorded pid and whether
/// that process runs.
pub open spec fn mock_status(pid: Option<u32>, running: bool) -> Seq<char> {
    match pid {
        Some(p) => "Mock API: "@ + (if running { "running"@ } else { "stopped"@ }) + " (pid "@ + decimal(p as nat) + ")"@,
        None => "Mock API: not configured."@,
    }
}

pub fn mock_status_line(pid: Option<u32>, running: bool) -> (r: String)
    ensures
        r@ == mock_status(pid, running),
{
    match pid {
        Some(p) => {
            let mut l = "Mock API: ".to_owned();
            push_str(&mut l, if running { "running" } else { "stopped" });
            push_str(&mut l, " (pid ");
            push_str(&mut l, u64_to_string(p as u64).as_str());
            push_str(&mut l, ")");
            l
        },
        None => "Mock API: not configured.".to_owned(),
    }
}

/// The container a command acts on: the one named, else the configured one.
pub fn target_container(given: &Option<String>, configured: &str) -> (r: String)
    ensures
        r@ == match given {
            Some(c) => c@,
            None => configured@,
        },
{
    match given {
        Some(c) => c.clone(),
        None => configured.to_owned(),
    }
}

/// The lines of a text, as `str::lines` splits it: at each `\n`, a `\r`
/// before it dropped, no empty line after a final `\n`.
pub open spec fn text_lines(s: Seq<char>) -> Seq<Seq<char>>
    decreases s.len(),
{
    if s.len() == 0 {
        Seq::empty()
    } else {
        let i = first_newline(s);
        let line = s.take(i);
        let line = if line.len() > 0 && line.last() == '\r' { line.drop_last() } else { line };
        proof {
            lemma_first_newline(s);
        }
        seq![line] + if i < s.len() { text_lines(s.skip(i + 1)) } else { Seq::empty() }
    }
}

/// The position of the first `\n` (the length when there is none).
pub open spec fn first_newline(s: Seq<char>) -> int
    decreases s.len(),
{
    if s.len() == 0 {
        0
    } else if s[0] == '\n' {
        0
    } else {
        1 + first_newline(s.drop_first())
    }
}

/// `first_newline` is the position of the first `\n`, or the length.
pub proof fn lemma_first_newline(s: Seq<char>)
    ensures
        0 <= first_newline(s) <= s.len(),
        first_newline(s) < s.len() ==> s[first_newline(s)] == '\n',
        forall|k: int| 0 <= k < first_newline(s) ==> s[k] != '\n',
    decreases s.len(),
{
    if s.len() > 0 && s[0] != '\n' {
        lemma_first_newline(s.drop_first());
        assert forall|k: int| 0 <= k < first_newline(s) implies s[k] != '\n' by {
            if k > 0 {
                assert(s[k] == s.drop_first()[k - 1]);
            }
        }
    }
}

proof fn lemma_first_newline_at(s: Seq<char>, i: int)
    requires
        0 <= i <= s.len(),
        forall|k: int| 0 <= k < i ==> s[k] != '\n',
        i == s.len() || s[i] == '\n',
    ensures
        first_newline(s) == i,
    decreases i,
{
    if i > 0 {
        assert forall|k: int| 0 <= k < i - 1 implies s.drop_first()[k] != '\n' by {
            assert(s.drop_first()[k] == s[k + 1]);
        }
        lemma_first_newline_at(s.drop_first(), i - 1);
    }
}

/// Splits a text into lines (see `text_lines`).
pub fn split_lines(text: &str) -> (r: Vec<String>)
    ensures
        views(r@) == text_lines(text@),
{
    let v = chars_of(text);
    let mut out: Vec<String> = Vec::new();
    let mut start: usize = 0;
    assert(v@.skip(0) =~= v@);
    assert(views(out@) + text_lines(v@) =~= text_lines(v@));
    while start < v.len()
        invariant
            start <= v.len(),
            v@ == text@,
            views(out@) + text_lines(v@.skip(start as int)) == text_lines(v@),
        decreases v.len() - start,
    {
        let ghost rest = v@.skip(start as int);
        let mut j = start;
        while j < v.len() && v[j] != '\n'
            invariant
                start <= j <= v.len(),
                forall|k: int| start <= k < j ==> v@[k] != '\n',
            decreases v.len() - j,
        {
            j = j + 1;
        }
        proof {
            assert forall|k: int| 0 <= k < j - start implies rest[k] != '\n' by {
                assert(rest[k] == v@[start + k]);
            }
            lemma_first_newline_at(rest, j - start);
        }
        let end = if j > start && v[j - 1] == '\r' { j - 1 } else { j };
        let ghost before = views(out@);
        out.push(string_of(&sub_chars(&v, start, end)));
        proof {
            let line = rest.take(j - start);
            assert(v@.subrange(start as int, end as int) =~= if line.len() > 0 && line.last() == '\r' { line.drop_last() } else { line });
            if j < v.len() {
                assert(rest.skip(j - start + 1) =~= v@.skip(j + 1));
            }
        }
        if j < v.len() {
            start = j + 1;
            proof {
                assert(views(out@) + text_lines(v@.skip(start as int)) =~= before + text_lines(rest));
            }
        } else {
            start = v.len();
            proof {
                assert(v@.skip(start as int) =~= Seq::<char>::empty());
                assert(views(out@) + text_lines(v@.skip(start as int)) =~= before + text_lines(rest));
            }
        }
    }
    assert(v@.skip(start as int) =~= Seq::<char>::empty());
    assert(views(out@) + Seq::<Seq<char>>::empty() =~= views(out@));
    out
}

/// The last `n` lines of a log.
pub fn tail_lines(content: &str, n: usize) -> (r: Vec<String>)
    ensures
        views(r@) == if text_lines(content@).len() > n {
            text_lines(content@).skip(text_lines(content@).len() - n)
        } else {
            text_lines(content@)
        },
{
    let rows = split_lines(content);
    if rows.len() > n {
        let mut out: Vec<String> = Vec::new();
        let start = rows.len() - n;
        let mut i = start;
        while i < rows.len()
            invariant
                start <= i <= rows.len(),
                start == rows.len() - n,
                views(out@) == views(rows@).subrange(start as int, i as int),
            decreases rows.len() - i,
        {
            let ghost before = views(out@);
            out.push(rows[i].clone());
            assert(views(out@) =~= before.push(rows@[i as int]@));
            i = i + 1;
            assert(views(out@) =~= views(rows@).subrange(start as int, i as int));
        }
        assert(views(rows@).subrange(start as int, rows.len() as int) =~= views(rows@).skip(start as int));
        out
    } else {
        rows
    }
}

// ---------------------------------------------------------------------------
// recommend, select, benchmark, chatbot
// ---------------------------------------------------------------------------

/// The backend the recommendations are filtered by: the one asked for,
/// else the one Gaia prefers on the machine.
pub fn recommend_backend(given: &Option<String>, preferred: PreferredBackend) -> (r: Option<String>)
    ensures
        opt_view(r) == match given {
            Some(b) => Some(b@),
            None => crate::selector::preferred_name(preferred),
        },
{
    match given {
        Some(b) => Some(b.clone()),
        None => match preferred.as_str() {
            Some(p) => Some(p.to_owned()),
            None => None,
        },
    }
}

/// The configuration once a selection is confirmed: backend (run with
/// Docker), model without a pinned revision, port and API key.
pub fn apply_selection(config: &mut AppConfig, selection: &SelectorResult)
    ensures
        final(config)@ == (AppConfigView {
            backend_name: selection.backend@,
            backend_mode: "docker"@,
            model_id: selection.model_id@,
            revision: None,
            port: selection.port,
            api_key: selection.api_key@,
            ..old(config)@
        }),
{
    config.backend.name = selection.backend.clone();
    config.backend.mode = "docker".to_owned();
    config.model.id = selection.model_id.clone();
    config.model.revision = None;
    config.server.port = selection.port;
    config.server.api_key = selection.api_key.clone();
}

/// `s` without trailing `/` characters.
pub open spec fn trim_slashes_end(s: Seq<char>) -> Seq<char>
    decreases s.len(),
{
    if s.len() > 0 && s.last() == '/' { trim_slashes_end(s.drop_last()) } else { s }
}

/// Where a benchmark sends requests, with which key and model.
pub struct BenchmarkTarget {
    pub base_url: String,
    pub api_key: String,
    pub model: String,
}

/// The benchmark target from the options, falling back to the
/// configured server; refused when no request is asked for.
pub fn benchmark_target(args: &BenchmarkArgs, default_base_url: &str, default_api_key: &str, default_model: &str) -> (r: Result<BenchmarkTarget, String>)
    ensures
        args.requests == 0 <==> r is Err,
        r matches Err(m) ==> m@ == "`--requests` must be greater than zero."@,
        r matches Ok(t) ==> {
            &&& t.base_url@ == trim_slashes_end(match args.base_url { Some(u) => u@, None => default_base_url@ })
            &&& t.api_key@ == match args.api_key { Some(k) => k@, None => default_api_key@ }
            &&& t.model@ == match args.model { Some(m) => m@, None => default_model@ }
        },
{
    let raw = match &args.base_url {
        Some(u) => chars_of(u.as_str()),
        None => chars_of(default_base_url),
    };
    let mut end = raw.len();
    assert(raw@.take(raw.len() as int) =~= raw@);
    while end > 0 && raw[end - 1] == '/'
        invariant
            end <= raw.len(),
            trim_slashes_end(raw@) == trim_slashes_end(raw@.take(end as int)),
        decreases end,
    {
        proof {
            assert(raw@.take(end as int).drop_last() =~= raw@.take(end - 1));
        }
        end = end - 1;
    }
    proof {
        assert(raw@.take(raw.len() as int) =~= raw@);
    }
    let base_url = string_of(&sub_chars(&raw, 0, end));
    assert(raw@.subrange(0, end as int) =~= raw@.take(end as int));
    let api_key = match &args.api_key {
        Some(k) => k.clone(),
        None => default_api_key.to_owned(),
    };
    let model = match &args.model {
        Some(m) => m.clone(),
        None => default_model.to_owned(),
    };
    if args.requests == 0 {
        return Err("`--requests` must be greater than zero.".to_owned());
    }
    Ok(BenchmarkTarget { base_url, api_key, model })
}

/// The chatbot URL: the one given, else the local dev server's.
pub fn chatbot_url(given: &Option<String>, port: u16) -> (r: String)
    ensures
        r@ == match given {
            Some(u) => u@,
            None => "http://localhost:"@ + decimal(port as nat),
        },
{
    match given {
        Some(u) => u.clone(),
        None => {
            let mut u = "http://localhost:".to_owned();
            push_str(&mut u, u64_to_string(port as u64).as_str());
            u
        },
    }
}

/// The chatbot's `.env` file: base URL, key and model for the front end.
pub fn chatbot_env_file(openai_base_url: &str, api_key: &str, model_id: &str) -> (r: String)
    ensures
        r@ == "VITE_LLM_BASE_URL="@ + openai_base_url@ + "\nVITE_LLM_API_KEY="@ + api_key@ + "\nVITE_LLM_MODEL="@
            + model_id@ + "\n"@,
{
    let mut s = "VITE_LLM_BASE_URL=".to_owned();
    push_str(&mut s, openai_base_url);
    push_str(&mut s, "\nVITE_LLM_API_KEY=");
    push_str(&mut s, api_key);
    push_str(&mut s, "\nVITE_LLM_MODEL=");
    push_str(&mut s, model_id);
    push_str(&mut s, "\n");
    s
}

// ---------------------------------------------------------------------------
// catalog refresh
// ---------------------------------------------------------------------------

pub fn discover_sort(mode: SortMode) -> (r: DiscoverSort)
    ensures
        r == match mode {
            SortMode::Trending => DiscoverSort::Trending,
            SortMode::Downloads => DiscoverSort::Downloads,
        },
{
    match mode {
        SortMode::Trending => DiscoverSort::Trending,
        SortMode::Downloads => DiscoverSort::Downloads,
    }
}

/// The refresh options for the command: the seed ids (existing catalog ids
/// unless `--no-existing`, then `--ids`); refused when there is nothing to
/// refresh and no discovery. `env_token` is `HF_TOKEN`.
pub fn refresh_options(args: &RefreshArgs, existing_ids: Vec<String>, env_token: Option<String>) -> (r: Result<RefreshOptions, String>)
    ensures
        ({
            let seeds = (if args.no_existing { Seq::empty() } else { views(existing_ids@) }) + views(args.ids@);
            if seeds.len() == 0 && args.discover_limit == 0 {
                r matches Err(m) && m@ == "No model ids to refresh. Provide --ids, --discover-limit, or a valid --from-existing file."@
            } else {
                r matches Ok(o) && {
                    &&& views(o.seed_ids@) == seeds
                    &&& o.discover_limit == args.discover_limit
                    &&& o.discover_sort == (match args.sort { SortMode::Trending => DiscoverSort::Trending, SortMode::Downloads => DiscoverSort::Downloads })
                    &&& opt_view(o.search) == opt_view(args.search)
                    &&& match env_token {
                        Some(t) => if trim(t@).len() > 0 { o.token == Some(t) } else { o.token is None },
                        None => o.token is None,
                    }
                    &&& o.timeout_secs == args.timeout
                    &&& o.allow_non_text_generation == args.allow_non_text_generation
                }
            }
        }),
{
    let mut seed_ids: Vec<String> = Vec::new();
    if !args.no_existing {
        seed_ids = existing_ids;
    }
    let ghost first = views(seed_ids@);
    let mut more = crate::model_catalog::clone_strings(&args.ids);
    seed_ids.append(&mut more);
    assert(views(seed_ids@) =~= first + views(args.ids@));
    if seed_ids.len() == 0 && args.discover_limit == 0 {
        return Err("No model ids to refresh. Provide --ids, --discover-limit, or a valid --from-existing file.".to_owned());
    }
    let mut options = RefreshOptions::new(env_token);
    options.seed_ids = seed_ids;
    options.discover_limit = args.discover_limit;
    options.discover_sort = discover_sort(args.sort);
    options.search = crate::config::clone_opt_string(&args.search);
    options.timeout_secs = args.timeout;
    options.allow_non_text_generation = args.allow_non_text_generation;
    Ok(options)
}

// ---------------------------------------------------------------------------
// models
// ---------------------------------------------------------------------------

/// Smaller models first.
pub open spec fn size_sorted(s: Seq<ModelEntryView>) -> bool {
    forall|i: int, j: int| 0 <= i < j < s.len() ==> #[trigger] s[i].params_tenths_b <= #[trigger] s[j].params_tenths_b
}

/// The entries of a given size, in order.
pub open spec fn with_size(s: Seq<ModelEntryView>, p: u32) -> Seq<ModelEntryView> {
    s.filter(|e: ModelEntryView| e.params_tenths_b == p)
}

proof fn lemma_insert_keeps_sizes(out: Seq<ModelEntryView>, pos: int, x: ModelEntryView, p: u32)
    requires
        0 <= pos <= out.len(),
        forall|j: int| pos <= j < out.len() ==> #[trigger] out[j].params_tenths_b > x.params_tenths_b,
    ensures
        with_size(out.insert(pos, x), p) == (if x.params_tenths_b == p {
            with_size(out, p).push(x)
        } else {
            with_size(out, p)
        }),
{
    let f = |e: ModelEntryView| e.params_tenths_b == p;
    let a = out.subrange(0, pos);
    let b = out.subrange(pos, out.len() as int);
    assert(out =~= a + b);
    assert(out.insert(pos, x) =~= a.push(x) + b);
    Seq::filter_distributes_over_add(a, b, f);
    Seq::filter_distributes_over_add(a.push(x), b, f);
    lemma_filter_push(a, x, f);
    if x.params_tenths_b == p {
        assert forall|i: int| 0 <= i < b.len() implies !f(#[trigger] b[i]) by {
            assert(b[i] == out[pos + i]);
        }
        lemma_filter_none(b, f);
        assert(a.filter(f) + b.filter(f) =~= a.filter(f));
        assert(a.filter(f).push(x) + b.filter(f) =~= a.filter(f).push(x));
    }
}

/// The models ordered by size, models of the same size in their order
/// (a stable sort).
pub fn models_by_size(input: Vec<ModelEntry>) -> (r: Vec<ModelEntry>)
    ensures
        size_sorted(entry_views(r@)),
        forall|p: u32| #[trigger] with_size(entry_views(r@), p) == with_size(entry_views(input@), p),
{
    let ghost iv = entry_views(input@);
    let mut rest = input;
    let mut out: Vec<ModelEntry> = Vec::new();
    let ghost mut done: int = 0;
    proof {
        reveal(Seq::filter);
    }
    while rest.len() > 0
        invariant
            0 <= done <= iv.len(),
            rest@.len() == iv.len() - done,
            entry_views(rest@) == iv.subrange(done, iv.len() as int),
            size_sorted(entry_views(out@)),
            forall|p: u32| #[trigger] with_size(entry_views(out@), p) == with_size(iv.subrange(0, done), p),
        decreases rest@.len(),
    {
        let ghost rv = rest@;
        let x = rest.remove(0);
        proof {
            assert(x@ == entry_views(rv)[0]);
            assert(entry_views(rest@) =~= entry_views(rv).subrange(1, rv.len() as int));
        }
        let ghost ov = entry_views(out@);
        let mut pos: usize = 0;
        while pos < out.len() && out[pos].params_tenths_b <= x.params_tenths_b
            invariant
                pos <= out.len(),
                entry_views(out@) == ov,
                forall|j: int| 0 <= j < pos ==> #[trigger] ov[j].params_tenths_b <= x@.params_tenths_b,
            decreases out.len() - pos,
        {
            assert(ov[pos as int] == out@[pos as int]@);
            pos = pos + 1;
        }
        proof {
            if pos < out.len() {
                assert(ov[pos as int] == out@[pos as int]@);
            }
            assert forall|j: int| pos <= j < ov.len() implies #[trigger] ov[j].params_tenths_b > x@.params_tenths_b by {
                assert(ov[pos as int].params_tenths_b > x@.params_tenths_b);
                if j > pos {
                    assert(ov[pos as int].params_tenths_b <= ov[j].params_tenths_b);
                }
            }
            let nv = ov.insert(pos as int, x@);
            assert forall|i: int, j: int| 0 <= i < j < nv.len() implies #[trigger] nv[i].params_tenths_b <= #[trigger] nv[j].params_tenths_b by {
                if i < pos && j == pos {
                } else if i < pos && j > pos {
                    assert(nv[i] == ov[i]);
                    assert(nv[j] == ov[j - 1]);
                } else if i == pos {
                    assert(nv[j] == ov[j - 1]);
                } else if i > pos {
                    assert(nv[i] == ov[i - 1]);
                    assert(nv[j] == ov[j - 1]);
                } else {
                    assert(nv[i] == ov[i]);
                    assert(nv[j] == ov[j]);
                }
            }
            let pre = iv.subrange(0, done + 1);
            assert(pre =~= iv.subrange(0, done).push(x@));
            assert forall|p: u32| #[trigger] with_size(nv, p) == with_size(pre, p) by {
                lemma_insert_keeps_sizes(ov, pos as int, x@, p);
                lemma_filter_push(iv.subrange(0, done), x@, |e: ModelEntryView| e.params_tenths_b == p);
            }
        }
        let ghost before = out@;
        out.insert(pos, x);
        proof {
            assert(entry_views(out@) =~= entry_views(before).insert(pos as int, x@));
            done = done + 1;
        }
    }
    assert(iv.subrange(0, iv.len() as int) =~= iv);
    out
}

/// The rows of `gaia models`: each model with its fit on the machine (when
/// one was detected); with `recommended_only`, only the models that fit.
pub open spec fn model_rows(m: Option<MachineSpecs>, models: Seq<ModelEntryView>, recommended_only: bool) -> Seq<(ModelEntryView, Option<FitStatus>)>
    decreases models.len(),
{
    if models.len() == 0 {
        Seq::empty()
    } else {
        let e = models.last();
        let fit = match m {
            Some(mm) => Some(fit_status(mm, e)),
            None => None,
        };
        let keep = !recommended_only || (fit matches Some(f) && fit_is_positive(f));
        model_rows(m, models.drop_last(), recommended_only) + if keep { seq![(e, fit)] } else { Seq::empty() }
    }
}

pub fn models_table(machine: &Option<MachineSpecs>, models: Vec<ModelEntry>, recommended_only: bool) -> (r: Vec<(ModelEntry, Option<FitStatus>)>)
    ensures
        r@.map_values(|row: (ModelEntry, Option<FitStatus>)| (row.0@, row.1)) == model_rows(*machine, entry_views(models@), recommended_only),
{
    let ghost mv = entry_views(models@);
    let mut out: Vec<(ModelEntry, Option<FitStatus>)> = Vec::new();
    let mut rest = models;
    let ghost mut done: int = 0;
    assert(mv.take(0) =~= Seq::<ModelEntryView>::empty());
    while rest.len() > 0
        invariant
            0 <= done <= mv.len(),
            rest@.len() == mv.len() - done,
            entry_views(rest@) == mv.subrange(done, mv.len() as int),
            out@.map_values(|row: (ModelEntry, Option<FitStatus>)| (row.0@, row.1)) == model_rows(*machine, mv.take(done), recommended_only),
        decreases rest@.len(),
    {
        let ghost rv = rest@;
        let e = rest.remove(0);
        proof {
            assert(e@ == entry_views(rv)[0]);
            assert(entry_views(rest@) =~= entry_views(rv).subrange(1, rv.len() as int));
            assert(mv.take(done + 1).drop_last() =~= mv.take(done));
            assert(mv.take(done + 1).last() == e@);
        }
        let fit: Option<FitStatus> = match machine {
            Some(m) => Some(RecommendationEngine::evaluate_fit(m, &e).0),
            None => None,
        };
        let keep = !recommended_only || match fit {
            Some(f) => f.is_positive(),
            None => false,
        };
        let ghost before = out@.map_values(|row: (ModelEntry, Option<FitStatus>)| (row.0@, row.1));
        if keep {
            let ghost ev = e@;
            out.push((e, fit));
            assert(out@.map_values(|row: (ModelEntry, Option<FitStatus>)| (row.0@, row.1)) =~= before + seq![(ev, fit)]);
        } else {
            assert(out@.map_values(|row: (ModelEntry, Option<FitStatus>)| (row.0@, row.1)) =~= before + Seq::<(ModelEntryView, Option<FitStatus>)>::empty());
        }
        proof {
            done = done + 1;
        }
    }
    assert(mv.take(mv.len() as int) =~= mv);
    out
}

// ---------------------------------------------------------------------------
// doctor, recommend
// ---------------------------------------------------------------------------

fn line2(a: &str, b: &str) -> (r: String)
    ensures
        r@ == a@ + b@,
{
    let mut l = a.to_owned();
    push_str(&mut l, b);
    l
}

/// The first lines of the machine section: OS, kernel, CPU, RAM, Docker
/// and the Hugging Face token.
pub open spec fn machine_basics(m: MachineSpecs) -> Seq<Seq<char>> {
    seq![Seq::<char>::empty(), "Machine"@, "-------"@, "OS: "@ + m.os_name@]
        + (match m.kernel_version {
            Some(k) => seq!["Kernel: "@ + k@],
            None => Seq::empty(),
        })
        + seq![
            "CPU cores: "@ + decimal(m.cpu_cores as nat),
            "RAM: "@ + gb_text(m.ram_total_mib as nat) + " GB"@,
            "Docker: "@ + if m.docker.installed {
                match m.docker.version {
                    Some(v) => v@,
                    None => "installed (version unknown)"@,
                }
            } else {
                "not installed"@
            },
            "Docker daemon: "@ + if m.docker.daemon_accessible { "reachable"@ } else { "not reachable"@ },
            "HF_TOKEN: "@ + if m.hf_token_present { "present"@ } else { "missing (optional unless using gated models)"@ },
        ]
}

/// The GPU lines of the machine section.
pub open spec fn gpu_section(m: MachineSpecs) -> Seq<Seq<char>> {
    match m.gpu {
        Some(g) => seq!["GPU: "@ + g.name@ + " ("@ + gb_text(g.vram_mib as nat) + " GB VRAM)"@]
            + (match g.driver_version {
                Some(d) => seq!["NVIDIA driver: "@ + d@],
                None => Seq::empty(),
            })
            + (match g.cuda_version {
                Some(c) => seq!["CUDA version: "@ + c@],
                None => Seq::empty(),
            }),
        None => seq!["GPU: none detected"@],
    }
}

/// The warnings, when there are any.
pub open spec fn warnings_section(warnings: Seq<Seq<char>>) -> Seq<Seq<char>> {
    if warnings.len() > 0 {
        seq![Seq::<char>::empty(), "Warnings:"@] + warnings.map_values(|w: Seq<char>| "  - "@ + w)
    } else {
        Seq::empty()
    }
}

/// The machine section of `gaia doctor`.
pub open spec fn machine_section(m: MachineSpecs) -> Seq<Seq<char>> {
    machine_basics(m) + gpu_section(m) + warnings_section(views(m.warnings@))
}

fn machine_basics_lines(m: &MachineSpecs) -> (r: Vec<String>)
    ensures
        views(r@) == machine_basics(*m),
{
    let mut lines: Vec<String> = Vec::new();
    lines.push(String::new());
    lines.push("Machine".to_owned());
    lines.push("-------".to_owned());
    lines.push(line2("OS: ", m.os_name.as_str()));
    let ghost a = views(lines@);
    if let Some(k) = &m.kernel_version {
        lines.push(line2("Kernel: ", k.as_str()));
    }
    let ghost b = views(lines@);
    assert(b =~= a + match m.kernel_version { Some(k) => seq!["Kernel: "@ + k@], None => Seq::<Seq<char>>::empty() });
    lines.push(line2("CPU cores: ", u64_to_string(m.cpu_cores as u64).as_str()));
    let mut ram = line2("RAM: ", format_gb(m.ram_total_mib).as_str());
    push_str(&mut ram, " GB");
    lines.push(ram);
    let docker: String = if m.docker.installed {
        match &m.docker.version {
            Some(v) => v.clone(),
            None => "installed (version unknown)".to_owned(),
        }
    } else {
        "not installed".to_owned()
    };
    lines.push(line2("Docker: ", docker.as_str()));
    lines.push(line2("Docker daemon: ", if m.docker.daemon_accessible { "reachable" } else { "not reachable" }));
    lines.push(line2("HF_TOKEN: ", if m.hf_token_present { "present" } else { "missing (optional unless using gated models)" }));
    assert(views(lines@) =~= machine_basics(*m));
    lines
}

fn gpu_lines(m: &MachineSpecs) -> (r: Vec<String>)
    ensures
        views(r@) == gpu_section(*m),
{
    let mut lines: Vec<String> = Vec::new();
    match &m.gpu {
        Some(g) => {
            let mut l = line2("GPU: ", g.name.as_str());
            push_str(&mut l, " (");
            push_str(&mut l, format_gb(g.vram_mib).as_str());
            push_str(&mut l, " GB VRAM)");
            lines.push(l);
            let ghost a = views(lines@);
            if let Some(d) = &g.driver_version {
                lines.push(line2("NVIDIA driver: ", d.as_str()));
            }
            let ghost b = views(lines@);
            assert(b =~= a + match g.driver_version { Some(d) => seq!["NVIDIA driver: "@ + d@], None => Seq::<Seq<char>>::empty() });
            if let Some(cv) = &g.cuda_version {
                lines.push(line2("CUDA version: ", cv.as_str()));
            }
            assert(views(lines@) =~= b + match g.cuda_version { Some(c) => seq!["CUDA version: "@ + c@], None => Seq::<Seq<char>>::empty() });
        },
        None => {
            lines.push("GPU: none detected".to_owned());
        },
    }
    assert(views(lines@) =~= gpu_section(*m));
    lines
}

fn warning_lines(warnings: &Vec<String>) -> (r: Vec<String>)
    ensures
        views(r@) == warnings_section(views(warnings@)),
{
    let mut lines: Vec<String> = Vec::new();
    if warnings.len() == 0 {
        assert(views(lines@) =~= Seq::<Seq<char>>::empty());
        return lines;
    }
    lines.push(String::new());
    lines.push("Warnings:".to_owned());
    let ghost e = views(lines@);
    let ghost wv = views(warnings@);
    let mut i: usize = 0;
    while i < warnings.len()
        invariant
            i <= warnings.len(),
            wv == views(warnings@),
            views(lines@) == e + wv.take(i as int).map_values(|w: Seq<char>| "  - "@ + w),
        decreases warnings.len() - i,
    {
        let ghost before = views(lines@);
        let l = line2("  - ", warnings[i].as_str());
        assert(l@ == "  - "@ + wv[i as int]);
        lines.push(l);
        assert(views(lines@) =~= before.push("  - "@ + wv[i as int]));
        assert(wv.take(i + 1).map_values(|w: Seq<char>| "  - "@ + w) =~= wv.take(i as int).map_values(|w: Seq<char>| "  - "@ + w).push("  - "@ + wv[i as int]));
        i = i + 1;
    }
    assert(wv.take(warnings.len() as int) =~= wv);
    assert(e =~= seq![Seq::<char>::empty(), "Warnings:"@]);
    lines
}

pub fn machine_section_lines(m: &MachineSpecs) -> (r: Vec<String>)
    ensures
        views(r@) == machine_section(*m),
{
    let mut lines = machine_basics_lines(m);
    let ghost a = views(lines@);
    let mut g = gpu_lines(m);
    let ghost gv = views(g@);
    lines.append(&mut g);
    assert(views(lines@) =~= a + gv);
    let ghost b = views(lines@);
    let mut w = warning_lines(&m.warnings);
    let ghost wv = views(w@);
    lines.append(&mut w);
    assert(views(lines@) =~= b + wv);
    lines
}

/// The lines `gaia recommend` prints before its table.
pub open spec fn recommend_header(backend: Option<Seq<char>>, m: MachineSpecs) -> Seq<Seq<char>> {
    seq![
        "gaia recommend"@,
        "=================="@,
        match backend {
            Some(b) => "Backend filter: "@ + b,
            None => "Backend filter: none (showing all compatible models)"@,
        },
        "GPU: "@ + match m.gpu {
            Some(g) => g.name@ + " ("@ + gb_text(g.vram_mib as nat) + " GB)"@,
            None => "none detected"@,
        },
        "RAM: "@ + gb_text(m.ram_total_mib as nat) + " GB"@,
    ]
}

pub fn recommend_header_lines(backend: &Option<String>, m: &MachineSpecs) -> (r: Vec<String>)
    ensures
        views(r@) == recommend_header(opt_view(*backend), *m),
{
    let mut lines: Vec<String> = Vec::new();
    lines.push("gaia recommend".to_owned());
    lines.push("==================".to_owned());
    match backend {
        Some(b) => lines.push(line2("Backend filter: ", b.as_str())),
        None => lines.push("Backend filter: none (showing all compatible models)".to_owned()),
    }
    let gpu: String = match &m.gpu {
        Some(g) => {
            let mut l = line2(g.name.as_str(), " (");
            push_str(&mut l, format_gb(g.vram_mib).as_str());
            push_str(&mut l, " GB)");
            l
        },
        None => "none detected".to_owned(),
    };
    lines.push(line2("GPU: ", gpu.as_str()));
    let mut ram = line2("RAM: ", format_gb(m.ram_total_mib).as_str());
    push_str(&mut ram, " GB");
    lines.push(ram);
    assert(views(lines@) =~= recommend_header(opt_view(*backend), *m));
    lines
}

// ---------------------------------------------------------------------------
// tables
// ---------------------------------------------------------------------------

/// The cells of a table, row by row.
pub open spec fn table_view(rows: Seq<Vec<String>>) -> Seq<Seq<Seq<char>>> {
    rows.map_values(|row: Vec<String>| views(row@))
}

fn push_row(rows: &mut Vec<Vec<String>>, row: Vec<String>)
    ensures
        table_view(final(rows)@) == table_view(old(rows)@).push(views(row@)),
{
    let ghost rv = views(row@);
    rows.push(row);
    assert(table_view(rows@) =~= table_view(old(rows)@).push(rv));
}

pub open spec fn yes_no(b: bool) -> Seq<char> {
    if b { "yes"@ } else { "no"@ }
}

fn yes_no_text(b: bool) -> (r: String)
    ensures
        r@ == yes_no(b),
{
    if b { "yes".to_owned() } else { "no".to_owned() }
}

fn size_text(params_tenths_b: u32) -> (r: String)
    ensures
        r@ == tenths_text(params_tenths_b as nat) + "B"@,
{
    let mut t = format_tenths(params_tenths_b);
    push_str(&mut t, "B");
    t
}

/// A backend in the doctor's table: its name, whether it is available
/// here, and why.
pub open spec fn backend_cells(b: ServingBackend, m: MachineSpecs) -> Seq<Seq<char>> {
    seq![b.spec_display_name(), yes_no(b.spec_availability(m).0), b.spec_availability(m).1]
}

/// The doctor's backend table: every backend, in the usual order.
pub fn backend_rows(m: &MachineSpecs) -> (r: Vec<Vec<String>>)
    ensures
        table_view(r@) == every_backend().map_values(|b: ServingBackend| backend_cells(b, *m)),
{
    let backends = all_backends();
    let mut rows: Vec<Vec<String>> = Vec::new();
    let mut i: usize = 0;
    while i < backends.len()
        invariant
            i <= backends.len(),
            backends@ == every_backend(),
            table_view(rows@) == every_backend().take(i as int).map_values(|b: ServingBackend| backend_cells(b, *m)),
        decreases backends.len() - i,
    {
        let b = &backends[i];
        let availability = b.is_available(m);
        let mut row: Vec<String> = Vec::new();
        row.push(b.display_name().to_owned());
        row.push(yes_no_text(availability.available));
        row.push(availability.reason);
        assert(views(row@) =~= backend_cells(every_backend()[i as int], *m));
        push_row(&mut rows, row);
        i = i + 1;
        assert(table_view(rows@) =~= every_backend().take(i as int).map_values(|b: ServingBackend| backend_cells(b, *m)));
    }
    assert(every_backend().take(i as int) =~= every_backend());
    rows
}

/// A recommendation in a table: the model, its size, the fit and why.
pub open spec fn recommendation_cells(r: RecView) -> Seq<Seq<char>> {
    seq![r.0.id, tenths_text(r.0.params_tenths_b as nat) + "B"@, badge_label(r.1), r.2]
}

/// The first `limit` recommendations, as table rows.
pub fn recommendation_rows(recs: &Vec<ModelRecommendation>, limit: usize) -> (r: Vec<Vec<String>>)
    ensures
        table_view(r@) == rec_views(recs@).take(
            if (limit as int) < recs@.len() { limit as int } else { recs@.len() as int },
        ).map_values(|x: RecView| recommendation_cells(x)),
{
    let n: usize = if limit < recs.len() { limit } else { recs.len() };
    let mut rows: Vec<Vec<String>> = Vec::new();
    let mut i: usize = 0;
    while i < n
        invariant
            i <= n <= recs.len(),
            table_view(rows@) == rec_views(recs@).take(i as int).map_values(|x: RecView| recommendation_cells(x)),
        decreases n - i,
    {
        let rec = &recs[i];
        let mut row: Vec<String> = Vec::new();
        row.push(rec.model.id.clone());
        row.push(size_text(rec.model.params_tenths_b));
        row.push(rec.status.as_badge().to_owned());
        row.push(rec.explanation.clone());
        assert(views(row@) =~= recommendation_cells(rec_views(recs@)[i as int]));
        push_row(&mut rows, row);
        i = i + 1;
        assert(table_view(rows@) =~= rec_views(recs@).take(i as int).map_values(|x: RecView| recommendation_cells(x)));
    }
    rows
}

/// A row of `gaia models`: id, family, size, vLLM and TGI support, the
/// categories, and the fit (`-` when the machine was not read).
pub open spec fn model_cells(row: (ModelEntryView, Option<FitStatus>)) -> Seq<Seq<char>> {
    let e = row.0;
    seq![
        e.id,
        e.family,
        tenths_text(e.params_tenths_b as nat) + "B"@,
        yes_no(e.supports_vllm),
        yes_no(e.supports_tgi),
        join(e.categories, ","@),
        match row.1 {
            Some(f) => badge_label(f),
            None => "-"@,
        },
    ]
}

pub fn model_table_rows(rows: &Vec<(ModelEntry, Option<FitStatus>)>) -> (r: Vec<Vec<String>>)
    ensures
        table_view(r@) == rows@.map_values(|row: (ModelEntry, Option<FitStatus>)| (row.0@, row.1)).map_values(
            |x: (ModelEntryView, Option<FitStatus>)| model_cells(x),
        ),
{
    let ghost src = rows@.map_values(|row: (ModelEntry, Option<FitStatus>)| (row.0@, row.1));
    let mut out: Vec<Vec<String>> = Vec::new();
    let mut i: usize = 0;
    while i < rows.len()
        invariant
            i <= rows.len(),
            src == rows@.map_values(|row: (ModelEntry, Option<FitStatus>)| (row.0@, row.1)),
            table_view(out@) == src.take(i as int).map_values(|x: (ModelEntryView, Option<FitStatus>)| model_cells(x)),
        decreases rows.len() - i,
    {
        let (model, fit) = &rows[i];
        let mut row: Vec<String> = Vec::new();
        row.push(model.id.clone());
        row.push(model.family.clone());
        row.push(size_text(model.params_tenths_b));
        row.push(yes_no_text(model.supports_vllm));
        row.push(yes_no_text(model.supports_tgi));
        row.push(model.categories_label());
        match fit {
            Some(f) => row.push(f.as_badge().to_owned()),
            None => row.push("-".to_owned()),
        }
        assert(views(row@) =~= model_cells(src[i as int]));
        push_row(&mut out, row);
        i = i + 1;
        assert(table_view(out@) =~= src.take(i as int).map_values(|x: (ModelEntryView, Option<FitStatus>)| model_cells(x)));
    }
    assert(src.take(i as int) =~= src);
    out
}

} // verus!
