//! What the selector's screen says: each panel as lines of styled text,
//! computed from the selector's state. The terminal side lays the panels
//! out and draws them.

use vstd::prelude::*;

use crate::machine::{format_gb, gb_text, MachineSpecs};
use crate::output::{pad_to, padded};
use crate::recommendation::badge_label;
use crate::selector::{compact_model_name, compacted, preferred_name, spinner_frame, spinner_frames};
use crate::text::{chars_of, decimal, join, join_strings, push_str, u64_to_string};
use crate::tui::{
    block_title_style, body_text_style, danger_style, emphasis_style, format_tenths, muted_style,
    success_style, tenths_text, viewport, warning_style,
};
use crate::tui::{style, StyleSpec, Theme, ThemeColor};
use crate::selector::{SizeFilter, WizardMode};
use crate::text::views;
use crate::wizard::{selected_id, AppState, AppStateView, ModelItem, ModelItemView};
use crate::tui::{fit_badge, fit_badge_spec};

verus! {

/// A piece of text and its style; `None` keeps the surrounding style.
#[derive(Debug, Clone)]
pub struct StyledSpan {
    pub text: String,
    pub style: Option<StyleSpec>,
}

pub type SpanView = (Seq<char>, Option<StyleSpec>);

impl View for StyledSpan {
    type V = SpanView;

    open spec fn view(&self) -> SpanView {
        (self.text@, self.style)
    }
}

/// One line of a panel: its spans, left to right.
#[derive(Debug, Clone)]
pub struct StyledLine {
    pub spans: Vec<StyledSpan>,
}

impl View for StyledLine {
    type V = Seq<SpanView>;

    open spec fn view(&self) -> Seq<SpanView> {
        self.spans@.map_values(|s: StyledSpan| s@)
    }
}

pub open spec fn lines_view(lines: Seq<StyledLine>) -> Seq<Seq<SpanView>> {
    lines.map_values(|l: StyledLine| l@)
}

pub open spec fn raw(text: Seq<char>) -> SpanView {
    (text, None)
}

pub open spec fn styled(text: Seq<char>, st: StyleSpec) -> SpanView {
    (text, Some(st))
}

/// A line of unstyled text.
pub open spec fn plain(text: Seq<char>) -> Seq<SpanView> {
    seq![raw(text)]
}

fn raw_span(text: String) -> (r: StyledSpan)
    ensures
        r@ == raw(text@),
{
    StyledSpan { text, style: None }
}

fn styled_span(text: String, st: StyleSpec) -> (r: StyledSpan)
    ensures
        r@ == styled(text@, st),
{
    StyledSpan { text, style: Some(st) }
}

fn line_of(spans: Vec<StyledSpan>) -> (r: StyledLine)
    ensures
        r@ == spans@.map_values(|s: StyledSpan| s@),
{
    StyledLine { spans }
}

fn push_span(spans: &mut Vec<StyledSpan>, s: StyledSpan)
    ensures
        final(spans)@.map_values(|x: StyledSpan| x@) == old(spans)@.map_values(|x: StyledSpan| x@).push(s@),
{
    let ghost sv = s@;
    spans.push(s);
    assert(spans@.map_values(|x: StyledSpan| x@) =~= old(spans)@.map_values(|x: StyledSpan| x@).push(sv));
}

fn plain_line(text: String) -> (r: StyledLine)
    ensures
        r@ == plain(text@),
{
    let mut v: Vec<StyledSpan> = Vec::new();
    push_span(&mut v, raw_span(text));
    let r = line_of(v);
    assert(r@ =~= plain(text@));
    r
}

fn push_line(lines: &mut Vec<StyledLine>, l: StyledLine)
    ensures
        lines_view(final(lines)@) == lines_view(old(lines)@).push(l@),
{
    let ghost lv = l@;
    lines.push(l);
    assert(lines_view(lines@) =~= lines_view(old(lines)@).push(lv));
}

fn concat(a: &str, b: &str) -> (r: String)
    ensures
        r@ == a@ + b@,
{
    let mut r = a.to_owned();
    push_str(&mut r, b);
    r
}

/// The GPU line's text.
pub open spec fn gpu_text(m: MachineSpecs) -> Seq<char> {
    match m.gpu {
        Some(g) => "GPU: "@ + g.name@ + " ("@ + gb_text(g.vram_mib as nat) + " GB)"@,
        None => "GPU: none detected"@,
    }
}

/// A yes/no badge as `boolean_badge` draws it.
pub open spec fn badge_span(label: Seq<char>, value: bool) -> SpanView {
    if value {
        styled(" "@ + label + ":ok "@, style(Some(ThemeColor::Black), Some(ThemeColor::LightGreen), false))
    } else {
        styled(" "@ + label + ":missing "@, style(Some(ThemeColor::White), Some(ThemeColor::DarkGray), false))
    }
}

/// The machine panel: GPU with its badge, RAM, cores, Docker, the token,
/// and the NVIDIA driver when a GPU was found.
pub open spec fn machine_lines(m: MachineSpecs) -> Seq<Seq<SpanView>> {
    let gpu = seq![styled(gpu_text(m), emphasis_style()), raw(" "@), badge_span("gpu"@, m.gpu is Some)];
    let docker = seq![
        raw("Docker: "@),
        if m.docker.daemon_accessible { styled("OK"@, success_style()) } else { styled("missing/locked"@, danger_style()) },
    ];
    let token = seq![
        raw("HF_TOKEN: "@),
        if m.hf_token_present { styled("present"@, success_style()) } else { styled("missing"@, warning_style()) },
    ];
    let base = seq![
        gpu,
        plain("RAM: "@ + gb_text(m.ram_total_mib as nat) + " GB"@),
        plain("CPU: "@ + decimal(m.cpu_cores as nat) + " cores"@),
        docker,
        token,
    ];
    match m.gpu {
        Some(g) => base.push(plain("NVIDIA driver: "@ + match g.driver_version {
            Some(v) => v@,
            None => "unknown"@,
        })),
        None => base,
    }
}

pub fn machine_panel(m: &MachineSpecs) -> (r: Vec<StyledLine>)
    ensures
        lines_view(r@) == machine_lines(*m),
{
    let mut lines: Vec<StyledLine> = Vec::new();

    let gpu_text = match &m.gpu {
        Some(g) => {
            let mut t = concat("GPU: ", g.name.as_str());
            push_str(&mut t, " (");
            push_str(&mut t, format_gb(g.vram_mib).as_str());
            push_str(&mut t, " GB)");
            t
        },
        None => "GPU: none detected".to_owned(),
    };
    assert(gpu_text@ =~= crate::panels::gpu_text(*m));
    let mut first: Vec<StyledSpan> = Vec::new();
    push_span(&mut first, styled_span(gpu_text, Theme::emphasis()));
    push_span(&mut first, raw_span(" ".to_owned()));
    let (badge, badge_style) = crate::tui::boolean_badge("gpu", m.gpu.is_some());
    push_span(&mut first, styled_span(badge, badge_style));
    let l0 = line_of(first);
    assert(l0@ =~= machine_lines(*m)[0]);
    push_line(&mut lines, l0);

    let mut ram = concat("RAM: ", format_gb(m.ram_total_mib).as_str());
    push_str(&mut ram, " GB");
    assert(ram@ =~= "RAM: "@ + gb_text(m.ram_total_mib as nat) + " GB"@);
    push_line(&mut lines, plain_line(ram));

    let mut cpu = concat("CPU: ", u64_to_string(m.cpu_cores as u64).as_str());
    push_str(&mut cpu, " cores");
    assert(cpu@ =~= "CPU: "@ + decimal(m.cpu_cores as nat) + " cores"@);
    push_line(&mut lines, plain_line(cpu));

    let mut docker: Vec<StyledSpan> = Vec::new();
    push_span(&mut docker, raw_span("Docker: ".to_owned()));
    if m.docker.daemon_accessible {
        push_span(&mut docker, styled_span("OK".to_owned(), Theme::success()));
    } else {
        push_span(&mut docker, styled_span("missing/locked".to_owned(), Theme::danger()));
    }
    let l3 = line_of(docker);
    assert(l3@ =~= machine_lines(*m)[3]);
    push_line(&mut lines, l3);

    let mut token: Vec<StyledSpan> = Vec::new();
    push_span(&mut token, raw_span("HF_TOKEN: ".to_owned()));
    if m.hf_token_present {
        push_span(&mut token, styled_span("present".to_owned(), Theme::success()));
    } else {
        push_span(&mut token, styled_span("missing".to_owned(), Theme::warning()));
    }
    let l4 = line_of(token);
    assert(l4@ =~= machine_lines(*m)[4]);
    push_line(&mut lines, l4);

    assert(lines_view(lines@) =~= machine_lines(*m).take(5));
    if let Some(g) = &m.gpu {
        let driver = match &g.driver_version {
            Some(v) => concat("NVIDIA driver: ", v.as_str()),
            None => concat("NVIDIA driver: ", "unknown"),
        };
        assert(driver@ =~= "NVIDIA driver: "@ + match g.driver_version {
            Some(v) => v@,
            None => "unknown"@,
        });
        push_line(&mut lines, plain_line(driver));
    }
    assert(lines_view(lines@) =~= machine_lines(*m));
    lines
}

/// The session line: backend, how many models are listed, and the status
/// behind the spinner.
pub open spec fn header_spans(app: AppStateView) -> Seq<SpanView> {
    seq![
        styled("Backend: "@, block_title_style()),
        styled(app.backend_choices[app.backend_index as int].label@, emphasis_style()),
        raw("   "@),
        styled("Visible models: "@, block_title_style()),
        styled(decimal(app.models.len()), emphasis_style()),
        raw("   "@),
        styled(spinner_frames()[(app.spinner_tick % 4) as int] + " "@ + app.status_message, body_text_style()),
    ]
}

pub fn header_line(app: &AppState) -> (r: StyledLine)
    requires
        app.backend_index < app.backend_choices.len(),
    ensures
        r@ == header_spans(app@),
{
    let mut spans: Vec<StyledSpan> = Vec::new();
    push_span(&mut spans, styled_span("Backend: ".to_owned(), Theme::block_title()));
    push_span(&mut spans, styled_span(app.current_backend().label.to_owned(), Theme::emphasis()));
    push_span(&mut spans, raw_span("   ".to_owned()));
    push_span(&mut spans, styled_span("Visible models: ".to_owned(), Theme::block_title()));
    push_span(&mut spans, styled_span(u64_to_string(app.models.len() as u64), Theme::emphasis()));
    push_span(&mut spans, raw_span("   ".to_owned()));
    let mut status = concat(spinner_frame(app.spinner_tick), " ");
    push_str(&mut status, app.status_message.as_str());
    push_span(&mut spans, styled_span(status, Theme::body_text()));
    let r = line_of(spans);
    assert(r@ =~= header_spans(app@));
    r
}

/// The two lines of one backend in the backend panel: the cursor mark,
/// the label padded to eight characters, a `recommended` tag for the
/// preferred backend and its availability; then the reason, indented.
pub open spec fn backend_entry(app: AppStateView, i: int) -> Seq<Seq<SpanView>> {
    let b = app.backend_choices[i];
    let a = app.backend_availability[i];
    let selected = i == app.backend_index;
    let head = seq![
        styled(if selected { "> "@ } else { "  "@ }, if selected { emphasis_style() } else { muted_style() }),
        styled(padded(b.label@, 8), if selected { emphasis_style() } else { body_text_style() }),
    ] + (if preferred_name(app.preferred_backend) == Some(b.id@) {
        seq![styled(" recommended "@, style(Some(ThemeColor::Black), Some(ThemeColor::LightGreen), false))]
    } else {
        Seq::empty()
    }) + seq![
        raw(" "@),
        if a.available { styled("available"@, success_style()) } else { styled("limited"@, warning_style()) },
    ];
    seq![head, seq![styled("    "@ + a.reason@, muted_style())]]
}

/// The entries of the backends `[start, end)`.
pub open spec fn backend_rows(app: AppStateView, start: int, end: int) -> Seq<Seq<SpanView>>
    decreases end - start,
{
    if end <= start {
        Seq::empty()
    } else {
        backend_rows(app, start, end - 1) + backend_entry(app, end - 1)
    }
}

/// The backend panel for a panel `height` rows high: the backends that
/// the viewport keeps in view, or a notice when there is none.
pub open spec fn backend_panel_lines(app: AppStateView, height: nat) -> Seq<Seq<SpanView>> {
    let total = app.backend_choices.len();
    if total == 0 {
        seq![plain("No backend configured."@)]
    } else {
        let (start, end) = viewport(total, app.backend_index as nat, height);
        backend_rows(app, start as int, end as int)
    }
}

fn backend_entry_lines(app: &AppState, i: usize) -> (r: (StyledLine, StyledLine))
    requires
        i < app.backend_choices.len(),
        i < app.backend_availability.len(),
    ensures
        seq![r.0@, r.1@] == backend_entry(app@, i as int),
{
    let b = app.backend_choices[i];
    let a = &app.backend_availability[i];
    let selected = i == app.backend_index;
    let mut head: Vec<StyledSpan> = Vec::new();
    if selected {
        push_span(&mut head, styled_span("> ".to_owned(), Theme::emphasis()));
        push_span(&mut head, styled_span(pad_to(b.label, 8), Theme::emphasis()));
    } else {
        push_span(&mut head, styled_span("  ".to_owned(), Theme::muted()));
        push_span(&mut head, styled_span(pad_to(b.label, 8), Theme::body_text()));
    }
    if app.is_backend_preferred(b.id) {
        push_span(&mut head, styled_span(
            " recommended ".to_owned(),
            StyleSpec { fg: Some(ThemeColor::Black), bg: Some(ThemeColor::LightGreen), bold: false },
        ));
    }
    push_span(&mut head, raw_span(" ".to_owned()));
    if a.available {
        push_span(&mut head, styled_span("available".to_owned(), Theme::success()));
    } else {
        push_span(&mut head, styled_span("limited".to_owned(), Theme::warning()));
    }
    let head_line = line_of(head);
    let mut detail: Vec<StyledSpan> = Vec::new();
    push_span(&mut detail, styled_span(concat("    ", a.reason.as_str()), Theme::muted()));
    let detail_line = line_of(detail);
    assert(head_line@ =~= backend_entry(app@, i as int)[0]);
    assert(detail_line@ =~= backend_entry(app@, i as int)[1]);
    assert(seq![head_line@, detail_line@] =~= backend_entry(app@, i as int));
    (head_line, detail_line)
}

pub fn backend_panel(app: &AppState, height: u16) -> (r: Vec<StyledLine>)
    requires
        app.backend_availability.len() == app.backend_choices.len(),
    ensures
        lines_view(r@) == backend_panel_lines(app@, height as nat),
{
    let total = app.backend_choices.len();
    let mut lines: Vec<StyledLine> = Vec::new();
    if total == 0 {
        push_line(&mut lines, plain_line("No backend configured.".to_owned()));
        assert(lines_view(lines@) =~= backend_panel_lines(app@, height as nat));
        return lines;
    }
    let (start, end) = crate::tui::backend_viewport(total, app.backend_index, height);
    let mut i = start;
    assert(lines_view(lines@) =~= backend_rows(app@, start as int, start as int));
    while i < end
        invariant
            start <= i <= end <= total,
            total == app.backend_choices.len(),
            app.backend_availability.len() == total,
            lines_view(lines@) == backend_rows(app@, start as int, i as int),
        decreases end - i,
    {
        let (head, detail) = backend_entry_lines(app, i);
        let ghost before = lines_view(lines@);
        push_line(&mut lines, head);
        push_line(&mut lines, detail);
        i = i + 1;
        assert(lines_view(lines@) =~= before + backend_entry(app@, (i - 1) as int));
    }
    lines
}

/// `s` with spaces in front up to `width` characters (unchanged when longer).
pub open spec fn padded_left(s: Seq<char>, width: nat) -> Seq<char> {
    if s.len() >= width {
        s
    } else {
        Seq::new((width - s.len()) as nat, |i: int| ' ') + s
    }
}

fn pad_left_to(s: &str, width: usize) -> (r: String)
    ensures
        r@ == padded_left(s@, width as nat),
{
    let n = chars_of(s).len();
    if n >= width {
        return s.to_owned();
    }
    let mut r = String::new();
    let mut k: usize = n;
    assert(r@ =~= Seq::new((k - n) as nat, |i: int| ' '));
    while k < width
        invariant
            n <= k <= width,
            r@ == Seq::new((k - n) as nat, |i: int| ' '),
        decreases width - k,
    {
        r.push(' ');
        k = k + 1;
        assert(r@ =~= Seq::new((k - n) as nat, |i: int| ' '));
    }
    push_str(&mut r, s);
    r
}

/// One row of the model list: the id shortened to 34 characters in a
/// column of 36, the size right-aligned, the fit badge, then the
/// `recommended` and `gated` tags where they apply.
pub open spec fn model_row_spans(m: ModelItemView) -> Seq<SpanView> {
    seq![
        raw(padded(compacted(m.model.id, 34), 36)),
        styled(padded_left(tenths_text(m.model.params_tenths_b as nat), 5) + "B "@, body_text_style()),
        styled(fit_badge_spec(m.fit).0, style(Some(ThemeColor::Black), Some(fit_badge_spec(m.fit).1), true)),
    ] + (if m.recommended {
        seq![raw(" "@), styled(" recommended "@, style(Some(ThemeColor::Black), Some(ThemeColor::LightGreen), true))]
    } else {
        Seq::empty()
    }) + (if m.model.gated {
        seq![raw(" "@), styled(" gated "@, style(Some(ThemeColor::Black), Some(ThemeColor::Yellow), false))]
    } else {
        Seq::empty()
    })
}

pub fn model_row(m: &ModelItem) -> (r: StyledLine)
    ensures
        r@ == model_row_spans(m@),
{
    let mut spans: Vec<StyledSpan> = Vec::new();
    let name = compact_model_name(m.id.as_str(), 34);
    push_span(&mut spans, raw_span(pad_to(name.as_str(), 36)));
    let mut size = pad_left_to(format_tenths(m.params_tenths_b).as_str(), 5);
    push_str(&mut size, "B ");
    push_span(&mut spans, styled_span(size, Theme::body_text()));
    let (badge, badge_style) = fit_badge(m.fit);
    push_span(&mut spans, styled_span(badge.to_owned(), badge_style));
    if m.recommended {
        push_span(&mut spans, raw_span(" ".to_owned()));
        push_span(&mut spans, styled_span(
            " recommended ".to_owned(),
            StyleSpec { fg: Some(ThemeColor::Black), bg: Some(ThemeColor::LightGreen), bold: true },
        ));
    }
    if m.gated {
        push_span(&mut spans, raw_span(" ".to_owned()));
        push_span(&mut spans, styled_span(
            " gated ".to_owned(),
            StyleSpec { fg: Some(ThemeColor::Black), bg: Some(ThemeColor::Yellow), bold: false },
        ));
    }
    let r = line_of(spans);
    assert(r@ =~= model_row_spans(m@));
    r
}

/// The model list: a row per listed model, or a notice when no model
/// passes the filters.
pub open spec fn model_list_lines(app: AppStateView) -> Seq<Seq<SpanView>> {
    if app.models.len() == 0 {
        seq![seq![styled("No model matches the current filters."@, warning_style())]]
    } else {
        app.models.map_values(|m: ModelItemView| model_row_spans(m))
    }
}

pub fn model_list(app: &AppState) -> (r: Vec<StyledLine>)
    ensures
        lines_view(r@) == model_list_lines(app@),
{
    let mut lines: Vec<StyledLine> = Vec::new();
    if app.models.len() == 0 {
        let mut spans: Vec<StyledSpan> = Vec::new();
        push_span(&mut spans, styled_span("No model matches the current filters.".to_owned(), Theme::warning()));
        let l = line_of(spans);
        assert(l@ =~= seq![styled("No model matches the current filters."@, warning_style())]);
        push_line(&mut lines, l);
        assert(lines_view(lines@) =~= model_list_lines(app@));
        return lines;
    }
    let mut i: usize = 0;
    while i < app.models.len()
        invariant
            i <= app.models.len(),
            lines_view(lines@) == app@.models.take(i as int).map_values(|m: ModelItemView| model_row_spans(m)),
        decreases app.models.len() - i,
    {
        push_line(&mut lines, model_row(&app.models[i]));
        i = i + 1;
        assert(lines_view(lines@) =~= app@.models.take(i as int).map_values(|m: ModelItemView| model_row_spans(m)));
    }
    assert(app@.models.take(i as int) =~= app@.models);
    lines
}

pub open spec fn yes_no(b: bool) -> Seq<char> {
    if b { "yes"@ } else { "no"@ }
}

fn yes_no_str(b: bool) -> (r: &'static str)
    ensures
        r@ == yes_no(b),
{
    if b { "yes" } else { "no" }
}

/// The first half of a model's details: name, id, family, size,
/// categories, a blank line and the fit.
pub open spec fn detail_head(m: ModelItemView) -> Seq<Seq<SpanView>> {
    let e = m.model;
    seq![
        seq![styled("Model: "@, block_title_style()), styled(e.display_name, emphasis_style())],
        plain("ID: "@ + e.id),
        plain("Family: "@ + e.family),
        plain("Params: "@ + tenths_text(e.params_tenths_b as nat) + "B"@),
        plain("Categories: "@ + join(e.categories, ", "@)),
        plain(Seq::empty()),
        seq![styled("Fit: "@ + badge_label(m.fit), emphasis_style())],
    ]
}

/// The second half: why, the VRAM targets, a blank line, the use, the
/// backends it runs on, and where its link is shown.
pub open spec fn detail_tail(m: ModelItemView) -> Seq<Seq<SpanView>> {
    let e = m.model;
    seq![
        plain("Why: "@ + m.explanation),
        plain("VRAM GB (FP16/INT8/INT4): "@ + tenths_text(e.min_vram_fp16_tenths_gb as nat) + "/"@
            + tenths_text(e.min_vram_int8_tenths_gb as nat) + "/"@ + tenths_text(e.min_vram_int4_tenths_gb as nat)),
        plain(Seq::empty()),
        plain("Use: "@ + e.recommended_use),
        plain("Supports: vLLM="@ + yes_no(e.supports_vllm) + " | TGI="@ + yes_no(e.supports_tgi)
            + " | SGLang="@ + yes_no(m.supports_sglang)),
        plain("          llama.cpp="@ + yes_no(m.supports_llamacpp) + " | Ollama="@ + yes_no(m.supports_ollama)),
        plain("HF link: see footer in details focus"@),
    ]
}

/// The details of the selected model, or a prompt when none is selected.
pub open spec fn details_lines(app: AppStateView) -> Seq<Seq<SpanView>> {
    if app.selected_model_index < app.models.len() {
        let m = app.models[app.selected_model_index as int];
        detail_head(m) + detail_tail(m)
    } else {
        seq![plain("Select a model to view details."@)]
    }
}

fn vram_text(m: &ModelItem) -> (r: String)
    ensures
        r@ == "VRAM GB (FP16/INT8/INT4): "@ + tenths_text(m.min_vram_fp16_tenths_gb as nat) + "/"@
            + tenths_text(m.min_vram_int8_tenths_gb as nat) + "/"@ + tenths_text(m.min_vram_int4_tenths_gb as nat),
{
    let mut t = concat("VRAM GB (FP16/INT8/INT4): ", format_tenths(m.min_vram_fp16_tenths_gb).as_str());
    push_str(&mut t, "/");
    push_str(&mut t, format_tenths(m.min_vram_int8_tenths_gb).as_str());
    push_str(&mut t, "/");
    push_str(&mut t, format_tenths(m.min_vram_int4_tenths_gb).as_str());
    t
}

fn supports_text(m: &ModelItem) -> (r: (String, String))
    ensures
        r.0@ == "Supports: vLLM="@ + yes_no(m.supports_vllm) + " | TGI="@ + yes_no(m.supports_tgi)
            + " | SGLang="@ + yes_no(m.supports_sglang),
        r.1@ == "          llama.cpp="@ + yes_no(m.supports_llamacpp) + " | Ollama="@ + yes_no(m.supports_ollama),
{
    let mut a = concat("Supports: vLLM=", yes_no_str(m.supports_vllm));
    push_str(&mut a, " | TGI=");
    push_str(&mut a, yes_no_str(m.supports_tgi));
    push_str(&mut a, " | SGLang=");
    push_str(&mut a, yes_no_str(m.supports_sglang));
    let mut b = concat("          llama.cpp=", yes_no_str(m.supports_llamacpp));
    push_str(&mut b, " | Ollama=");
    push_str(&mut b, yes_no_str(m.supports_ollama));
    (a, b)
}

fn push_detail_head(lines: &mut Vec<StyledLine>, m: &ModelItem)
    ensures
        lines_view(final(lines)@) == lines_view(old(lines)@) + detail_head(m@),
{
    proof {
        reveal_strlit("");
    }
    let ghost start = lines_view(lines@);
    let mut title: Vec<StyledSpan> = Vec::new();
    push_span(&mut title, styled_span("Model: ".to_owned(), Theme::block_title()));
    push_span(&mut title, styled_span(m.display_name.clone(), Theme::emphasis()));
    let l0 = line_of(title);
    assert(l0@ =~= detail_head(m@)[0]);
    push_line(lines, l0);
    push_line(lines, plain_line(concat("ID: ", m.id.as_str())));
    push_line(lines, plain_line(concat("Family: ", m.family.as_str())));
    let mut params = concat("Params: ", format_tenths(m.params_tenths_b).as_str());
    push_str(&mut params, "B");
    push_line(lines, plain_line(params));
    let cats = join_strings(&m.categories, ", ");
    push_line(lines, plain_line(concat("Categories: ", cats.as_str())));
    push_line(lines, plain_line(String::new()));
    let mut fit: Vec<StyledSpan> = Vec::new();
    push_span(&mut fit, styled_span(concat("Fit: ", m.fit.as_badge()), Theme::emphasis()));
    let l6 = line_of(fit);
    assert(l6@ =~= detail_head(m@)[6]);
    push_line(lines, l6);
    assert(lines_view(lines@) =~= start + detail_head(m@));
}

fn push_detail_tail(lines: &mut Vec<StyledLine>, m: &ModelItem)
    ensures
        lines_view(final(lines)@) == lines_view(old(lines)@) + detail_tail(m@),
{
    proof {
        reveal_strlit("");
    }
    let ghost start = lines_view(lines@);
    push_line(lines, plain_line(concat("Why: ", m.explanation.as_str())));
    push_line(lines, plain_line(vram_text(m)));
    push_line(lines, plain_line(String::new()));
    push_line(lines, plain_line(concat("Use: ", m.recommended_use.as_str())));
    let (a, b) = supports_text(m);
    push_line(lines, plain_line(a));
    push_line(lines, plain_line(b));
    push_line(lines, plain_line("HF link: see footer in details focus".to_owned()));
    assert(lines_view(lines@) =~= start + detail_tail(m@));
}

pub fn model_details(app: &AppState) -> (r: Vec<StyledLine>)
    ensures
        lines_view(r@) == details_lines(app@),
{
    let mut lines: Vec<StyledLine> = Vec::new();
    match app.selected_model() {
        None => {
            push_line(&mut lines, plain_line("Select a model to view details.".to_owned()));
        },
        Some(m) => {
            push_detail_head(&mut lines, m);
            push_detail_tail(&mut lines, m);
        },
    }
    assert(lines_view(lines@) =~= details_lines(app@));
    lines
}

/// The title of the details panel, which says how to move the focus.
pub fn details_title(focus: bool) -> (r: &'static str)
    ensures
        r@ == if focus { " Model details [focus] | Space to return "@ } else { " Model details | Space to focus "@ },
{
    if focus { " Model details [focus] | Space to return " } else { " Model details | Space to focus " }
}

/// The confirmation before launch: backend, model, port, key (or the
/// local key when none was typed), and the backend's availability.
pub open spec fn confirm_view(app: AppStateView) -> Seq<Seq<SpanView>> {
    confirm_view_settings(app) + confirm_view_status(app)
}

/// What will be launched.
pub open spec fn confirm_view_settings(app: AppStateView) -> Seq<Seq<SpanView>> {
    seq![
        plain("Ready to launch with this configuration?"@),
        plain(Seq::empty()),
        plain("Backend: "@ + app.backend_choices[app.backend_index as int].label@),
        plain("Model: "@ + match selected_id(app) {
            Some(id) => id,
            None => "-"@,
        }),
        plain("API port: "@ + app.port_input),
        plain("API key: "@ + if app.api_key_input.len() == 0 { "local-key"@ } else { app.api_key_input }),
        plain(Seq::empty()),
    ]
}

/// The backend's availability, and the keys that answer.
pub open spec fn confirm_view_status(app: AppStateView) -> Seq<Seq<SpanView>> {
    let a = app.backend_availability[app.backend_index as int];
    seq![
        seq![
            styled("Backend status: "@, block_title_style()),
            if a.available { styled("available"@, success_style()) } else { styled("limited"@, warning_style()) },
        ],
        plain("Reason: "@ + a.reason@),
        plain(Seq::empty()),
        plain("Enter = launch | Esc = back"@),
    ]
}

fn push_confirm_settings(lines: &mut Vec<StyledLine>, app: &AppState)
    requires
        app.backend_index < app.backend_choices.len(),
    ensures
        lines_view(final(lines)@) == lines_view(old(lines)@) + confirm_view_settings(app@),
{
    proof {
        reveal_strlit("");
    }
    let ghost start = lines_view(lines@);
    push_line(lines, plain_line("Ready to launch with this configuration?".to_owned()));
    push_line(lines, plain_line(String::new()));
    push_line(lines, plain_line(concat("Backend: ", app.current_backend().label)));
    let model = match app.selected_model() {
        Some(m) => concat("Model: ", m.id.as_str()),
        None => concat("Model: ", "-"),
    };
    push_line(lines, plain_line(model));
    push_line(lines, plain_line(concat("API port: ", app.port_input.as_str())));
    let key = if app.api_key_input.as_str().is_empty() {
        concat("API key: ", "local-key")
    } else {
        concat("API key: ", app.api_key_input.as_str())
    };
    push_line(lines, plain_line(key));
    push_line(lines, plain_line(String::new()));
    assert(lines_view(lines@) =~= start + confirm_view_settings(app@));
}

fn push_confirm_status(lines: &mut Vec<StyledLine>, app: &AppState)
    requires
        app.backend_index < app.backend_availability.len(),
    ensures
        lines_view(final(lines)@) == lines_view(old(lines)@) + confirm_view_status(app@),
{
    proof {
        reveal_strlit("");
    }
    let ghost start = lines_view(lines@);
    let a = app.current_backend_availability();
    let mut status: Vec<StyledSpan> = Vec::new();
    push_span(&mut status, styled_span("Backend status: ".to_owned(), Theme::block_title()));
    if a.available {
        push_span(&mut status, styled_span("available".to_owned(), Theme::success()));
    } else {
        push_span(&mut status, styled_span("limited".to_owned(), Theme::warning()));
    }
    let l0 = line_of(status);
    assert(l0@ =~= confirm_view_status(app@)[0]);
    push_line(lines, l0);
    push_line(lines, plain_line(concat("Reason: ", a.reason.as_str())));
    push_line(lines, plain_line(String::new()));
    push_line(lines, plain_line("Enter = launch | Esc = back".to_owned()));
    assert(lines_view(lines@) =~= start + confirm_view_status(app@));
}

pub fn confirm_lines(app: &AppState) -> (r: Vec<StyledLine>)
    requires
        app.backend_index < app.backend_choices.len(),
        app.backend_index < app.backend_availability.len(),
    ensures
        lines_view(r@) == confirm_view(app@),
{
    let mut lines: Vec<StyledLine> = Vec::new();
    push_confirm_settings(&mut lines, app);
    push_confirm_status(&mut lines, app);
    assert(lines_view(lines@) =~= confirm_view(app@));
    lines
}

/// A text-entry popup: the hint, a blank line, and the text typed so far
/// behind a prompt, with a cursor mark.
pub open spec fn input_popup_view(subtitle: Seq<char>, input: Seq<char>) -> Seq<Seq<SpanView>> {
    seq![
        plain(subtitle),
        plain(Seq::empty()),
        seq![styled("> "@, emphasis_style()), styled(input + "_"@, emphasis_style())],
    ]
}

fn input_popup_lines(subtitle: &str, input: &str) -> (r: Vec<StyledLine>)
    ensures
        lines_view(r@) == input_popup_view(subtitle@, input@),
{
    proof {
        reveal_strlit("");
    }
    let mut lines: Vec<StyledLine> = Vec::new();
    push_line(&mut lines, plain_line(subtitle.to_owned()));
    push_line(&mut lines, plain_line(String::new()));
    let mut prompt: Vec<StyledSpan> = Vec::new();
    push_span(&mut prompt, styled_span("> ".to_owned(), Theme::emphasis()));
    push_span(&mut prompt, styled_span(concat(input, "_"), Theme::emphasis()));
    let l2 = line_of(prompt);
    assert(l2@ =~= input_popup_view(subtitle@, input@)[2]);
    push_line(&mut lines, l2);
    assert(lines_view(lines@) =~= input_popup_view(subtitle@, input@));
    lines
}

/// The option a picker highlights: the cursor, kept on the last option;
/// none when there is no option.
pub open spec fn highlight(len: nat, index: nat) -> Option<usize> {
    if len == 0 {
        None
    } else if index < len {
        Some(index as usize)
    } else {
        Some((len - 1) as usize)
    }
}

fn highlight_of(len: usize, index: usize) -> (r: Option<usize>)
    ensures
        r == highlight(len as nat, index as nat),
{
    if len == 0 {
        None
    } else if index < len {
        Some(index)
    } else {
        Some(len - 1)
    }
}

/// The popup drawn over the screen in each mode.
pub enum Modal {
    /// Browsing: no popup.
    Hidden,
    /// A text field, with its title.
    Input { title: &'static str, lines: Vec<StyledLine> },
    /// A picker: its title, its options and the highlighted one.
    Selection { title: &'static str, options: Vec<String>, highlighted: Option<usize> },
    /// The launch confirmation.
    Confirm { title: &'static str, lines: Vec<StyledLine> },
}

pub open spec fn size_labels() -> Seq<Seq<char>> {
    seq!["All sizes"@, "<= 8B"@, "<= 14B"@, "<= 32B"@]
}

fn copy_strings(v: &Vec<String>) -> (r: Vec<String>)
    ensures
        views(r@) == views(v@),
{
    let mut r: Vec<String> = Vec::new();
    let mut i: usize = 0;
    while i < v.len()
        invariant
            i <= v.len(),
            views(r@) == views(v@).take(i as int),
        decreases v.len() - i,
    {
        let ghost before = r@;
        let c = v[i].clone();
        r.push(c);
        assert(r@ == before.push(c));
        assert(views(r@) =~= views(before).push(v@[i as int]@));
        i = i + 1;
        assert(views(r@) =~= views(v@).take(i as int));
    }
    assert(views(v@).take(i as int) =~= views(v@));
    r
}

/// The popup for the current mode.
pub fn modal(app: &AppState) -> (r: Modal)
    requires
        app.backend_index < app.backend_choices.len(),
        app.backend_index < app.backend_availability.len(),
    ensures
        match app.mode {
            WizardMode::Browse => r is Hidden,
            WizardMode::Search => r matches Modal::Input { title, lines } && title@ == " Search model "@
                && lines_view(lines@) == input_popup_view("Type a model id, family, or category."@, app@.search_input),
            WizardMode::PortInput => r matches Modal::Input { title, lines } && title@ == " API port "@
                && lines_view(lines@) == input_popup_view("OpenAI-compatible API will listen on this port."@, app@.port_input),
            WizardMode::ApiKeyInput => r matches Modal::Input { title, lines } && title@ == " API key "@
                && lines_view(lines@) == input_popup_view("Leave empty to use local-key (Ctrl+g)."@, app@.api_key_input),
            WizardMode::CategoryPicker => r matches Modal::Selection { title, options, highlighted }
                && title@ == " Category filter "@ && views(options@) == app@.category_options
                && highlighted == highlight(app.category_options.len() as nat, app.category_picker_index as nat),
            WizardMode::SizePicker => r matches Modal::Selection { title, options, highlighted }
                && title@ == " Size filter "@ && views(options@) == size_labels()
                && highlighted == highlight(4, app.size_picker_index as nat),
            WizardMode::Confirm => r matches Modal::Confirm { title, lines } && title@ == " Confirm launch "@
                && lines_view(lines@) == confirm_view(app@),
        },
{
    match app.mode {
        WizardMode::Browse => Modal::Hidden,
        WizardMode::Search => Modal::Input {
            title: " Search model ",
            lines: input_popup_lines("Type a model id, family, or category.", app.search_input.as_str()),
        },
        WizardMode::PortInput => Modal::Input {
            title: " API port ",
            lines: input_popup_lines("OpenAI-compatible API will listen on this port.", app.port_input.as_str()),
        },
        WizardMode::ApiKeyInput => Modal::Input {
            title: " API key ",
            lines: input_popup_lines("Leave empty to use local-key (Ctrl+g).", app.api_key_input.as_str()),
        },
        WizardMode::CategoryPicker => Modal::Selection {
            title: " Category filter ",
            options: copy_strings(&app.category_options),
            highlighted: highlight_of(app.category_options.len(), app.category_picker_index),
        },
        WizardMode::SizePicker => {
            let mut options: Vec<String> = Vec::new();
            let filters = SizeFilter::all();
            options.push(filters[0].label().to_owned());
            options.push(filters[1].label().to_owned());
            options.push(filters[2].label().to_owned());
            options.push(filters[3].label().to_owned());
            assert(views(options@) =~= size_labels());
            Modal::Selection { title: " Size filter ", options, highlighted: highlight_of(4, app.size_picker_index) }
        },
        WizardMode::Confirm => Modal::Confirm { title: " Confirm launch ", lines: confirm_lines(app) },
    }
}

} // verus!
