//! Fit of a model on a machine, and the ranking of catalog models.
//!
//! VRAM and RAM are compared in tenths of a gigabyte, parameter counts in
//! tenths of a billion (see `machine` and `model_catalog`).

use vstd::prelude::*;

use crate::machine::{format_gb, gb_text, MachineSpecs};
use crate::model_catalog::{entry_supports, entry_views, ModelCatalog, ModelEntry, ModelEntryView};
use crate::text::{ascii_lower, decimal, digit_char, u64_to_string};

verus! {

#[derive(Debug, Clone, Copy, PartialEq, Eq, Structural)]
pub enum FitStatus {
    Easy,
    Fits,
    Tight,
    RequiresQuantization,
    RequiresMultiGpu,
    NotRecommended,
    Unknown,
}

#[derive(Debug, Clone, Copy, PartialEq, Eq, Structural)]
pub enum PreferredBackend {
    Vllm,
    Tgi,
    NoBackend,
}

pub open spec fn fit_rank(s: FitStatus) -> u8 {
    match s {
        FitStatus::Easy => 6,
        FitStatus::Fits => 5,
        FitStatus::Tight => 4,
        FitStatus::RequiresQuantization => 3,
        FitStatus::RequiresMultiGpu => 2,
        FitStatus::Unknown => 1,
        FitStatus::NotRecommended => 0,
    }
}

pub open spec fn fit_is_positive(s: FitStatus) -> bool {
    s == FitStatus::Easy || s == FitStatus::Fits || s == FitStatus::Tight || s
        == FitStatus::RequiresQuantization
}

impl PreferredBackend {
    pub fn as_str(self) -> (r: Option<&'static str>)
        ensures
            match self {
                PreferredBackend::Vllm => r matches Some(s) && s@ == "vllm"@,
                PreferredBackend::Tgi => r matches Some(s) && s@ == "tgi"@,
                PreferredBackend::NoBackend => r is None,
            },
    {
        match self {
            PreferredBackend::Vllm => Some("vllm"),
            PreferredBackend::Tgi => Some("tgi"),
            PreferredBackend::NoBackend => Option::None,
        }
    }

    pub fn display_name(self) -> (r: &'static str)
        ensures
            r@ == match self {
                PreferredBackend::Vllm => "vLLM"@,
                PreferredBackend::Tgi => "TGI"@,
                PreferredBackend::NoBackend => "None"@,
            },
    {
        match self {
            PreferredBackend::Vllm => "vLLM",
            PreferredBackend::Tgi => "TGI",
            PreferredBackend::NoBackend => "None",
        }
    }
}

/// The word shown for a fit.
pub open spec fn badge_label(f: FitStatus) -> Seq<char> {
    match f {
        FitStatus::Easy => "easy"@,
        FitStatus::Fits => "fits"@,
        FitStatus::Tight => "tight"@,
        FitStatus::RequiresQuantization => "requires quantization"@,
        FitStatus::RequiresMultiGpu => "requires multi-gpu"@,
        FitStatus::NotRecommended => "not recommended"@,
        FitStatus::Unknown => "unknown"@,
    }
}

impl FitStatus {
    pub fn rank(self) -> (r: u8)
        ensures
            r == fit_rank(self),
    {
        match self {
            FitStatus::Easy => 6,
            FitStatus::Fits => 5,
            FitStatus::Tight => 4,
            FitStatus::RequiresQuantization => 3,
            FitStatus::RequiresMultiGpu => 2,
            FitStatus::Unknown => 1,
            FitStatus::NotRecommended => 0,
        }
    }

    pub fn as_badge(self) -> (r: &'static str)
        ensures
            r@ == badge_label(self),
    {
        match self {
            FitStatus::Easy => "easy",
            FitStatus::Fits => "fits",
            FitStatus::Tight => "tight",
            FitStatus::RequiresQuantization => "requires quantization",
            FitStatus::RequiresMultiGpu => "requires multi-gpu",
            FitStatus::NotRecommended => "not recommended",
            FitStatus::Unknown => "unknown",
        }
    }

    pub fn is_positive(self) -> (r: bool)
        ensures
            r == fit_is_positive(self),
    {
        match self {
            FitStatus::Easy | FitStatus::Fits | FitStatus::Tight | FitStatus::RequiresQuantization => true,
            _ => false,
        }
    }
}

/// One step down the fit scale when RAM is short.
pub open spec fn spec_downgrade(s: FitStatus) -> FitStatus {
    match s {
        FitStatus::Easy => FitStatus::Fits,
        FitStatus::Fits => FitStatus::Tight,
        FitStatus::Tight => FitStatus::RequiresQuantization,
        FitStatus::RequiresQuantization => FitStatus::NotRecommended,
        other => other,
    }
}

fn downgrade(status: FitStatus) -> (r: FitStatus)
    ensures
        r == spec_downgrade(status),
{
    match status {
        FitStatus::Easy => FitStatus::Fits,
        FitStatus::Fits => FitStatus::Tight,
        FitStatus::Tight => FitStatus::RequiresQuantization,
        FitStatus::RequiresQuantization => FitStatus::NotRecommended,
        other => other,
    }
}

/// Fit from VRAM alone (`vram_mib` MiB, so `vram_mib / 1024` GB, against
/// targets in tenths of a GB): 2 GB of headroom over the FP16 target is
/// easy, the FP16 target fits, the INT8 target is tight, the INT4 target
/// needs quantization; below that, models of 30B or more need several GPUs
/// and the rest are not recommended.
pub open spec fn vram_fit(vram_mib: u64, e: ModelEntryView) -> FitStatus {
    if vram_mib * 10 >= (e.min_vram_fp16_tenths_gb + 20) * 1024 {
        FitStatus::Easy
    } else if vram_mib * 10 >= e.min_vram_fp16_tenths_gb * 1024 {
        FitStatus::Fits
    } else if vram_mib * 10 >= e.min_vram_int8_tenths_gb * 1024 {
        FitStatus::Tight
    } else if vram_mib * 10 >= e.min_vram_int4_tenths_gb * 1024 {
        FitStatus::RequiresQuantization
    } else if e.params_tenths_b >= 300 {
        FitStatus::RequiresMultiGpu
    } else {
        FitStatus::NotRecommended
    }
}

/// RAM (tenths of a GB) a model needs: twice its size in billions, rounded
/// up to a whole gigabyte.
pub open spec fn min_ram_tenths_gb(params_tenths_b: u32) -> int {
    ((2 * params_tenths_b + 9) / 10) * 10
}

/// RAM falls short when, with a tenth of a gigabyte added, it is still
/// below the need: `ram_mib / 1024 + 0.1 < need`.
pub open spec fn ram_short(m: MachineSpecs, e: ModelEntryView) -> bool {
    m.ram_total_mib * 10 + 1024 < min_ram_tenths_gb(e.params_tenths_b) * 1024
}

pub open spec fn fit_status(m: MachineSpecs, e: ModelEntryView) -> FitStatus {
    match m.gpu {
        None => FitStatus::NotRecommended,
        Some(g) => {
            let s = vram_fit(g.vram_mib, e);
            if ram_short(m, e) { spec_downgrade(s) } else { s }
        },
    }
}

/// A size in tenths, printed with one decimal (`{:.1}`).
pub open spec fn tenths_text(v: u32) -> Seq<char> {
    decimal((v / 10) as nat) + "."@ + seq![digit_char((v % 10) as nat)]
}

pub open spec fn fit_explanation(m: MachineSpecs, e: ModelEntryView) -> Seq<char> {
    match m.gpu {
        None => "No NVIDIA GPU detected; GPU backends are not recommended."@,
        Some(g) => {
            let v = gb_text(g.vram_mib as nat);
            match fit_status(m, e) {
                FitStatus::Easy => "VRAM "@ + v + " GB comfortably exceeds FP16 target ("@
                    + tenths_text(e.min_vram_fp16_tenths_gb) + " GB)."@,
                FitStatus::Fits => "VRAM "@ + v + " GB fits FP16 minimum ("@ + tenths_text(
                    e.min_vram_fp16_tenths_gb,
                ) + " GB)."@,
                FitStatus::Tight => "VRAM "@ + v + " GB is below FP16 but above INT8 threshold ("@
                    + tenths_text(e.min_vram_int8_tenths_gb) + " GB)."@,
                FitStatus::RequiresQuantization => "VRAM "@ + v
                    + " GB suggests INT4/INT8 quantization is required."@,
                FitStatus::RequiresMultiGpu => "Model is too large for single GPU at this memory level."@,
                FitStatus::NotRecommended => "Current VRAM is too low for a reliable deployment."@,
                FitStatus::Unknown => "Hardware constraints are unclear for this model."@,
            }
        },
    }
}

fn tenths_to_string(v: u32) -> (r: String)
    ensures
        r@ == tenths_text(v),
{
    let mut r = u64_to_string((v / 10) as u64);
    r.append(".");
    let b: u8 = (48 + v % 10) as u8;
    r.push(b as char);
    r
}

#[derive(Debug)]
pub struct ModelRecommendation {
    pub model: ModelEntry,
    pub status: FitStatus,
    pub explanation: String,
}

/// Model, fit, explanation.
pub type RecView = (ModelEntryView, FitStatus, Seq<char>);

impl View for ModelRecommendation {
    type V = RecView;

    open spec fn view(&self) -> RecView {
        (self.model@, self.status, self.explanation@)
    }
}

pub open spec fn rec_views(s: Seq<ModelRecommendation>) -> Seq<RecView> {
    s.map_values(|r: ModelRecommendation| r@)
}

pub struct RecommendationEngine;

/// The backend Gaia prefers on a machine: vLLM when Docker works and a GPU
/// is present, none otherwise.
pub open spec fn spec_preferred_backend(m: MachineSpecs) -> PreferredBackend {
    if !m.docker.installed || !m.docker.daemon_accessible {
        PreferredBackend::NoBackend
    } else if m.gpu is Some {
        PreferredBackend::Vllm
    } else {
        PreferredBackend::NoBackend
    }
}

/// The recommendation for each catalog model the backend accepts, in
/// catalog order, before ranking.
pub open spec fn unranked(m: MachineSpecs, models: Seq<ModelEntryView>, backend: Option<Seq<char>>) -> Seq<RecView> {
    models.filter(
        |e: ModelEntryView|
            match backend {
                Some(b) => entry_supports(e, ascii_lower(b)),
                None => true,
            },
    ).map_values(|e: ModelEntryView| (e, fit_status(m, e), fit_explanation(m, e)))
}

// ---------------------------------------------------------------------------
// Ranking: better fit first, then smaller models; stable otherwise
// ---------------------------------------------------------------------------

pub open spec fn rec_key(r: RecView) -> (u8, u32) {
    (fit_rank(r.1), r.0.params_tenths_b)
}

/// `a` may come before `b`: a better fit, or an equal fit and no larger model.
pub open spec fn rec_le(a: RecView, b: RecView) -> bool {
    fit_rank(a.1) > fit_rank(b.1) || (fit_rank(a.1) == fit_rank(b.1) && a.0.params_tenths_b
        <= b.0.params_tenths_b)
}

pub open spec fn ranked(s: Seq<RecView>) -> bool {
    forall|i: int, j: int| 0 <= i < j < s.len() ==> rec_le(#[trigger] s[i], #[trigger] s[j])
}

/// The recommendations with a given key, in order.
pub open spec fn with_key(s: Seq<RecView>, k: (u8, u32)) -> Seq<RecView> {
    s.filter(|r: RecView| rec_key(r) == k)
}

pub(crate) proof fn lemma_filter_none<A>(s: Seq<A>, p: spec_fn(A) -> bool)
    requires
        forall|i: int| 0 <= i < s.len() ==> !p(#[trigger] s[i]),
    ensures
        s.filter(p) =~= Seq::<A>::empty(),
    decreases s.len(),
{
    reveal(Seq::filter);
    if s.len() > 0 {
        lemma_filter_none(s.drop_last(), p);
    }
}

pub(crate) proof fn lemma_filter_push<A>(s: Seq<A>, x: A, p: spec_fn(A) -> bool)
    ensures
        s.push(x).filter(p) == (if p(x) { s.filter(p).push(x) } else { s.filter(p) }),
{
    reveal(Seq::filter);
    assert(s.push(x).drop_last() =~= s);
}

proof fn lemma_filter_cons<A>(s: Seq<A>, p: spec_fn(A) -> bool)
    requires
        s.len() > 0,
    ensures
        s.filter(p) == (if p(s[0]) { seq![s[0]] + s.drop_first().filter(p) } else { s.drop_first().filter(p) }),
{
    assert(s =~= seq![s[0]] + s.drop_first());
    Seq::filter_distributes_over_add(seq![s[0]], s.drop_first(), p);
    lemma_filter_push(Seq::<A>::empty(), s[0], p);
    assert(Seq::<A>::empty().push(s[0]) =~= seq![s[0]]);
    lemma_filter_none(Seq::<A>::empty(), p);
    if p(s[0]) {
        assert(Seq::<A>::empty().filter(p).push(s[0]) =~= seq![s[0]]);
    } else {
        assert(Seq::<A>::empty().filter(p) + s.drop_first().filter(p) =~= s.drop_first().filter(p));
    }
}

/// A ranking is determined by what it ranks: two ranked lists that hold,
/// key by key, the same recommendations in the same order are equal.
pub proof fn lemma_ranking_is_unique(a: Seq<RecView>, b: Seq<RecView>)
    requires
        ranked(a),
        ranked(b),
        forall|k: (u8, u32)| #[trigger] with_key(a, k) == with_key(b, k),
    ensures
        a == b,
    decreases a.len() + b.len(),
{
    if a.len() == 0 && b.len() == 0 {
        assert(a =~= b);
    } else if a.len() == 0 {
        let kb = rec_key(b[0]);
        b.filter_lemma(|r: RecView| rec_key(r) == kb);
        assert(with_key(b, kb).contains(b[0]));
        lemma_filter_none(a, |r: RecView| rec_key(r) == kb);
        assert(with_key(a, kb).len() == 0);
    } else if b.len() == 0 {
        let ka = rec_key(a[0]);
        a.filter_lemma(|r: RecView| rec_key(r) == ka);
        assert(with_key(a, ka).contains(a[0]));
        lemma_filter_none(b, |r: RecView| rec_key(r) == ka);
        assert(with_key(b, ka).len() == 0);
    } else {
        let x = a[0];
        let y = b[0];
        let kx = rec_key(x);
        let ky = rec_key(y);
        // y occurs in a, so x may come before it; and the other way round.
        b.filter_lemma(|r: RecView| rec_key(r) == ky);
        assert(with_key(b, ky).contains(y));
        assert(with_key(a, ky).contains(y));
        a.filter_lemma(|r: RecView| rec_key(r) == ky);
        let iy = choose|i: int| 0 <= i < with_key(a, ky).len() && with_key(a, ky)[i] == y;
        assert(rec_key(with_key(a, ky)[iy]) == ky);
        assert(a.filter(|r: RecView| rec_key(r) == ky).contains(y));
        lemma_filter_subset(a, |r: RecView| rec_key(r) == ky, y);
        let ja = choose|j: int| 0 <= j < a.len() && a[j] == y;
        if ja > 0 {
            assert(rec_le(a[0], a[ja]));
        }
        assert(rec_le(x, y));
        a.filter_lemma(|r: RecView| rec_key(r) == kx);
        assert(with_key(a, kx).contains(x));
        assert(with_key(b, kx).contains(x));
        lemma_filter_subset(b, |r: RecView| rec_key(r) == kx, x);
        let jb = choose|j: int| 0 <= j < b.len() && b[j] == x;
        if jb > 0 {
            assert(rec_le(b[0], b[jb]));
        }
        assert(rec_le(y, x));
        assert(kx == ky);
        lemma_filter_cons(a, |r: RecView| rec_key(r) == kx);
        lemma_filter_cons(b, |r: RecView| rec_key(r) == kx);
        assert(with_key(a, kx)[0] == x);
        assert(with_key(b, kx)[0] == y);
        let a1 = a.drop_first();
        let b1 = b.drop_first();
        assert forall|k: (u8, u32)| #[trigger] with_key(a1, k) == with_key(b1, k) by {
            lemma_filter_cons(a, |r: RecView| rec_key(r) == k);
            lemma_filter_cons(b, |r: RecView| rec_key(r) == k);
            assert(with_key(a, k) == with_key(b, k));
            if k == kx {
                assert(with_key(a, k) == seq![x] + with_key(a1, k));
                assert(with_key(b, k) == seq![y] + with_key(b1, k));
                assert(with_key(a1, k) =~= with_key(a, k).drop_first());
                assert(with_key(b1, k) =~= with_key(b, k).drop_first());
            } else {
                assert(rec_key(a[0]) != k);
                assert(rec_key(b[0]) != k);
                assert(with_key(a, k) == with_key(a1, k));
                assert(with_key(b, k) == with_key(b1, k));
            }
        }
        assert forall|i: int, j: int| 0 <= i < j < a1.len() implies rec_le(#[trigger] a1[i], #[trigger] a1[j]) by {
            assert(rec_le(a[i + 1], a[j + 1]));
        }
        assert forall|i: int, j: int| 0 <= i < j < b1.len() implies rec_le(#[trigger] b1[i], #[trigger] b1[j]) by {
            assert(rec_le(b[i + 1], b[j + 1]));
        }
        lemma_ranking_is_unique(a1, b1);
        assert(a =~= seq![x] + a1);
        assert(b =~= seq![y] + b1);
    }
}

proof fn lemma_filter_subset<A>(s: Seq<A>, p: spec_fn(A) -> bool, x: A)
    requires
        s.filter(p).contains(x),
    ensures
        s.contains(x),
    decreases s.len(),
{
    reveal(Seq::filter);
    if s.len() == 0 {
        assert(s.filter(p).len() == 0);
    } else {
        lemma_filter_push(s.drop_last(), s.last(), p);
        assert(s.drop_last().push(s.last()) =~= s);
        if s.last() == x {
            assert(s[s.len() - 1] == x);
        } else {
            if p(s.last()) {
                let f = s.drop_last().filter(p);
                let i = choose|i: int| 0 <= i < s.filter(p).len() && s.filter(p)[i] == x;
                assert(i < f.len());
                assert(f[i] == x);
                assert(f.contains(x));
            } else {
                assert(s.drop_last().filter(p).contains(x));
            }
            lemma_filter_subset(s.drop_last(), p, x);
            let j = choose|j: int| 0 <= j < s.drop_last().len() && s.drop_last()[j] == x;
            assert(s[j] == x);
        }
    }
}

proof fn lemma_insert_keeps_keys(out: Seq<RecView>, pos: int, x: RecView, k: (u8, u32))
    requires
        0 <= pos <= out.len(),
        forall|j: int| pos <= j < out.len() ==> rec_key(#[trigger] out[j]) != rec_key(x),
    ensures
        with_key(out.insert(pos, x), k) == (if rec_key(x) == k { with_key(out, k).push(x) } else { with_key(out, k) }),
{
    let p = |r: RecView| rec_key(r) == k;
    let a = out.subrange(0, pos);
    let b = out.subrange(pos, out.len() as int);
    assert(out =~= a + b);
    assert(out.insert(pos, x) =~= a.push(x) + b);
    Seq::filter_distributes_over_add(a, b, p);
    Seq::filter_distributes_over_add(a.push(x), b, p);
    lemma_filter_push(a, x, p);
    if rec_key(x) == k {
        assert forall|i: int| 0 <= i < b.len() implies !p(#[trigger] b[i]) by {
            assert(b[i] == out[pos + i]);
        }
        lemma_filter_none(b, p);
        assert(a.filter(p) + b.filter(p) =~= a.filter(p));
        assert(a.filter(p).push(x) + b.filter(p) =~= a.filter(p).push(x));
    }
}

fn rec_less_eq(a: &ModelRecommendation, b: &ModelRecommendation) -> (r: bool)
    ensures
        r == rec_le(a@, b@),
{
    let ra = a.status.rank();
    let rb = b.status.rank();
    ra > rb || (ra == rb && a.model.params_tenths_b <= b.model.params_tenths_b)
}

/// Sorts by fit rank (best first), then by model size (smallest first),
/// keeping the input order among equal keys.
fn sort_recommendations(input: Vec<ModelRecommendation>) -> (r: Vec<ModelRecommendation>)
    ensures
        ranked(rec_views(r@)),
        forall|k: (u8, u32)| #[trigger] with_key(rec_views(r@), k) == with_key(rec_views(input@), k),
{
    let ghost iv = rec_views(input@);
    let mut rest = input;
    let mut out: Vec<ModelRecommendation> = Vec::new();
    let ghost mut done: int = 0;
    assert(iv.subrange(0, 0) =~= Seq::<RecView>::empty());
    assert(iv.subrange(0, iv.len() as int) =~= iv);
    proof {
        reveal(Seq::filter);
    }
    while rest.len() > 0
        invariant
            0 <= done <= iv.len(),
            rest@.len() == iv.len() - done,
            rec_views(rest@) == iv.subrange(done, iv.len() as int),
            ranked(rec_views(out@)),
            forall|k: (u8, u32)| #[trigger] with_key(rec_views(out@), k) == with_key(iv.subrange(0, done), k),
        decreases rest@.len(),
    {
        let ghost rv = rest@;
        let x = rest.remove(0);
        proof {
            assert(x@ == rec_views(rv)[0]);
            assert(rec_views(rest@) =~= rec_views(rv).subrange(1, rv.len() as int));
        }
        let ghost ov = rec_views(out@);
        let mut pos: usize = 0;
        while pos < out.len() && rec_less_eq(&out[pos], &x)
            invariant
                pos <= out.len(),
                rec_views(out@) == ov,
                forall|j: int| 0 <= j < pos ==> rec_le(#[trigger] ov[j], x@),
            decreases out.len() - pos,
        {
            pos = pos + 1;
        }
        proof {
            assert forall|j: int| pos <= j < ov.len() implies rec_key(#[trigger] ov[j]) != rec_key(x@) && rec_le(x@, ov[j]) by {
                assert(!rec_le(ov[pos as int], x@));
                if j > pos {
                    assert(rec_le(ov[pos as int], ov[j]));
                }
            }
            let nv = ov.insert(pos as int, x@);
            assert forall|i: int, j: int| 0 <= i < j < nv.len() implies rec_le(#[trigger] nv[i], #[trigger] nv[j]) by {
                if i < pos && j == pos {
                } else if i < pos && j > pos {
                    assert(nv[i] == ov[i]);
                    assert(nv[j] == ov[j - 1]);
                } else if i == pos {
                    assert(nv[j] == ov[j - 1]);
                } else if i > pos {
                    assert(nv[i] == ov[i - 1]);
                    assert(nv[j] == ov[j - 1]);
                } else {
                    assert(nv[i] == ov[i]);
                    assert(nv[j] == ov[j]);
                }
            }
            let pre = iv.subrange(0, done + 1);
            assert(pre =~= iv.subrange(0, done).push(x@));
            assert forall|k: (u8, u32)| #[trigger] with_key(nv, k) == with_key(pre, k) by {
                lemma_insert_keeps_keys(ov, pos as int, x@, k);
                lemma_filter_push(iv.subrange(0, done), x@, |r: RecView| rec_key(r) == k);
            }
        }
        let ghost before = out@;
        out.insert(pos, x);
        proof {
            assert(rec_views(out@) =~= rec_views(before).insert(pos as int, x@));
            done = done + 1;
        }
    }
    assert(iv.subrange(0, iv.len() as int) =~= iv);
    out
}

impl RecommendationEngine {
    pub fn preferred_backend(machine: &MachineSpecs) -> (r: PreferredBackend)
        ensures
            r == spec_preferred_backend(*machine),
    {
        if !machine.docker.installed || !machine.docker.daemon_accessible {
            return PreferredBackend::NoBackend;
        }
        if machine.gpu.is_some() {
            PreferredBackend::Vllm
        } else {
            PreferredBackend::NoBackend
        }
    }

    /// How well a model fits a machine, and why.
    pub fn evaluate_fit(machine: &MachineSpecs, model: &ModelEntry) -> (r: (FitStatus, String))
        ensures
            r.0 == fit_status(*machine, model@),
            r.1@ == fit_explanation(*machine, model@),
    {
        let vram = match &machine.gpu {
            Some(g) => g.vram_mib,
            None => {
                return (
                    FitStatus::NotRecommended,
                    "No NVIDIA GPU detected; GPU backends are not recommended.".to_owned(),
                );
            },
        };
        let v: u128 = (vram as u128) * 10;
        let mut status = if v >= (model.min_vram_fp16_tenths_gb as u128 + 20) * 1024 {
            FitStatus::Easy
        } else if v >= (model.min_vram_fp16_tenths_gb as u128) * 1024 {
            FitStatus::Fits
        } else if v >= (model.min_vram_int8_tenths_gb as u128) * 1024 {
            FitStatus::Tight
        } else if v >= (model.min_vram_int4_tenths_gb as u128) * 1024 {
            FitStatus::RequiresQuantization
        } else if model.params_tenths_b >= 300 {
            FitStatus::RequiresMultiGpu
        } else {
            FitStatus::NotRecommended
        };
        let min_ram: u128 = ((2 * (model.params_tenths_b as u128) + 9) / 10) * 10;
        if (machine.ram_total_mib as u128) * 10 + 1024 < min_ram * 1024 {
            status = downgrade(status);
        }
        let vram_text = format_gb(vram);
        let explanation = match status {
            FitStatus::Easy => {
                let mut s = "VRAM ".to_owned();
                s.append(vram_text.as_str());
                s.append(" GB comfortably exceeds FP16 target (");
                s.append(tenths_to_string(model.min_vram_fp16_tenths_gb).as_str());
                s.append(" GB).");
                s
            },
            FitStatus::Fits => {
                let mut s = "VRAM ".to_owned();
                s.append(vram_text.as_str());
                s.append(" GB fits FP16 minimum (");
                s.append(tenths_to_string(model.min_vram_fp16_tenths_gb).as_str());
                s.append(" GB).");
                s
            },
            FitStatus::Tight => {
                let mut s = "VRAM ".to_owned();
                s.append(vram_text.as_str());
                s.append(" GB is below FP16 but above INT8 threshold (");
                s.append(tenths_to_string(model.min_vram_int8_tenths_gb).as_str());
                s.append(" GB).");
                s
            },
            FitStatus::RequiresQuantization => {
                let mut s = "VRAM ".to_owned();
                s.append(vram_text.as_str());
                s.append(" GB suggests INT4/INT8 quantization is required.");
                s
            },
            FitStatus::RequiresMultiGpu => "Model is too large for single GPU at this memory level.".to_owned(),
            FitStatus::NotRecommended => "Current VRAM is too low for a reliable deployment.".to_owned(),
            FitStatus::Unknown => "Hardware constraints are unclear for this model.".to_owned(),
        };
        (status, explanation)
    }

    /// Every catalog model the backend accepts (all of them without a
    /// backend), with its fit, best fits first and smaller models first
    /// among equal fits; models with equal fit and size keep catalog order.
    pub fn recommend_models(machine: &MachineSpecs, catalog: &ModelCatalog, backend: Option<&str>) -> (r: Vec<ModelRecommendation>)
        ensures
            ranked(rec_views(r@)),
            forall|k: (u8, u32)|
                #[trigger] with_key(rec_views(r@), k) == with_key(
                    unranked(*machine, entry_views(catalog.models@), match backend { Some(b) => Some(b@), None => None }),
                    k,
                ),
    {
        let ghost bv: Option<Seq<char>> = match backend { Some(b) => Some(b@), None => None };
        let ghost p = |e: ModelEntryView| match bv { Some(b) => entry_supports(e, ascii_lower(b)), None => true };
        let ghost f = |e: ModelEntryView| (e, fit_status(*machine, e), fit_explanation(*machine, e));
        let ghost models = entry_views(catalog.models@);
        let mut recs: Vec<ModelRecommendation> = Vec::new();
        let mut i: usize = 0;
        while i < catalog.models.len()
            invariant
                i <= catalog.models.len(),
                models == entry_views(catalog.models@),
                p == (|e: ModelEntryView| match bv { Some(b) => entry_supports(e, ascii_lower(b)), None => true }),
                f == (|e: ModelEntryView| (e, fit_status(*machine, e), fit_explanation(*machine, e))),
                bv == (match backend { Some(b) => Some(b@), None => None::<Seq<char>> }),
                rec_views(recs@) == models.subrange(0, i as int).filter(p).map_values(f),
            decreases catalog.models.len() - i,
        {
            let model = &catalog.models[i];
            let keep = match backend {
                Some(b) => model.supports_backend(b),
                None => true,
            };
            let ghost prev = recs@;
            if keep {
                let (status, explanation) = Self::evaluate_fit(machine, model);
                recs.push(ModelRecommendation { model: model.clone_entry(), status, explanation });
            }
            i = i + 1;
            proof {
                let s = models.subrange(0, i as int);
                assert(s =~= models.subrange(0, i - 1).push(model@));
                lemma_filter_push(models.subrange(0, i - 1), model@, p);
                if keep {
                    assert(rec_views(recs@) =~= rec_views(prev).push(f(model@)));
                    assert(s.filter(p).map_values(f) =~= models.subrange(0, i - 1).filter(p).map_values(f).push(f(model@)));
                } else {
                    assert(rec_views(recs@) =~= rec_views(prev));
                }
            }
        }
        assert(models.subrange(0, catalog.models.len() as int) =~= models);
        assert(rec_views(recs@) =~= unranked(*machine, models, bv));
        sort_recommendations(recs)
    }
}


// ---------------------------------------------------------------------------
// Laws
// ---------------------------------------------------------------------------

/// A RAM shortfall never improves a fit.
pub proof fn lemma_downgrade_never_improves(s: FitStatus)
    ensures
        fit_rank(spec_downgrade(s)) <= fit_rank(s),
{
}

/// The positive fits are exactly those ranked `requires quantization` or better.
pub proof fn lemma_positive_is_rank_three_or_more(s: FitStatus)
    ensures
        fit_is_positive(s) <==> fit_rank(s) >= 3,
{
}

/// Without a GPU nothing is recommended.
pub proof fn lemma_no_gpu_not_recommended(m: MachineSpecs, e: ModelEntryView)
    requires
        m.gpu is None,
    ensures
        fit_status(m, e) == FitStatus::NotRecommended,
{
}

/// With a GPU, VRAM alone places a model on the scale Easy > Fits > Tight
/// > RequiresQuantization > NotRecommended (2 GB over the FP16 target, the
/// FP16, INT8 and INT4 targets; below them, 30B or more needs several
/// GPUs). RAM short of twice the size in GB (rounded up), even with a
/// tenth of a GB added, moves the fit exactly one step down; several GPUs
/// stay several GPUs.
pub proof fn lemma_ram_shortfall_moves_one_step(m: MachineSpecs, e: ModelEntryView)
    requires
        m.gpu is Some,
    ensures
        ({
            let v = m.gpu->0.vram_mib * 10;
            let short = m.ram_total_mib * 10 + 1024 < ((2 * e.params_tenths_b + 9) / 10) * 10 * 1024;
            let fp16 = e.min_vram_fp16_tenths_gb * 1024;
            let int8 = e.min_vram_int8_tenths_gb * 1024;
            let int4 = e.min_vram_int4_tenths_gb * 1024;
            &&& v >= fp16 + 20 * 1024 ==> fit_status(m, e) == if short { FitStatus::Fits } else { FitStatus::Easy }
            &&& fp16 <= v < fp16 + 20 * 1024
                ==> fit_status(m, e) == if short { FitStatus::Tight } else { FitStatus::Fits }
            &&& v < fp16 && int8 <= v
                ==> fit_status(m, e) == if short { FitStatus::RequiresQuantization } else { FitStatus::Tight }
            &&& v < fp16 && v < int8 && int4 <= v
                ==> fit_status(m, e) == if short { FitStatus::NotRecommended } else { FitStatus::RequiresQuantization }
            &&& v < fp16 && v < int8 && v < int4 && e.params_tenths_b >= 300
                ==> fit_status(m, e) == FitStatus::RequiresMultiGpu
            &&& v < fp16 && v < int8 && v < int4 && e.params_tenths_b < 300
                ==> fit_status(m, e) == FitStatus::NotRecommended
        }),
{
}

/// On the same GPU, more RAM never makes a fit worse.
pub proof fn lemma_more_ram_never_worse(m1: MachineSpecs, m2: MachineSpecs, e: ModelEntryView)
    requires
        m1.gpu == m2.gpu,
        m1.ram_total_mib <= m2.ram_total_mib,
    ensures
        fit_rank(fit_status(m1, e)) <= fit_rank(fit_status(m2, e)),
{
}

/// With enough RAM for the model, more VRAM never makes a fit worse.
pub proof fn lemma_more_vram_never_worse(m1: MachineSpecs, m2: MachineSpecs, e: ModelEntryView)
    requires
        m1.gpu matches Some(g1) && m2.gpu matches Some(g2) && g1.vram_mib <= g2.vram_mib,
        !ram_short(m1, e),
        !ram_short(m2, e),
    ensures
        fit_rank(fit_status(m1, e)) <= fit_rank(fit_status(m2, e)),
{
}

} // verus!
