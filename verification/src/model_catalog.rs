//! The model catalog: entries, backend compatibility and filtering.
//!
//! Parameter counts are held in tenths of a billion (`params_tenths_b == 75`
//! for a 7.5B model) and memory targets in tenths of a gigabyte.

use vstd::prelude::*;

use crate::text::{
    ascii_lower, ascii_lower_chars, chars_eq, chars_of, join, join_strings, to_lowercase,
    unicode_lowercase, views,
};

verus! {

#[derive(Debug)]
pub struct ModelEntry {
    pub id: String,
    pub display_name: String,
    pub family: String,
    /// Parameter count in tenths of a billion.
    pub params_tenths_b: u32,
    pub categories: Vec<String>,
    pub recommended_use: String,
    /// VRAM targets in tenths of a gigabyte.
    pub min_vram_fp16_tenths_gb: u32,
    pub min_vram_int8_tenths_gb: u32,
    pub min_vram_int4_tenths_gb: u32,
    pub supports_vllm: bool,
    pub supports_tgi: bool,
    pub gated: bool,
}

/// The mathematical content of a catalog entry.
pub struct ModelEntryView {
    pub id: Seq<char>,
    pub display_name: Seq<char>,
    pub family: Seq<char>,
    pub params_tenths_b: u32,
    pub categories: Seq<Seq<char>>,
    pub recommended_use: Seq<char>,
    pub min_vram_fp16_tenths_gb: u32,
    pub min_vram_int8_tenths_gb: u32,
    pub min_vram_int4_tenths_gb: u32,
    pub supports_vllm: bool,
    pub supports_tgi: bool,
    pub gated: bool,
}

impl View for ModelEntry {
    type V = ModelEntryView;

    open spec fn view(&self) -> ModelEntryView {
        ModelEntryView {
            id: self.id@,
            display_name: self.display_name@,
            family: self.family@,
            params_tenths_b: self.params_tenths_b,
            categories: views(self.categories@),
            recommended_use: self.recommended_use@,
            min_vram_fp16_tenths_gb: self.min_vram_fp16_tenths_gb,
            min_vram_int8_tenths_gb: self.min_vram_int8_tenths_gb,
            min_vram_int4_tenths_gb: self.min_vram_int4_tenths_gb,
            supports_vllm: self.supports_vllm,
            supports_tgi: self.supports_tgi,
            gated: self.gated,
        }
    }
}

pub open spec fn entry_views(s: Seq<ModelEntry>) -> Seq<ModelEntryView> {
    s.map_values(|e: ModelEntry| e@)
}

#[derive(Debug)]
pub struct ModelCatalog {
    pub models: Vec<ModelEntry>,
}

pub fn clone_strings(v: &Vec<String>) -> (r: Vec<String>)
    ensures
        views(r@) == views(v@),
{
    let mut r: Vec<String> = Vec::new();
    let mut i: usize = 0;
    while i < v.len()
        invariant
            i <= v.len(),
            views(r@) == views(v@.subrange(0, i as int)),
        decreases v.len() - i,
    {
        let ghost prev = r@;
        r.push(v[i].clone());
        i = i + 1;
        proof {
            assert(views(r@) =~= views(prev).push(v@[i - 1]@));
            assert(views(v@.subrange(0, i as int)) =~= views(v@.subrange(0, i - 1)).push(v@[i - 1]@));
        }
    }
    assert(v@.subrange(0, v.len() as int) =~= v@);
    r
}

/// Whether an entry can be served by the (lowercased) backend name:
/// SGLang follows vLLM's flag, llama.cpp and Ollama take every model.
pub open spec fn entry_supports(e: ModelEntryView, lower: Seq<char>) -> bool {
    if lower == "vllm"@ {
        e.supports_vllm
    } else if lower == "tgi"@ {
        e.supports_tgi
    } else if lower == "sglang"@ {
        e.supports_vllm
    } else if lower == "llamacpp"@ || lower == "llama.cpp"@ || lower == "ollama"@ {
        true
    } else {
        false
    }
}

impl ModelEntry {
    pub fn clone_entry(&self) -> (r: ModelEntry)
        ensures
            r@ == self@,
    {
        ModelEntry {
            id: self.id.clone(),
            display_name: self.display_name.clone(),
            family: self.family.clone(),
            params_tenths_b: self.params_tenths_b,
            categories: clone_strings(&self.categories),
            recommended_use: self.recommended_use.clone(),
            min_vram_fp16_tenths_gb: self.min_vram_fp16_tenths_gb,
            min_vram_int8_tenths_gb: self.min_vram_int8_tenths_gb,
            min_vram_int4_tenths_gb: self.min_vram_int4_tenths_gb,
            supports_vllm: self.supports_vllm,
            supports_tgi: self.supports_tgi,
            gated: self.gated,
        }
    }

    pub fn supports_backend(&self, backend: &str) -> (r: bool)
        ensures
            r == entry_supports(self@, ascii_lower(backend@)),
    {
        let lower = ascii_lower_chars(&chars_of(backend));
        if chars_eq(&lower, &chars_of("vllm")) {
            self.supports_vllm
        } else if chars_eq(&lower, &chars_of("tgi")) {
            self.supports_tgi
        } else if chars_eq(&lower, &chars_of("sglang")) {
            self.supports_vllm
        } else if chars_eq(&lower, &chars_of("llamacpp")) || chars_eq(&lower, &chars_of("llama.cpp"))
            || chars_eq(&lower, &chars_of("ollama")) {
            true
        } else {
            false
        }
    }

    /// The categories joined with commas.
    pub fn categories_label(&self) -> (r: String)
        ensures
            r@ == join(views(self.categories@), ","@),
    {
        join_strings(&self.categories, ",")
    }

    pub fn has_category(&self, category: &String) -> (r: bool)
        ensures
            r == views(self.categories@).contains(category@),
    {
        let mut i: usize = 0;
        while i < self.categories.len()
            invariant
                i <= self.categories.len(),
                forall|k: int| 0 <= k < i ==> self.categories@[k]@ != category@,
            decreases self.categories.len() - i,
        {
            if self.categories[i] == *category {
                assert(views(self.categories@)[i as int] == category@);
                return true;
            }
            i = i + 1;
        }
        assert forall|k: int| 0 <= k < views(self.categories@).len() implies views(self.categories@)[k] != category@ by {
            assert(views(self.categories@)[k] == self.categories@[k]@);
        }
        false
    }
}

/// The filter `ModelCatalog::filtered` applies: category (compared after
/// lowercasing the requested one), maximum size, backend compatibility.
pub open spec fn catalog_filter(
    category: Option<Seq<char>>,
    max_params_tenths_b: Option<u32>,
    backend: Option<Seq<char>>,
    e: ModelEntryView,
) -> bool {
    &&& match category {
        Some(c) => e.categories.contains(unicode_lowercase(c)),
        None => true,
    }
    &&& match max_params_tenths_b {
        Some(m) => e.params_tenths_b <= m,
        None => true,
    }
    &&& match backend {
        Some(b) => entry_supports(e, ascii_lower(b)),
        None => true,
    }
}

pub open spec fn opt_str_view(o: Option<&str>) -> Option<Seq<char>> {
    match o {
        Some(s) => Some(s@),
        None => None,
    }
}

impl ModelCatalog {
    /// The entries passing every given constraint, in catalog order.
    pub fn filtered(
        &self,
        category: Option<&str>,
        max_params_tenths_b: Option<u32>,
        backend: Option<&str>,
    ) -> (r: Vec<ModelEntry>)
        ensures
            entry_views(r@) == entry_views(self.models@).filter(
                |e: ModelEntryView| catalog_filter(opt_str_view(category), max_params_tenths_b, opt_str_view(backend), e),
            ),
    {
        let ghost pred = |e: ModelEntryView| catalog_filter(opt_str_view(category), max_params_tenths_b, opt_str_view(backend), e);
        let lowered: Option<String> = match category {
            Some(c) => Some(to_lowercase(c)),
            None => None,
        };
        let mut out: Vec<ModelEntry> = Vec::new();
        let mut i: usize = 0;
        while i < self.models.len()
            invariant
                i <= self.models.len(),
                pred == (|e: ModelEntryView| catalog_filter(opt_str_view(category), max_params_tenths_b, opt_str_view(backend), e)),
                match (category, lowered) {
                    (Some(c), Some(l)) => l@ == unicode_lowercase(c@),
                    (None, None) => true,
                    _ => false,
                },
                entry_views(out@) == entry_views(self.models@.subrange(0, i as int)).filter(pred),
            decreases self.models.len() - i,
        {
            let model = &self.models[i];
            let keep_category = match &lowered {
                Some(l) => model.has_category(l),
                None => true,
            };
            let keep_size = match max_params_tenths_b {
                Some(m) => model.params_tenths_b <= m,
                None => true,
            };
            let keep_backend = match backend {
                Some(b) => model.supports_backend(b),
                None => true,
            };
            let ghost prev = out@;
            if keep_category && keep_size && keep_backend {
                out.push(model.clone_entry());
            }
            i = i + 1;
            proof {
                let s = entry_views(self.models@.subrange(0, i as int));
                assert(s.drop_last() =~= entry_views(self.models@.subrange(0, i - 1)));
                assert(s.last() == model@);
                reveal(Seq::filter);
                assert(pred(model@) == (keep_category && keep_size && keep_backend));
                if keep_category && keep_size && keep_backend {
                    assert(entry_views(out@) =~= entry_views(prev).push(model@));
                } else {
                    assert(entry_views(out@) =~= entry_views(prev));
                }
            }
        }
        assert(self.models@.subrange(0, self.models.len() as int) =~= self.models@);
        out
    }
}

} // verus!
