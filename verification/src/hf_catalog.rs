//! Rules that turn Hugging Face model metadata into catalog entries:
//! keyword detection, categories, family, backend support, memory targets,
//! identifiers.

use vstd::prelude::*;

use crate::model_catalog::{ModelEntry, ModelEntryView};

use crate::text::{
    replace_all, char_to_uppercase, join, join_strings, push_str, unicode_upper_char, sub_chars, trim, trim_str, char_is_ascii_alnum, chars_contains, chars_match_at, chars_of, contains_seq, is_ascii_alnum,
    is_ascii_digit, matches_at, string_of, to_lowercase, unicode_lowercase, views,
};

verus! {

// ---------------------------------------------------------------------------
// Keyword detection
// ---------------------------------------------------------------------------

/// `key` occurs in `probe` at `start` with no letter or digit right before
/// or right after it.
pub open spec fn token_at(probe: Seq<char>, key: Seq<char>, start: int) -> bool {
    &&& matches_at(probe, start, key)
    &&& (start == 0 || !is_ascii_alnum(probe[start - 1]))
    &&& (start + key.len() >= probe.len() || !is_ascii_alnum(probe[start + key.len()]))
}

pub open spec fn all_alnum(s: Seq<char>) -> bool {
    forall|i: int| 0 <= i < s.len() ==> is_ascii_alnum(#[trigger] s[i])
}

/// Whether the lowercased keyword appears in `probe`: as a whole token when
/// the keyword is purely alphanumeric (so `chat` is not found in `chatter`),
/// as a plain substring otherwise. An empty keyword is never found.
pub open spec fn has_token(probe: Seq<char>, keyword: Seq<char>) -> bool {
    let key = unicode_lowercase(keyword);
    key.len() > 0 && if all_alnum(key) {
        exists|start: int| #[trigger] token_at(probe, key, start)
    } else {
        contains_seq(probe, key)
    }
}

pub open spec fn has_any_token(probe: Seq<char>, keywords: Seq<Seq<char>>) -> bool {
    exists|i: int| 0 <= i < keywords.len() && #[trigger] has_token(probe, keywords[i])
}

fn chars_all_alnum(v: &Vec<char>) -> (r: bool)
    ensures
        r == all_alnum(v@),
{
    let mut i: usize = 0;
    while i < v.len()
        invariant
            i <= v.len(),
            forall|k: int| 0 <= k < i ==> is_ascii_alnum(#[trigger] v@[k]),
        decreases v.len() - i,
    {
        if !char_is_ascii_alnum(v[i]) {
            return false;
        }
        i = i + 1;
    }
    true
}

fn token_at_exec(p: &Vec<char>, k: &Vec<char>, start: usize) -> (r: bool)
    ensures
        r == token_at(p@, k@, start as int),
{
    if !chars_match_at(p, start, k) {
        return false;
    }
    assert(start + k.len() <= p.len());
    let before_ok = start == 0 || !char_is_ascii_alnum(p[start - 1]);
    let after = start + k.len();
    let after_ok = after >= p.len() || !char_is_ascii_alnum(p[after]);
    before_ok && after_ok
}

pub fn contains_token(probe: &str, keyword: &str) -> (r: bool)
    ensures
        r == has_token(probe@, keyword@),
{
    let key = chars_of(to_lowercase(keyword).as_str());
    if key.len() == 0 {
        return false;
    }
    let p = chars_of(probe);
    if !chars_all_alnum(&key) {
        return chars_contains(&p, &key);
    }
    let mut start: usize = 0;
    while start < p.len() && key.len() <= p.len() - start
        invariant
            key.len() > 0,
            key@ == unicode_lowercase(keyword@),
            p@ == probe@,
            all_alnum(key@),
            forall|s: int| 0 <= s < start ==> !token_at(p@, key@, s),
        decreases p.len() - start,
    {
        if token_at_exec(&p, &key, start) {
            assert(token_at(p@, key@, start as int));
            return true;
        }
        start = start + 1;
    }
    assert forall|s: int| !(#[trigger] token_at(p@, key@, s)) by {
        if s >= start {
            assert(s + key@.len() > p@.len());
        }
    }
    false
}

pub open spec fn str_views(s: Seq<&str>) -> Seq<Seq<char>> {
    s.map_values(|k: &str| k@)
}

pub fn contains_any_token(probe: &str, keywords: &[&str]) -> (r: bool)
    ensures
        r == has_any_token(probe@, str_views(keywords@)),
{
    let mut i: usize = 0;
    while i < keywords.len()
        invariant
            i <= keywords@.len(),
            forall|k: int| 0 <= k < i ==> !has_token(probe@, #[trigger] str_views(keywords@)[k]),
        decreases keywords@.len() - i,
    {
        if contains_token(probe, keywords[i]) {
            assert(str_views(keywords@)[i as int] == keywords@[i as int]@);
            return true;
        }
        assert(str_views(keywords@)[i as int] == keywords@[i as int]@);
        i = i + 1;
    }
    false
}

// ---------------------------------------------------------------------------
// Probe text
// ---------------------------------------------------------------------------

/// Each tag preceded by a space.
pub open spec fn spaced(tags: Seq<Seq<char>>) -> Seq<char>
    decreases tags.len(),
{
    if tags.len() == 0 {
        Seq::empty()
    } else {
        spaced(tags.drop_last()) + " "@ + tags.last()
    }
}

/// The text the keyword rules search: lowercased id, pipeline tag and tags,
/// separated by spaces.
pub open spec fn probe_text(model_id: Seq<char>, pipeline_tag: Seq<char>, tags: Seq<Seq<char>>) -> Seq<char> {
    unicode_lowercase(model_id) + " "@ + pipeline_tag + spaced(tags)
}

pub fn build_probe(model_id: &str, pipeline_tag: &str, tags: &[String]) -> (r: String)
    ensures
        r@ == probe_text(model_id@, pipeline_tag@, views(tags@)),
{
    let mut probe = to_lowercase(model_id);
    probe.append(" ");
    probe.append(pipeline_tag);
    let ghost head = probe@;
    let mut i: usize = 0;
    while i < tags.len()
        invariant
            i <= tags.len(),
            probe@ == head + spaced(views(tags@.subrange(0, i as int))),
        decreases tags.len() - i,
    {
        let ghost before = views(tags@.subrange(0, i as int));
        probe.append(" ");
        probe.append(tags[i].as_str());
        i = i + 1;
        proof {
            let now = views(tags@.subrange(0, i as int));
            assert(now.drop_last() =~= before);
            assert(now.last() == tags@[i - 1]@);
        }
    }
    assert(tags@.subrange(0, tags.len() as int) =~= tags@);
    probe
}

// ---------------------------------------------------------------------------
// Backend support and recommended use
// ---------------------------------------------------------------------------

pub open spec fn has_category(categories: Seq<Seq<char>>, name: Seq<char>) -> bool {
    categories.contains(name)
}

/// vLLM and TGI support for a model: none for GGUF files, embeddings or
/// vision models; both when the metadata signals text generation.
pub open spec fn spec_backend_support(
    categories: Seq<Seq<char>>,
    pipeline_tag: Seq<char>,
    tags: Seq<Seq<char>>,
    model_id: Seq<char>,
) -> (bool, bool) {
    let probe = probe_text(model_id, pipeline_tag, tags);
    if has_token(probe, "gguf"@) {
        (false, false)
    } else if has_category(categories, "embeddings"@) || has_category(categories, "vision/multimodal"@) {
        (false, false)
    } else if has_any_token(
        probe,
        seq!["text-generation"@, "conversational"@, "text2text-generation"@, "instruct"@, "chat"@],
    ) {
        (true, true)
    } else {
        (false, false)
    }
}

/// Embedding and vision models are never offered to vLLM or TGI, whatever
/// their tags and pipeline; a model offered to one is offered to both.
pub proof fn lemma_embedding_and_vision_models_unsupported(
    categories: Seq<Seq<char>>,
    pipeline_tag: Seq<char>,
    tags: Seq<Seq<char>>,
    model_id: Seq<char>,
)
    ensures
        categories.contains("vision/multimodal"@) || categories.contains("embeddings"@)
            ==> spec_backend_support(categories, pipeline_tag, tags, model_id) == (false, false),
        spec_backend_support(categories, pipeline_tag, tags, model_id).0
            == spec_backend_support(categories, pipeline_tag, tags, model_id).1,
{
}

pub fn strings_contain(v: &[String], name: &str) -> (r: bool)
    ensures
        r == views(v@).contains(name@),
{
    let mut i: usize = 0;
    while i < v.len()
        invariant
            i <= v.len(),
            forall|k: int| 0 <= k < i ==> v@[k]@ != name@,
        decreases v.len() - i,
    {
        if crate::text::str_eq(v[i].as_str(), name) {
            assert(views(v@)[i as int] == name@);
            return true;
        }
        i = i + 1;
    }
    assert forall|k: int| 0 <= k < views(v@).len() implies views(v@)[k] != name@ by {
        assert(views(v@)[k] == v@[k]@);
    }
    false
}

pub fn infer_backend_support(
    categories: &[String],
    pipeline_tag: &str,
    tags: &[String],
    model_id: &str,
) -> (r: (bool, bool))
    ensures
        r == spec_backend_support(views(categories@), pipeline_tag@, views(tags@), model_id@),
{
    let probe = build_probe(model_id, pipeline_tag, tags);
    if contains_token(probe.as_str(), "gguf") {
        return (false, false);
    }
    if strings_contain(categories, "embeddings") || strings_contain(categories, "vision/multimodal") {
        return (false, false);
    }
    let keywords = ["text-generation", "conversational", "text2text-generation", "instruct", "chat"];
    let found = contains_any_token(probe.as_str(), &keywords);
    proof {
        assert(str_views(keywords@) =~= seq!["text-generation"@, "conversational"@, "text2text-generation"@, "instruct"@, "chat"@]);
    }
    if found {
        (true, true)
    } else {
        (false, false)
    }
}

pub open spec fn spec_recommended_use(categories: Seq<Seq<char>>) -> Seq<char> {
    if has_category(categories, "embeddings"@) {
        "Text embeddings and semantic search"@
    } else if has_category(categories, "vision/multimodal"@) {
        "Vision and multimodal assistant tasks"@
    } else if has_category(categories, "code"@) && has_category(categories, "chat"@) {
        "Coding assistant and developer chat"@
    } else if has_category(categories, "reasoning"@) {
        "Reasoning-focused assistant"@
    } else if has_category(categories, "chat"@) {
        "General-purpose assistant"@
    } else {
        "General language model inference"@
    }
}

pub fn infer_recommended_use(categories: &[String]) -> (r: String)
    ensures
        r@ == spec_recommended_use(views(categories@)),
{
    if strings_contain(categories, "embeddings") {
        return "Text embeddings and semantic search".to_owned();
    }
    if strings_contain(categories, "vision/multimodal") {
        return "Vision and multimodal assistant tasks".to_owned();
    }
    if strings_contain(categories, "code") && strings_contain(categories, "chat") {
        return "Coding assistant and developer chat".to_owned();
    }
    if strings_contain(categories, "reasoning") {
        return "Reasoning-focused assistant".to_owned();
    }
    if strings_contain(categories, "chat") {
        return "General-purpose assistant".to_owned();
    }
    "General language model inference".to_owned()
}


// ---------------------------------------------------------------------------
// Model metadata
// ---------------------------------------------------------------------------

/// The `gated` field of the metadata.
#[derive(Debug, Clone)]
pub enum GatedField {
    Bool(bool),
    Str(String),
    /// Missing, or of another JSON type.
    Other,
}

/// What the catalog rules read from a model's Hugging Face metadata.
#[derive(Debug, Clone)]
pub struct HfModelMeta {
    /// `id`, when it is a string.
    pub id: Option<String>,
    /// The string items of `tags`, as given.
    pub tags: Vec<String>,
    /// `pipeline_tag`, when it is a string.
    pub pipeline_tag: Option<String>,
    /// `cardData.model_name`, `cardData.name` and `cardData.title`, when strings.
    pub card_names: Vec<Option<String>>,
    /// `cardData.language`: the string, or the string items of the list.
    pub card_languages: Vec<String>,
    pub gated: GatedField,
}

/// Tags trimmed and lowercased, blanks dropped.
pub open spec fn normal_tags(tags: Seq<Seq<char>>) -> Seq<Seq<char>>
    decreases tags.len(),
{
    if tags.len() == 0 {
        Seq::empty()
    } else if unicode_lowercase(trim(tags.last())).len() == 0 {
        normal_tags(tags.drop_last())
    } else {
        normal_tags(tags.drop_last()).push(unicode_lowercase(trim(tags.last())))
    }
}

pub fn normalize_tags(tags: &Vec<String>) -> (r: Vec<String>)
    ensures
        views(r@) == normal_tags(views(tags@)),
{
    let ghost v = views(tags@);
    let mut out: Vec<String> = Vec::new();
    let mut i: usize = 0;
    while i < tags.len()
        invariant
            i <= tags.len(),
            v == views(tags@),
            views(out@) == normal_tags(v.take(i as int)),
        decreases tags.len() - i,
    {
        proof {
            assert(v.take(i + 1).drop_last() =~= v.take(i as int));
            assert(v.take(i + 1).last() == tags@[i as int]@);
        }
        let t = to_lowercase(trim_str(tags[i].as_str()).as_str());
        if !t.as_str().is_empty() {
            let ghost before = views(out@);
            out.push(t);
            assert(views(out@) =~= before.push(unicode_lowercase(trim(tags@[i as int]@))));
        }
        i = i + 1;
    }
    assert(v.take(tags.len() as int) =~= v);
    out
}

/// The pipeline tag, trimmed and lowercased (empty when missing).
pub open spec fn normal_pipeline_tag(p: Option<String>) -> Seq<char> {
    normal_pipeline_view(crate::config::opt_view(p))
}

pub open spec fn normal_pipeline_view(p: Option<Seq<char>>) -> Seq<char> {
    match p {
        Some(t) => unicode_lowercase(trim(t)),
        None => unicode_lowercase(Seq::empty()),
    }
}

pub fn normalize_pipeline_tag(p: &Option<String>) -> (r: String)
    ensures
        r@ == normal_pipeline_tag(*p),
{
    match p {
        Some(t) => to_lowercase(trim_str(t.as_str()).as_str()),
        None => {
            proof {
                reveal_strlit("");
                assert(""@ =~= Seq::<char>::empty());
            }
            to_lowercase("")
        },
    }
}

/// Whether a model is a text-generation target: never a GGUF/GGML file;
/// always with the `text-generation` pipeline; otherwise when the id,
/// pipeline or tags say so.
pub open spec fn spec_is_text_generation(pipeline_tag: Seq<char>, tags: Seq<Seq<char>>, fallback_id: Seq<char>) -> bool {
    let probe = probe_text(fallback_id, pipeline_tag, tags);
    if has_any_token(probe, seq!["gguf"@, "ggml"@]) {
        false
    } else if pipeline_tag == "text-generation"@ {
        true
    } else {
        has_any_token(
            probe,
            seq![
                "text-generation"@,
                "text2text-generation"@,
                "conversational"@,
                "instruct"@,
                "chat"@,
                "causal-lm"@,
                "causal language model"@,
            ],
        )
    }
}

pub fn is_text_generation_model(meta: &HfModelMeta, fallback_id: &str) -> (r: bool)
    ensures
        r == spec_is_text_generation(normal_pipeline_tag(meta.pipeline_tag), normal_tags(views(meta.tags@)), fallback_id@),
{
    let pipeline_tag = normalize_pipeline_tag(&meta.pipeline_tag);
    let tags = normalize_tags(&meta.tags);
    let probe = build_probe(fallback_id, pipeline_tag.as_str(), tags.as_slice());
    let bad = ["gguf", "ggml"];
    let good = [
        "text-generation",
        "text2text-generation",
        "conversational",
        "instruct",
        "chat",
        "causal-lm",
        "causal language model",
    ];
    proof {
        assert(str_views(bad@) =~= seq!["gguf"@, "ggml"@]);
        assert(str_views(good@) =~= seq![
            "text-generation"@,
            "text2text-generation"@,
            "conversational"@,
            "instruct"@,
            "chat"@,
            "causal-lm"@,
            "causal language model"@,
        ]);
    }
    if contains_any_token(probe.as_str(), &bad) {
        return false;
    }
    if crate::text::str_eq(pipeline_tag.as_str(), "text-generation") {
        return true;
    }
    contains_any_token(probe.as_str(), &good)
}

/// `gated` is true, or a non-empty string other than `false`.
pub open spec fn spec_gated(g: GatedField) -> bool {
    match g {
        GatedField::Bool(b) => b,
        GatedField::Str(s) => s@.len() > 0 && s@ != "false"@,
        GatedField::Other => false,
    }
}

pub fn is_gated(g: &GatedField) -> (r: bool)
    ensures
        r == spec_gated(*g),
{
    match g {
        GatedField::Bool(b) => *b,
        GatedField::Str(s) => !s.as_str().is_empty() && !crate::text::str_eq(s.as_str(), "false"),
        GatedField::Other => false,
    }
}


// ---------------------------------------------------------------------------
// Family and display name
// ---------------------------------------------------------------------------

/// Id fragments that name a family, in the order they are tried.
pub open spec fn family_table() -> Seq<(Seq<char>, Seq<char>)> {
    seq![
        ("qwen"@, "qwen"@),
        ("mistral"@, "mistral"@),
        ("llama"@, "llama"@),
        ("gemma"@, "gemma"@),
        ("deepseek"@, "deepseek"@),
        ("phi"@, "phi"@),
        ("mixtral"@, "mistral"@),
        ("command-r"@, "cohere"@),
        ("yi-"@, "yi"@),
        ("olmo"@, "olmo"@),
        ("gpt"@, "gpt"@),
    ]
}

/// The family of the first table entry whose fragment occurs in `probe`.
pub open spec fn first_family(probe: Seq<char>, table: Seq<(Seq<char>, Seq<char>)>) -> Option<Seq<char>>
    decreases table.len(),
{
    if table.len() == 0 {
        None
    } else if contains_seq(probe, table[0].0) {
        Some(table[0].1)
    } else {
        first_family(probe, table.drop_first())
    }
}

/// The text before the first `/` (all of it when there is none).
pub open spec fn before_slash(s: Seq<char>) -> Seq<char>
    decreases s.len(),
{
    if s.len() == 0 || s[0] == '/' {
        Seq::empty()
    } else {
        seq![s[0]] + before_slash(s.drop_first())
    }
}

/// The text after the last `/` (all of it when there is none).
pub open spec fn after_last_slash(s: Seq<char>) -> Seq<char>
    decreases s.len(),
{
    if s.len() == 0 || s.last() == '/' {
        Seq::empty()
    } else {
        after_last_slash(s.drop_last()).push(s.last())
    }
}

pub open spec fn family_char(c: char) -> char {
    if is_ascii_alnum(c) || c == '-' || c == '_' || c == '.' { c } else { '-' }
}

/// The family of a model: from the table, else its namespace with other
/// characters turned to `-`, else `unknown`.
pub open spec fn spec_family(model_id: Seq<char>) -> Seq<char> {
    match first_family(unicode_lowercase(model_id), family_table()) {
        Some(f) => f,
        None => {
            let ns = unicode_lowercase(before_slash(model_id)).map_values(|c: char| family_char(c));
            if ns.len() == 0 { "unknown"@ } else { ns }
        },
    }
}

fn before_slash_chars(v: &Vec<char>) -> (r: Vec<char>)
    ensures
        r@ == before_slash(v@),
{
    let mut i: usize = 0;
    while i < v.len() && v[i] != '/'
        invariant
            i <= v.len(),
            forall|k: int| 0 <= k < i ==> v@[k] != '/',
        decreases v.len() - i,
    {
        i = i + 1;
    }
    proof {
        lemma_before_slash(v@, i as int);
    }
    sub_chars(v, 0, i)
}

proof fn lemma_before_slash(s: Seq<char>, i: int)
    requires
        0 <= i <= s.len(),
        forall|k: int| 0 <= k < i ==> s[k] != '/',
        i == s.len() || s[i] == '/',
    ensures
        before_slash(s) == s.subrange(0, i),
    decreases i,
{
    if i == 0 {
        assert(s.subrange(0, 0) =~= Seq::<char>::empty());
    } else {
        assert forall|k: int| 0 <= k < i - 1 implies s.drop_first()[k] != '/' by {
            assert(s.drop_first()[k] == s[k + 1]);
        }
        lemma_before_slash(s.drop_first(), i - 1);
        assert(s.subrange(0, i) =~= seq![s[0]] + s.drop_first().subrange(0, i - 1));
    }
}

fn after_last_slash_chars(v: &Vec<char>) -> (r: Vec<char>)
    ensures
        r@ == after_last_slash(v@),
{
    let mut i: usize = v.len();
    while i > 0 && v[i - 1] != '/'
        invariant
            i <= v.len(),
            forall|k: int| i <= k < v.len() ==> v@[k] != '/',
        decreases i,
    {
        i = i - 1;
    }
    proof {
        lemma_after_last_slash(v@, i as int);
    }
    sub_chars(v, i, v.len())
}

proof fn lemma_after_last_slash(s: Seq<char>, i: int)
    requires
        0 <= i <= s.len(),
        forall|k: int| i <= k < s.len() ==> s[k] != '/',
        i == 0 || s[i - 1] == '/',
    ensures
        after_last_slash(s) == s.subrange(i, s.len() as int),
    decreases s.len() - i,
{
    if i == s.len() {
        assert(s.subrange(i, s.len() as int) =~= Seq::<char>::empty());
    } else {
        let t = s.drop_last();
        assert forall|k: int| i <= k < t.len() implies t[k] != '/' by {
            assert(t[k] == s[k]);
        }
        lemma_after_last_slash(t, i);
        assert(s.subrange(i, s.len() as int) =~= t.subrange(i, t.len() as int).push(s.last()));
    }
}

pub fn infer_family(model_id: &str) -> (r: String)
    ensures
        r@ == spec_family(model_id@),
{
    let probe = chars_of(to_lowercase(model_id).as_str());
    let table: [(&str, &str); 11] = [
        ("qwen", "qwen"),
        ("mistral", "mistral"),
        ("llama", "llama"),
        ("gemma", "gemma"),
        ("deepseek", "deepseek"),
        ("phi", "phi"),
        ("mixtral", "mistral"),
        ("command-r", "cohere"),
        ("yi-", "yi"),
        ("olmo", "olmo"),
        ("gpt", "gpt"),
    ];
    let ghost t = family_table();
    assert(table@.map_values(|e: (&str, &str)| (e.0@, e.1@)) =~= t);
    assert(t.skip(0) =~= t);
    let mut i: usize = 0;
    while i < 11
        invariant
            i <= 11,
            t == family_table(),
            table@.map_values(|e: (&str, &str)| (e.0@, e.1@)) == t,
            probe@ == unicode_lowercase(model_id@),
            first_family(probe@, t) == first_family(probe@, t.skip(i as int)),
        decreases 11 - i,
    {
        let (token, family) = table[i];
        proof {
            assert(t[i as int] == (token@, family@));
            assert(t.skip(i as int)[0] == t[i as int]);
            assert(t.skip(i as int).drop_first() =~= t.skip(i + 1));
        }
        if chars_contains(&probe, &chars_of(token)) {
            return family.to_owned();
        }
        i = i + 1;
    }
    assert(t.skip(11) =~= Seq::<(Seq<char>, Seq<char>)>::empty());
    let ns = chars_of(to_lowercase(string_of(&before_slash_chars(&chars_of(model_id))).as_str()).as_str());
    let mut out: Vec<char> = Vec::new();
    let mut k: usize = 0;
    while k < ns.len()
        invariant
            k <= ns.len(),
            out@ == ns@.take(k as int).map_values(|c: char| family_char(c)),
        decreases ns.len() - k,
    {
        let c = ns[k];
        let mapped = if char_is_ascii_alnum(c) || c == '-' || c == '_' || c == '.' { c } else { '-' };
        out.push(mapped);
        k = k + 1;
        assert(out@ =~= ns@.take(k as int).map_values(|c: char| family_char(c)));
    }
    assert(ns@.take(ns.len() as int) =~= ns@);
    if out.len() == 0 {
        "unknown".to_owned()
    } else {
        string_of(&out)
    }
}


/// The pieces between `-` and `_` separators, empty ones included.
pub open spec fn word_pieces(s: Seq<char>) -> Seq<Seq<char>>
    decreases s.len(),
{
    if s.len() == 0 {
        seq![Seq::empty()]
    } else {
        let p = word_pieces(s.drop_last());
        if s.last() == '-' || s.last() == '_' {
            p.push(Seq::empty())
        } else {
            p.update(p.len() - 1, p.last().push(s.last()))
        }
    }
}

/// The non-empty pieces, in order.
pub open spec fn nonempty_pieces(p: Seq<Seq<char>>) -> Seq<Seq<char>>
    decreases p.len(),
{
    if p.len() == 0 {
        Seq::empty()
    } else if p.last().len() > 0 {
        nonempty_pieces(p.drop_last()).push(p.last())
    } else {
        nonempty_pieces(p.drop_last())
    }
}

pub open spec fn has_ascii_digit(w: Seq<char>) -> bool {
    exists|i: int| 0 <= i < w.len() && #[trigger] is_ascii_digit(w[i])
}

/// A word as shown: kept when it has a digit, else with its first
/// character uppercased.
pub open spec fn pretty_word(w: Seq<char>) -> Seq<char> {
    if has_ascii_digit(w) || w.len() == 0 {
        w
    } else {
        unicode_upper_char(w[0]) + w.drop_first()
    }
}

/// The first card name that is not blank, trimmed.
pub open spec fn first_card_name(names: Seq<Option<Seq<char>>>) -> Option<Seq<char>>
    decreases names.len(),
{
    if names.len() == 0 {
        None
    } else if names[0] is Some && trim(names[0]->0).len() > 0 {
        Some(trim(names[0]->0))
    } else {
        first_card_name(names.drop_first())
    }
}

pub open spec fn opt_views(names: Seq<Option<String>>) -> Seq<Option<Seq<char>>> {
    names.map_values(|o: Option<String>| crate::config::opt_view(o))
}

/// The display name: a card name, else the id's last part with its words
/// capitalized and spaced.
pub open spec fn spec_display_name(model_id: Seq<char>, names: Seq<Option<Seq<char>>>) -> Seq<char> {
    match first_card_name(names) {
        Some(n) => n,
        None => {
            let slug = after_last_slash(model_id);
            let words = nonempty_pieces(word_pieces(slug)).map_values(|w: Seq<char>| pretty_word(w));
            if words.len() == 0 { slug } else { join(words, " "@) }
        },
    }
}

fn capitalize(word: &Vec<char>) -> (r: String)
    ensures
        r@ == pretty_word(word@),
{
    let mut has_digit = false;
    let mut i: usize = 0;
    while i < word.len()
        invariant
            i <= word.len(),
            has_digit == exists|k: int| 0 <= k < i && #[trigger] is_ascii_digit(word@[k]),
        decreases word.len() - i,
    {
        if crate::text::char_is_ascii_digit(word[i]) {
            has_digit = true;
        }
        i = i + 1;
    }
    if has_digit || word.len() == 0 {
        return string_of(word);
    }
    let mut r = char_to_uppercase(word[0]);
    let rest = string_of(&sub_chars(word, 1, word.len()));
    push_str(&mut r, rest.as_str());
    assert(word@.subrange(1, word.len() as int) =~= word@.drop_first());
    r
}

pub fn infer_display_name(model_id: &str, card_names: &Vec<Option<String>>) -> (r: String)
    ensures
        r@ == spec_display_name(model_id@, opt_views(card_names@)),
{
    let ghost nv = opt_views(card_names@);
    let mut j: usize = 0;
    assert(nv.skip(0) =~= nv);
    while j < card_names.len()
        invariant
            j <= card_names.len(),
            nv == opt_views(card_names@),
            first_card_name(nv) == first_card_name(nv.skip(j as int)),
        decreases card_names.len() - j,
    {
        proof {
            assert(nv.skip(j as int)[0] == crate::config::opt_view(card_names@[j as int]));
            assert(nv.skip(j as int).drop_first() =~= nv.skip(j + 1));
        }
        if let Some(name) = &card_names[j] {
            let t = trim_str(name.as_str());
            if !t.as_str().is_empty() {
                return t;
            }
        }
        j = j + 1;
    }
    assert(nv.skip(card_names.len() as int) =~= Seq::<Option<Seq<char>>>::empty());
    let slug = after_last_slash_chars(&chars_of(model_id));
    let ghost pieces_all = word_pieces(slug@);
    let mut pieces: Vec<Vec<char>> = Vec::new();
    pieces.push(Vec::new());
    let mut i: usize = 0;
    assert(slug@.take(0) =~= Seq::<char>::empty());
    assert(pieces@.map_values(|p: Vec<char>| p@) =~= word_pieces(slug@.take(0)));
    while i < slug.len()
        invariant
            i <= slug.len(),
            pieces@.len() >= 1,
            pieces@.map_values(|p: Vec<char>| p@) == word_pieces(slug@.take(i as int)),
        decreases slug.len() - i,
    {
        let c = slug[i];
        proof {
            assert(slug@.take(i + 1).drop_last() =~= slug@.take(i as int));
            assert(slug@.take(i + 1).last() == c);
        }
        let ghost before = pieces@.map_values(|p: Vec<char>| p@);
        if c == '-' || c == '_' {
            pieces.push(Vec::new());
            assert(pieces@.map_values(|p: Vec<char>| p@) =~= before.push(Seq::empty()));
        } else {
            let last = pieces.len() - 1;
            let mut w = pieces[last].clone();
            w.push(c);
            pieces.set(last, w);
            assert(pieces@.map_values(|p: Vec<char>| p@) =~= before.update(before.len() - 1, before.last().push(c)));
        }
        i = i + 1;
    }
    assert(slug@.take(slug.len() as int) =~= slug@);
    let ghost pv = pieces@.map_values(|p: Vec<char>| p@);
    let mut words: Vec<String> = Vec::new();
    let mut k: usize = 0;
    assert(pv.take(0) =~= Seq::<Seq<char>>::empty());
    while k < pieces.len()
        invariant
            k <= pieces.len(),
            pv == pieces@.map_values(|p: Vec<char>| p@),
            views(words@) == nonempty_pieces(pv.take(k as int)).map_values(|w: Seq<char>| pretty_word(w)),
        decreases pieces.len() - k,
    {
        proof {
            assert(pv.take(k + 1).drop_last() =~= pv.take(k as int));
            assert(pv.take(k + 1).last() == pieces@[k as int]@);
        }
        if pieces[k].len() > 0 {
            let ghost before = views(words@);
            words.push(capitalize(&pieces[k]));
            assert(views(words@) =~= before.push(pretty_word(pieces@[k as int]@)));
        }
        k = k + 1;
    }
    assert(pv.take(pieces.len() as int) =~= pv);
    if words.len() == 0 {
        string_of(&slug)
    } else {
        join_strings(&words, " ")
    }
}


// ---------------------------------------------------------------------------
// Languages and categories
// ---------------------------------------------------------------------------

pub open spec fn language_codes() -> Seq<Seq<char>> {
    seq!["en"@, "fr"@, "de"@, "es"@, "it"@, "pt"@, "zh"@, "ja"@, "ko"@, "ar"@, "ru"@]
}

/// The language a tag names: after a `language:` prefix, or a known code.
pub open spec fn tag_languages(tags: Seq<Seq<char>>) -> Seq<Seq<char>>
    decreases tags.len(),
{
    if tags.len() == 0 {
        Seq::empty()
    } else {
        let t = tags.last();
        tag_languages(tags.drop_last()) + if crate::text::starts_with(t, "language:"@) {
            seq![t.skip(9)]
        } else if language_codes().contains(t) {
            seq![t]
        } else {
            Seq::empty()
        }
    }
}

/// The card's languages then the tags', trimmed, lowercased, each once.
pub open spec fn spec_languages(tags: Seq<Seq<char>>, card_languages: Seq<Seq<char>>) -> Seq<Seq<char>> {
    crate::refresh::dedup(normal_tags(card_languages + tag_languages(tags)))
}

pub fn extract_languages(tags: &Vec<String>, card_languages: &Vec<String>) -> (r: Vec<String>)
    ensures
        views(r@) == spec_languages(views(tags@), views(card_languages@)),
{
    let mut candidates: Vec<String> = crate::model_catalog::clone_strings(card_languages);
    let ghost tv = views(tags@);
    let codes = ["en", "fr", "de", "es", "it", "pt", "zh", "ja", "ko", "ar", "ru"];
    assert(crate::hf_catalog::str_views(codes@) =~= language_codes());
    let ghost base = views(candidates@);
    let mut i: usize = 0;
    assert(tv.take(0) =~= Seq::<Seq<char>>::empty());
    assert(base + tag_languages(tv.take(0)) =~= base);
    while i < tags.len()
        invariant
            i <= tags.len(),
            tv == views(tags@),
            str_views(codes@) == language_codes(),
            views(candidates@) == base + tag_languages(tv.take(i as int)),
        decreases tags.len() - i,
    {
        let tag = &tags[i];
        proof {
            reveal_strlit("language:");
            assert(tv.take(i + 1).drop_last() =~= tv.take(i as int));
            assert(tv.take(i + 1).last() == tag@);
        }
        let tc = chars_of(tag.as_str());
        let ghost before = views(candidates@);
        if crate::text::chars_starts_with(&tc, &chars_of("language:")) {
            candidates.push(string_of(&sub_chars(&tc, 9, tc.len())));
            assert(tc@.subrange(9, tc.len() as int) =~= tag@.skip(9));
            assert(views(candidates@) =~= before + seq![tag@.skip(9)]);
        } else if strs_contain(&codes, tag.as_str()) {
            candidates.push(tag.clone());
            assert(views(candidates@) =~= before + seq![tag@]);
        } else {
            assert(views(candidates@) =~= before + Seq::<Seq<char>>::empty());
        }
        i = i + 1;
    }
    assert(tv.take(tags.len() as int) =~= tv);
    let normalized = normalize_tags(&candidates);
    crate::refresh::deduplicate_keep_order(normalized)
}

fn strs_contain(items: &[&str], name: &str) -> (r: bool)
    ensures
        r == str_views(items@).contains(name@),
{
    let mut i: usize = 0;
    while i < items.len()
        invariant
            i <= items.len(),
            forall|k: int| 0 <= k < i ==> str_views(items@)[k] != name@,
        decreases items.len() - i,
    {
        assert(str_views(items@)[i as int] == items@[i as int]@);
        if crate::text::str_eq(items[i], name) {
            return true;
        }
        i = i + 1;
    }
    false
}

/// Whether the model is multilingual: said so, or two or more languages.
pub open spec fn spec_multilingual(tags: Seq<Seq<char>>, card_languages: Seq<Seq<char>>, probe: Seq<char>) -> bool {
    has_token(probe, "multilingual"@) || spec_languages(tags, card_languages).len() >= 2
}

pub open spec fn flag(cond: bool, name: Seq<char>) -> Seq<Seq<char>> {
    if cond { seq![name] } else { Seq::empty() }
}

/// The categories of a model, in catalog order; `general` when none applies.
/// Sizes are in tenths of a billion parameters.
pub open spec fn spec_categories(
    model_id: Seq<char>,
    tags: Seq<Seq<char>>,
    pipeline_tag: Seq<char>,
    card_languages: Seq<Seq<char>>,
    params_tenths_b: u32,
) -> Seq<Seq<char>> {
    let probe = probe_text(model_id, pipeline_tag, tags);
    let found = flag(has_any_token(probe, seq!["instruct"@, "chat"@, "assistant"@, "text-generation"@]), "chat"@)
        + flag(has_any_token(probe, seq!["code"@, "coder"@, "programming"@]), "code"@)
        + flag(has_any_token(probe, seq!["reason"@, "r1"@, "math"@, "thinking"@, "think"@]), "reasoning"@)
        + flag(spec_multilingual(tags, card_languages, probe), "multilingual"@)
        + flag(1 <= params_tenths_b <= 80, "lightweight"@)
        + flag(has_any_token(probe, seq!["32k"@, "64k"@, "128k"@, "long-context"@, "long context"@]), "long-context"@)
        + flag(
            has_any_token(probe, seq!["embedding"@, "feature-extraction"@, "sentence-similarity"@, "text-embeddings"@]),
            "embeddings"@,
        )
        + flag(
            has_any_token(probe, seq!["vision"@, "multimodal"@, "vl"@, "image-text-to-text"@, "llava"@]),
            "vision/multimodal"@,
        );
    if found.len() == 0 { seq!["general"@] } else { found }
}

fn push_flag(out: &mut Vec<String>, cond: bool, name: &str)
    ensures
        views(final(out)@) == views(old(out)@) + flag(cond, name@),
{
    let ghost before = views(out@);
    if cond {
        out.push(name.to_owned());
        assert(views(out@) =~= before + seq![name@]);
    } else {
        assert(views(out@) =~= before + Seq::<Seq<char>>::empty());
    }
}

pub fn infer_categories(
    model_id: &str,
    tags: &Vec<String>,
    pipeline_tag: &str,
    card_languages: &Vec<String>,
    params_tenths_b: u32,
) -> (r: Vec<String>)
    ensures
        views(r@) == spec_categories(model_id@, views(tags@), pipeline_tag@, views(card_languages@), params_tenths_b),
{
    let probe = build_probe(model_id, pipeline_tag, tags.as_slice());
    let p = probe.as_str();
    let ghost pv = probe@;
    let k_chat = ["instruct", "chat", "assistant", "text-generation"];
    let k_code = ["code", "coder", "programming"];
    let k_reason = ["reason", "r1", "math", "thinking", "think"];
    let k_long = ["32k", "64k", "128k", "long-context", "long context"];
    let k_emb = ["embedding", "feature-extraction", "sentence-similarity", "text-embeddings"];
    let k_vis = ["vision", "multimodal", "vl", "image-text-to-text", "llava"];
    assert(str_views(k_chat@) =~= seq!["instruct"@, "chat"@, "assistant"@, "text-generation"@]);
    assert(str_views(k_code@) =~= seq!["code"@, "coder"@, "programming"@]);
    assert(str_views(k_reason@) =~= seq!["reason"@, "r1"@, "math"@, "thinking"@, "think"@]);
    assert(str_views(k_long@) =~= seq!["32k"@, "64k"@, "128k"@, "long-context"@, "long context"@]);
    assert(str_views(k_emb@) =~= seq!["embedding"@, "feature-extraction"@, "sentence-similarity"@, "text-embeddings"@]);
    assert(str_views(k_vis@) =~= seq!["vision"@, "multimodal"@, "vl"@, "image-text-to-text"@, "llava"@]);
    let b_chat = contains_any_token(p, &k_chat);
    let b_code = contains_any_token(p, &k_code);
    let b_reason = contains_any_token(p, &k_reason);
    let b_multi = contains_token(p, "multilingual") || extract_languages(tags, card_languages).len() >= 2;
    let b_light = 1 <= params_tenths_b && params_tenths_b <= 80;
    let b_long = contains_any_token(p, &k_long);
    let b_emb = contains_any_token(p, &k_emb);
    let b_vis = contains_any_token(p, &k_vis);
    let mut out: Vec<String> = Vec::new();
    let ghost empty = views(out@);
    push_flag(&mut out, b_chat, "chat");
    push_flag(&mut out, b_code, "code");
    push_flag(&mut out, b_reason, "reasoning");
    push_flag(&mut out, b_multi, "multilingual");
    push_flag(&mut out, b_light, "lightweight");
    push_flag(&mut out, b_long, "long-context");
    push_flag(&mut out, b_emb, "embeddings");
    push_flag(&mut out, b_vis, "vision/multimodal");
    let ghost found = flag(b_chat, "chat"@) + flag(b_code, "code"@) + flag(b_reason, "reasoning"@) + flag(b_multi, "multilingual"@)
        + flag(b_light, "lightweight"@) + flag(b_long, "long-context"@) + flag(b_emb, "embeddings"@) + flag(b_vis, "vision/multimodal"@);
    assert(empty =~= Seq::<Seq<char>>::empty());
    assert(views(out@) =~= found);
    proof {
        lemma_categories_found(model_id@, views(tags@), pipeline_tag@, views(card_languages@), params_tenths_b, found,
            b_chat, b_code, b_reason, b_multi, b_light, b_long, b_emb, b_vis);
    }
    if out.len() == 0 {
        out.push("general".to_owned());
        assert(views(out@) =~= seq!["general"@]);
    }
    out
}

proof fn lemma_categories_found(
    model_id: Seq<char>,
    tags: Seq<Seq<char>>,
    pipeline_tag: Seq<char>,
    card_languages: Seq<Seq<char>>,
    t: u32,
    found: Seq<Seq<char>>,
    b_chat: bool, b_code: bool, b_reason: bool, b_multi: bool, b_light: bool, b_long: bool, b_emb: bool, b_vis: bool,
)
    requires
        ({
            let probe = probe_text(model_id, pipeline_tag, tags);
            &&& b_chat == has_any_token(probe, seq!["instruct"@, "chat"@, "assistant"@, "text-generation"@])
            &&& b_code == has_any_token(probe, seq!["code"@, "coder"@, "programming"@])
            &&& b_reason == has_any_token(probe, seq!["reason"@, "r1"@, "math"@, "thinking"@, "think"@])
            &&& b_multi == spec_multilingual(tags, card_languages, probe)
            &&& b_light == (1 <= t <= 80)
            &&& b_long == has_any_token(probe, seq!["32k"@, "64k"@, "128k"@, "long-context"@, "long context"@])
            &&& b_emb == has_any_token(probe, seq!["embedding"@, "feature-extraction"@, "sentence-similarity"@, "text-embeddings"@])
            &&& b_vis == has_any_token(probe, seq!["vision"@, "multimodal"@, "vl"@, "image-text-to-text"@, "llava"@])
        }),
        found == flag(b_chat, "chat"@) + flag(b_code, "code"@) + flag(b_reason, "reasoning"@) + flag(b_multi, "multilingual"@)
            + flag(b_light, "lightweight"@) + flag(b_long, "long-context"@) + flag(b_emb, "embeddings"@) + flag(b_vis, "vision/multimodal"@),
    ensures
        spec_categories(model_id, tags, pipeline_tag, card_languages, t) == if found.len() == 0 { seq!["general"@] } else { found },
{
}

// ---------------------------------------------------------------------------
// Memory targets and the entry
// ---------------------------------------------------------------------------

pub open spec fn ceil_div(a: int, b: int) -> int {
    (a + b - 1) / b
}

/// Whole gigabytes of VRAM for FP16, INT8 and INT4 serving of a model of
/// `t` tenths of a billion parameters: FP16 needs two bytes a parameter
/// plus two gigabytes, at least four; INT8 62% of that, at least three;
/// INT4 37%, at least two.
pub open spec fn vram_gb(t: u32) -> (int, int, int) {
    let fp16 = if ceil_div(2 * t + 20, 10) < 4 { 4 } else { ceil_div(2 * t + 20, 10) };
    let int8 = if ceil_div(62 * fp16, 100) < 3 { 3 } else { ceil_div(62 * fp16, 100) };
    let int4 = if ceil_div(37 * fp16, 100) < 2 { 2 } else { ceil_div(37 * fp16, 100) };
    (fp16, int8, int4)
}

/// The memory targets in tenths of a gigabyte.
pub fn estimate_vram_tenths(params_tenths_b: u32) -> (r: (u32, u32, u32))
    requires
        params_tenths_b <= 2_000_000_000,
    ensures
        r.0 == 10 * vram_gb(params_tenths_b).0,
        r.1 == 10 * vram_gb(params_tenths_b).1,
        r.2 == 10 * vram_gb(params_tenths_b).2,
{
    let t = params_tenths_b as u64;
    let raw = (2 * t + 20 + 9) / 10;
    let fp16: u64 = if raw < 4 { 4 } else { raw };
    let r8 = (62 * fp16 + 99) / 100;
    let int8: u64 = if r8 < 3 { 3 } else { r8 };
    let r4 = (37 * fp16 + 99) / 100;
    let int4: u64 = if r4 < 2 { 2 } else { r4 };
    assert(int8 <= fp16 && int4 <= fp16);
    ((fp16 * 10) as u32, (int8 * 10) as u32, (int4 * 10) as u32)
}

/// The id the metadata gives, else the one asked for.
pub open spec fn meta_id(meta: HfModelMeta, fallback_id: Seq<char>) -> Seq<char> {
    match meta.id {
        Some(i) => i@,
        None => fallback_id,
    }
}

pub fn model_id_of(meta: &HfModelMeta, fallback_id: &str) -> (r: String)
    ensures
        r@ == meta_id(*meta, fallback_id@),
{
    match &meta.id {
        Some(i) => i.clone(),
        None => fallback_id.to_owned(),
    }
}

/// The catalog entry for a model, given its size as estimated from the
/// metadata (tenths of a billion parameters).
pub fn build_catalog_entry(meta: &HfModelMeta, fallback_id: &str, params_tenths_b: u32) -> (r: ModelEntry)
    requires
        params_tenths_b <= 2_000_000_000,
    ensures
        ({
            let id = meta_id(*meta, fallback_id@);
            let tags = normal_tags(views(meta.tags@));
            let pipeline = normal_pipeline_tag(meta.pipeline_tag);
            let categories = spec_categories(id, tags, pipeline, views(meta.card_languages@), params_tenths_b);
            let support = spec_backend_support(categories, pipeline, tags, id);
            let vram = vram_gb(params_tenths_b);
            r@ == ModelEntryView {
                id,
                display_name: spec_display_name(id, opt_views(meta.card_names@)),
                family: spec_family(id),
                params_tenths_b,
                categories,
                recommended_use: spec_recommended_use(categories),
                min_vram_fp16_tenths_gb: (10 * vram.0) as u32,
                min_vram_int8_tenths_gb: (10 * vram.1) as u32,
                min_vram_int4_tenths_gb: (10 * vram.2) as u32,
                supports_vllm: support.0,
                supports_tgi: support.1,
                gated: spec_gated(meta.gated),
            }
        }),
{
    let model_id = model_id_of(meta, fallback_id);
    let tags = normalize_tags(&meta.tags);
    let pipeline_tag = normalize_pipeline_tag(&meta.pipeline_tag);
    let categories = infer_categories(model_id.as_str(), &tags, pipeline_tag.as_str(), &meta.card_languages, params_tenths_b);
    let family = infer_family(model_id.as_str());
    let display_name = infer_display_name(model_id.as_str(), &meta.card_names);
    let recommended_use = infer_recommended_use(categories.as_slice());
    let (fp16, int8, int4) = estimate_vram_tenths(params_tenths_b);
    let (supports_vllm, supports_tgi) = infer_backend_support(
        categories.as_slice(),
        pipeline_tag.as_str(),
        tags.as_slice(),
        model_id.as_str(),
    );
    let gated = is_gated(&meta.gated);
    ModelEntry {
        id: model_id,
        display_name,
        family,
        params_tenths_b,
        categories,
        recommended_use,
        min_vram_fp16_tenths_gb: fp16,
        min_vram_int8_tenths_gb: int8,
        min_vram_int4_tenths_gb: int4,
        supports_vllm,
        supports_tgi,
        gated,
    }
}


// ---------------------------------------------------------------------------
// Parameter sizes written in text
// ---------------------------------------------------------------------------

/// A size such as `7b`, `0.5 b`, `a3b` or `350m` found in text: the
/// integer digits, the fraction digits (after `.` or `_`) and the unit
/// (`b` billions, `m` millions, `t` trillions).
#[derive(Debug, Clone)]
pub struct SizeToken {
    pub integer: String,
    pub fraction: String,
    pub unit: char,
}

pub open spec fn token_view(t: SizeToken) -> (Seq<char>, Seq<char>, char) {
    (t.integer@, t.fraction@, t.unit)
}

/// The text sizes are read from: trimmed, lowercased, commas removed.
pub open spec fn size_text(value: Seq<char>) -> Seq<char> {
    replace_all(unicode_lowercase(trim(value)), ","@, Seq::empty())
}

/// The first position at or after `i` that is not an ASCII digit.
pub open spec fn digits_end(t: Seq<char>, i: int) -> int
    decreases t.len() - i,
{
    if 0 <= i < t.len() && is_ascii_digit(t[i]) {
        digits_end(t, i + 1)
    } else {
        i
    }
}

/// The first position at or after `i` that is not whitespace.
pub open spec fn space_end(t: Seq<char>, i: int) -> int
    decreases t.len() - i,
{
    if 0 <= i < t.len() && crate::text::is_ws(t[i]) {
        space_end(t, i + 1)
    } else {
        i
    }
}

/// A run of digits ends at or after where it starts, and within the text.
pub proof fn lemma_digits_end(t: Seq<char>, i: int)
    ensures
        digits_end(t, i) >= i,
        0 <= i < t.len() && is_ascii_digit(t[i]) ==> digits_end(t, i) > i,
        0 <= i ==> digits_end(t, i) <= if i > t.len() { i } else { t.len() as int },
    decreases t.len() - i,
{
    if 0 <= i < t.len() && is_ascii_digit(t[i]) {
        lemma_digits_end(t, i + 1);
    }
}

/// The sizes found scanning `t` from `index`: a number (optionally after
/// an `a`, as in `a3b`) not preceded by a letter or digit, an optional
/// fraction, optional spaces, then `b`, `m` or `t` not followed by a
/// letter or digit. Scanning resumes after the number.
pub open spec fn scan_sizes(t: Seq<char>, index: int) -> Seq<(Seq<char>, Seq<char>, char)>
    decreases t.len() - index,
{
    if index < 0 || index >= t.len() {
        Seq::empty()
    } else {
        let c0 = if t[index] == 'a' { index + 1 } else { index };
        if c0 >= t.len() || !is_ascii_digit(t[c0]) || (index > 0 && is_ascii_alnum(t[index - 1])) {
            scan_sizes(t, index + 1)
        } else {
            let ie = digits_end(t, c0);
            let has_fraction = ie + 1 < t.len() && (t[ie] == '.' || t[ie] == '_') && is_ascii_digit(t[ie + 1]);
            let fe = if has_fraction { digits_end(t, ie + 1) } else { ie };
            let u = space_end(t, fe);
            let unit_ok = u < t.len() && (u + 1 >= t.len() || !is_ascii_alnum(t[u + 1])) && (t[u] == 'b' || t[u] == 'm' || t[u] == 't');
            proof {
                lemma_digits_end(t, c0);
                lemma_digits_end(t, ie + 1);
            }
            (if unit_ok {
                seq![(t.subrange(c0, ie), if has_fraction { t.subrange(ie + 1, fe) } else { Seq::empty() }, t[u])]
            } else {
                Seq::empty()
            }) + scan_sizes(t, fe)
        }
    }
}

fn digits_end_exec(t: &Vec<char>, i: usize) -> (r: usize)
    requires
        i <= t.len(),
    ensures
        r as int == digits_end(t@, i as int),
        i <= r <= t.len(),
{
    let mut j = i;
    while j < t.len() && crate::text::char_is_ascii_digit(t[j])
        invariant
            i <= j <= t.len(),
            digits_end(t@, i as int) == digits_end(t@, j as int),
        decreases t.len() - j,
    {
        j = j + 1;
    }
    j
}

fn space_end_exec(t: &Vec<char>, i: usize) -> (r: usize)
    requires
        i <= t.len(),
    ensures
        r as int == space_end(t@, i as int),
        i <= r <= t.len(),
{
    let mut j = i;
    while j < t.len() && crate::text::char_is_ws(t[j])
        invariant
            i <= j <= t.len(),
            space_end(t@, i as int) == space_end(t@, j as int),
        decreases t.len() - j,
    {
        j = j + 1;
    }
    j
}

/// Every parameter size written in the text, in order.
pub fn size_tokens(value: &str) -> (r: Vec<SizeToken>)
    ensures
        r@.map_values(|k: SizeToken| token_view(k)) == scan_sizes(size_text(value@), 0),
{
    proof {
        reveal_strlit(",");
        reveal_strlit("");
        assert(""@ =~= Seq::<char>::empty());
    }
    let lowered = to_lowercase(trim_str(value).as_str());
    let text = chars_of(crate::text::replace_str(lowered.as_str(), ",", "").as_str());
    let ghost t = text@;
    let mut out: Vec<SizeToken> = Vec::new();
    let mut index: usize = 0;
    while index < text.len()
        invariant
            index <= text.len(),
            t == text@,
            t == size_text(value@),
            out@.map_values(|k: SizeToken| token_view(k)) + scan_sizes(t, index as int) == scan_sizes(t, 0),
        decreases text.len() - index,
    {
        let ghost before = out@.map_values(|k: SizeToken| token_view(k));
        let c0 = if text[index] == 'a' { index + 1 } else { index };
        if c0 >= text.len() || !crate::text::char_is_ascii_digit(text[c0])
            || (index > 0 && char_is_ascii_alnum(text[index - 1])) {
            index = index + 1;
        } else {
            let ie = digits_end_exec(&text, c0);
            proof {
                lemma_digits_end(t, c0 as int);
            }
            let has_fraction = ie < text.len() && ie + 1 < text.len() && (text[ie] == '.' || text[ie] == '_')
                && crate::text::char_is_ascii_digit(text[ie + 1]);
            let fe = if has_fraction { digits_end_exec(&text, ie + 1) } else { ie };
            let u = space_end_exec(&text, fe);
            let unit_ok = u < text.len() && (u + 1 >= text.len() || !char_is_ascii_alnum(text[u + 1]))
                && (text[u] == 'b' || text[u] == 'm' || text[u] == 't');
            if unit_ok {
                let integer = string_of(&sub_chars(&text, c0, ie));
                let fraction = if has_fraction { string_of(&sub_chars(&text, ie + 1, fe)) } else { String::new() };
                out.push(SizeToken { integer, fraction, unit: text[u] });
                assert(out@.map_values(|k: SizeToken| token_view(k)) =~= before + seq![(
                    t.subrange(c0 as int, ie as int),
                    if has_fraction { t.subrange(ie + 1, fe as int) } else { Seq::<char>::empty() },
                    t[u as int],
                )]);
            } else {
                assert(out@.map_values(|k: SizeToken| token_view(k)) =~= before + Seq::<(Seq<char>, Seq<char>, char)>::empty());
            }
            index = fe;
        }
    }
    assert(scan_sizes(t, index as int) =~= Seq::<(Seq<char>, Seq<char>, char)>::empty());
    assert(out@.map_values(|k: SizeToken| token_view(k)) + Seq::<(Seq<char>, Seq<char>, char)>::empty() =~= out@.map_values(|k: SizeToken| token_view(k)));
    out
}

} // verus!
