//! Application configuration, its defaults and its normalization rules, and
//! the mapping from the stored configuration to a serve configuration.

use vstd::prelude::*;

use crate::text::{
    ascii_lower, ascii_lower_chars, chars_eq, chars_of, char_is_ascii_alnum, char_is_ascii_hexdigit,
    decimal, eq_ignore_ascii_case, is_ascii_alnum, is_ascii_hexdigit, string_of, sub_chars, to_lowercase,
    trim, trim_chars, u64_to_string, unicode_lowercase,
};

verus! {

#[derive(Debug, Clone)]
pub struct ServerSection {
    pub host: String,
    pub port: u16,
    pub api_key: String,
}

#[derive(Debug, Clone)]
pub struct BackendSection {
    pub name: String,
    pub mode: String,
}

#[derive(Debug, Clone)]
pub struct ModelSection {
    pub id: String,
    pub revision: Option<String>,
    pub dtype: String,
    pub quantization: String,
    pub quantization_profile: String,
    pub max_model_len: u32,
}

#[derive(Debug, Clone)]
pub struct ChatbotSection {
    pub enabled: bool,
    pub port: u16,
    pub path: String,
}

#[derive(Debug, Clone)]
pub struct SecuritySection {
    pub profile: String,
}

#[derive(Debug, Clone)]
pub struct AppConfig {
    pub server: ServerSection,
    pub backend: BackendSection,
    pub model: ModelSection,
    pub chatbot: ChatbotSection,
    pub security: SecuritySection,
}

/// Everything a backend needs to build its launch command.
#[derive(Debug, Clone)]
pub struct ServeConfig {
    pub backend: String,
    pub model_id: String,
    pub model_revision: Option<String>,
    pub security_profile: String,
    pub host: String,
    pub port: u16,
    pub api_key: String,
    pub dtype: String,
    pub quantization: String,
    pub quantization_profile: String,
    pub max_model_len: u32,
    pub hf_token: Option<String>,
    pub huggingface_cache_dir: String,
    pub detach: bool,
    pub container_name: String,
}

/// Errors raised while normalizing configuration values.
#[derive(Debug, Clone)]
pub enum ConfigError {
    /// The revision (trimmed) is not a 40-character hexadecimal commit SHA.
    InvalidModelRevision(String),
    /// The profile given (or `dev` when none was given) is neither `dev` nor `prod`.
    UnsupportedSecurityProfile(String),
}

pub open spec fn opt_view(o: Option<String>) -> Option<Seq<char>> {
    match o {
        Some(s) => Some(s@),
        None => None,
    }
}

/// The configuration's values, flattened.
pub struct AppConfigView {
    pub host: Seq<char>,
    pub port: u16,
    pub api_key: Seq<char>,
    pub backend_name: Seq<char>,
    pub backend_mode: Seq<char>,
    pub model_id: Seq<char>,
    pub revision: Option<Seq<char>>,
    pub dtype: Seq<char>,
    pub quantization: Seq<char>,
    pub quantization_profile: Seq<char>,
    pub max_model_len: u32,
    pub chatbot_enabled: bool,
    pub chatbot_port: u16,
    pub chatbot_path: Seq<char>,
    pub security_profile: Seq<char>,
}

impl View for AppConfig {
    type V = AppConfigView;

    open spec fn view(&self) -> AppConfigView {
        AppConfigView {
            host: self.server.host@,
            port: self.server.port,
            api_key: self.server.api_key@,
            backend_name: self.backend.name@,
            backend_mode: self.backend.mode@,
            model_id: self.model.id@,
            revision: opt_view(self.model.revision),
            dtype: self.model.dtype@,
            quantization: self.model.quantization@,
            quantization_profile: self.model.quantization_profile@,
            max_model_len: self.model.max_model_len,
            chatbot_enabled: self.chatbot.enabled,
            chatbot_port: self.chatbot.port,
            chatbot_path: self.chatbot.path@,
            security_profile: self.security.profile@,
        }
    }
}

pub fn clone_opt_string(o: &Option<String>) -> (r: Option<String>)
    ensures
        opt_view(r) == opt_view(*o),
{
    match o {
        Some(s) => Some(s.clone()),
        None => None,
    }
}

impl ConfigError {
    /// The message shown to the user for this error.
    pub fn message(&self) -> (r: String)
        ensures
            r@ == match self {
                ConfigError::InvalidModelRevision(v) =>
                    "Model revision must be an immutable 40-character commit SHA. Received `"@ + v@ + "`."@,
                ConfigError::UnsupportedSecurityProfile(v) =>
                    "Unsupported security profile `"@ + v@ + "`. Use `dev` or `prod`."@,
            },
    {
        match self {
            ConfigError::InvalidModelRevision(v) => {
                let mut r = "Model revision must be an immutable 40-character commit SHA. Received `".to_owned();
                r.append(v.as_str());
                r.append("`.");
                r
            },
            ConfigError::UnsupportedSecurityProfile(v) => {
                let mut r = "Unsupported security profile `".to_owned();
                r.append(v.as_str());
                r.append("`. Use `dev` or `prod`.");
                r
            },
        }
    }
}

// ---------------------------------------------------------------------------
// Defaults
// ---------------------------------------------------------------------------

pub fn default_quantization_profile() -> (r: String)
    ensures
        r@ == "balanced"@,
{
    "balanced".to_owned()
}

pub fn default_security_profile() -> (r: String)
    ensures
        r@ == "dev"@,
{
    "dev".to_owned()
}

impl Default for SecuritySection {
    fn default() -> (r: Self)
        ensures
            r.profile@ == Seq::<char>::empty(),
    {
        SecuritySection { profile: String::new() }
    }
}

/// What `AppConfig::default()` holds.
pub open spec fn is_default_app_config(c: AppConfig) -> bool {
    &&& c.server.host@ == "0.0.0.0"@
    &&& c.server.port == 8000
    &&& c.server.api_key@ == "local-key"@
    &&& c.backend.name@ == "vllm"@
    &&& c.backend.mode@ == "docker"@
    &&& c.model.id@ == "Qwen/Qwen2.5-7B-Instruct"@
    &&& c.model.revision is None
    &&& c.model.dtype@ == "auto"@
    &&& c.model.quantization@ == "none"@
    &&& c.model.quantization_profile@ == "balanced"@
    &&& c.model.max_model_len == 8192
    &&& !c.chatbot.enabled
    &&& c.chatbot.port == 3000
    &&& c.chatbot.path@ == "~/.local/share/gaia/chatbot"@
    &&& c.security.profile@ == "dev"@
}

impl AppConfig {
    /// The configuration commands that persist it start from: the stored one
    /// when there is one, else the default, which must then be saved (the
    /// second component says so).
    pub fn init_default_if_missing(loaded: Option<AppConfig>) -> (r: (AppConfig, bool))
        ensures
            match loaded {
                Some(c) => r.0 == c && !r.1,
                None => is_default_app_config(r.0) && r.1,
            },
    {
        match loaded {
            Some(c) => (c, false),
            None => (AppConfig::default(), true),
        }
    }

    /// Same as `init_default_if_missing`.
    pub fn load_or_default(loaded: Option<AppConfig>) -> (r: (AppConfig, bool))
        ensures
            match loaded {
                Some(c) => r.0 == c && !r.1,
                None => is_default_app_config(r.0) && r.1,
            },
    {
        Self::init_default_if_missing(loaded)
    }

    /// The configuration read-only commands use: the stored one, or the
    /// default without saving it.
    pub fn load_or_transient_default(loaded: Option<AppConfig>) -> (r: AppConfig)
        ensures
            match loaded {
                Some(c) => r == c,
                None => is_default_app_config(r),
            },
    {
        match loaded {
            Some(c) => c,
            None => AppConfig::default(),
        }
    }
}

impl Default for AppConfig {
    fn default() -> (r: Self)
        ensures
            is_default_app_config(r),
    {
        AppConfig {
            server: ServerSection {
                host: "0.0.0.0".to_owned(),
                port: 8000,
                api_key: "local-key".to_owned(),
            },
            backend: BackendSection { name: "vllm".to_owned(), mode: "docker".to_owned() },
            model: ModelSection {
                id: "Qwen/Qwen2.5-7B-Instruct".to_owned(),
                revision: None,
                dtype: "auto".to_owned(),
                quantization: "none".to_owned(),
                quantization_profile: default_quantization_profile(),
                max_model_len: 8192,
            },
            chatbot: ChatbotSection {
                enabled: false,
                port: 3000,
                path: "~/.local/share/gaia/chatbot".to_owned(),
            },
            security: SecuritySection { profile: default_security_profile() },
        }
    }
}

// ---------------------------------------------------------------------------
// Normalization
// ---------------------------------------------------------------------------

/// A full, immutable commit SHA: exactly 40 hexadecimal digits.
pub open spec fn is_commit_sha(s: Seq<char>) -> bool {
    s.len() == 40 && forall|i: int| 0 <= i < s.len() ==> is_ascii_hexdigit(#[trigger] s[i])
}

/// The outcome of `normalize_model_revision` on a given input.
pub open spec fn spec_normalize_model_revision(input: Option<Seq<char>>) -> Result<Option<Seq<char>>, Seq<char>> {
    match input {
        None => Ok(None),
        Some(raw) => {
            let v = trim(raw);
            if v.len() == 0 {
                Ok(None)
            } else if is_commit_sha(v) {
                Ok(Some(ascii_lower(v)))
            } else {
                Err(v)
            }
        },
    }
}

fn all_hex(v: &Vec<char>) -> (r: bool)
    ensures
        r == forall|i: int| 0 <= i < v@.len() ==> is_ascii_hexdigit(#[trigger] v@[i]),
{
    let mut i: usize = 0;
    while i < v.len()
        invariant
            i <= v.len(),
            forall|k: int| 0 <= k < i ==> is_ascii_hexdigit(#[trigger] v@[k]),
        decreases v.len() - i,
    {
        if !char_is_ascii_hexdigit(v[i]) {
            return false;
        }
        i = i + 1;
    }
    true
}

/// Accepts an optional model revision: empty or missing means none, a
/// 40-character hexadecimal SHA is lowercased, anything else is refused.
pub fn normalize_model_revision(input: Option<&str>) -> (r: Result<Option<String>, ConfigError>)
    ensures
        match (spec_normalize_model_revision(match input { Some(s) => Some(s@), None => None }), r) {
            (Ok(None), Ok(None)) => true,
            (Ok(Some(v)), Ok(Some(s))) => s@ == v,
            (Err(v), Err(ConfigError::InvalidModelRevision(s))) => s@ == v,
            _ => false,
        },
{
    let raw = match input {
        None => return Ok(None),
        Some(raw) => raw,
    };
    let value = trim_chars(&chars_of(raw));
    if value.len() == 0 {
        return Ok(None);
    }
    if value.len() == 40 && all_hex(&value) {
        let lowered = ascii_lower_chars(&value);
        Ok(Some(string_of(&lowered)))
    } else {
        Err(ConfigError::InvalidModelRevision(string_of(&value)))
    }
}

/// The outcome of `normalize_security_profile`: the trimmed, ASCII-lowercased
/// profile when it is `dev` or `prod` (`dev` when none is given), or the
/// rejected input.
pub open spec fn spec_normalize_security_profile(input: Option<Seq<char>>) -> Result<Seq<char>, Seq<char>> {
    let raw = match input {
        Some(s) => s,
        None => "dev"@,
    };
    let value = ascii_lower(trim(raw));
    if value == "dev"@ || value == "prod"@ {
        Ok(value)
    } else {
        Err(raw)
    }
}

pub fn normalize_security_profile(input: Option<&str>) -> (r: Result<String, ConfigError>)
    ensures
        match (spec_normalize_security_profile(match input { Some(s) => Some(s@), None => None }), r) {
            (Ok(v), Ok(s)) => s@ == v,
            (Err(v), Err(ConfigError::UnsupportedSecurityProfile(s))) => s@ == v,
            _ => false,
        },
{
    let raw: &str = match input {
        Some(s) => s,
        None => "dev",
    };
    let value = ascii_lower_chars(&trim_chars(&chars_of(raw)));
    let dev = chars_of("dev");
    let prod = chars_of("prod");
    if chars_eq(&value, &dev) || chars_eq(&value, &prod) {
        Ok(string_of(&value))
    } else {
        Err(ConfigError::UnsupportedSecurityProfile(raw.to_owned()))
    }
}

/// `true` exactly for `prod`, compared without regard to ASCII case.
pub fn is_prod_security_profile(profile: &str) -> (r: bool)
    ensures
        r == (ascii_lower(profile@) == "prod"@),
{
    proof {
        reveal_strlit("prod");
        assert(ascii_lower("prod"@) =~= "prod"@);
    }
    eq_ignore_ascii_case(profile, "prod")
}

// ---------------------------------------------------------------------------
// Container names
// ---------------------------------------------------------------------------

/// Each character that is not an ASCII letter or digit becomes `-`.
pub open spec fn dash_non_alnum(s: Seq<char>) -> Seq<char> {
    s.map_values(|c: char| if is_ascii_alnum(c) { c } else { '-' })
}

pub open spec fn trim_dashes_start(s: Seq<char>) -> Seq<char>
    decreases s.len(),
{
    if s.len() > 0 && s[0] == '-' {
        trim_dashes_start(s.drop_first())
    } else {
        s
    }
}

pub open spec fn trim_dashes_end(s: Seq<char>) -> Seq<char>
    decreases s.len(),
{
    if s.len() > 0 && s.last() == '-' {
        trim_dashes_end(s.drop_last())
    } else {
        s
    }
}

pub open spec fn take_at_most(s: Seq<char>, n: nat) -> Seq<char> {
    if s.len() <= n {
        s
    } else {
        s.take(n as int)
    }
}

/// The model part of a container name: the lowercased id with every
/// non-alphanumeric character turned into `-`, outer dashes trimmed, capped
/// at 32 characters.
pub open spec fn container_fragment(model_id: Seq<char>) -> Seq<char> {
    take_at_most(trim_dashes_end(trim_dashes_start(dash_non_alnum(unicode_lowercase(model_id)))), 32)
}

proof fn lemma_trim_dashes_start_at(s: Seq<char>, i: int)
    requires
        0 <= i <= s.len(),
        forall|k: int| 0 <= k < i ==> #[trigger] s[k] == '-',
        i == s.len() || s[i] != '-',
    ensures
        trim_dashes_start(s) == s.subrange(i, s.len() as int),
    decreases i,
{
    if i == 0 {
        assert(s.subrange(0, s.len() as int) =~= s);
    } else {
        assert(s[0] == '-');
        let t = s.drop_first();
        assert forall|k: int| 0 <= k < i - 1 implies #[trigger] t[k] == '-' by {
            assert(t[k] == s[k + 1]);
        }
        lemma_trim_dashes_start_at(t, i - 1);
        assert(t.subrange(i - 1, t.len() as int) =~= s.subrange(i, s.len() as int));
    }
}

proof fn lemma_trim_dashes_end_at(s: Seq<char>, j: int)
    requires
        0 <= j <= s.len(),
        forall|k: int| j <= k < s.len() ==> #[trigger] s[k] == '-',
        j == 0 || s[j - 1] != '-',
    ensures
        trim_dashes_end(s) == s.subrange(0, j),
    decreases s.len() - j,
{
    if j == s.len() {
        assert(s.subrange(0, j) =~= s);
    } else {
        assert(s.last() == '-');
        let t = s.drop_last();
        assert forall|k: int| j <= k < t.len() implies #[trigger] t[k] == '-' by {
            assert(t[k] == s[k]);
        }
        lemma_trim_dashes_end_at(t, j);
        assert(t.subrange(0, j) =~= s.subrange(0, j));
    }
}

proof fn lemma_trim_identity(s: Seq<char>)
    requires
        s.len() > 0,
        !crate::text::is_ws(s[0]),
        !crate::text::is_ws(s.last()),
    ensures
        trim(s) == s,
{
    assert(crate::text::trim_start(s) == s);
    assert(crate::text::trim_end(s) == s);
}

/// Normalizing a normalized revision changes nothing.
pub proof fn lemma_revision_normalization_idempotent(v: Seq<char>)
    ensures
        match spec_normalize_model_revision(Some(v)) {
            Ok(Some(w)) => spec_normalize_model_revision(Some(w)) == Ok::<Option<Seq<char>>, Seq<char>>(Some(w)),
            _ => true,
        },
{
    if let Ok(Some(w)) = spec_normalize_model_revision(Some(v)) {
        let t = trim(v);
        assert(is_commit_sha(t));
        assert(w == ascii_lower(t));
        assert forall|i: int| 0 <= i < w.len() implies is_ascii_hexdigit(#[trigger] w[i]) && !crate::text::is_ascii_upper(w[i]) by {
            assert(w[i] == crate::text::ascii_lower_char(t[i]));
            assert(is_ascii_hexdigit(t[i]));
        }
        assert(is_commit_sha(w));
        lemma_trim_identity(w);
        assert(ascii_lower(w) =~= w);
    }
}

/// Normalizing a normalized security profile changes nothing: the result
/// is `dev` or `prod`, which normalize to themselves.
pub proof fn lemma_profile_normalization_idempotent(p: Option<Seq<char>>)
    ensures
        match spec_normalize_security_profile(p) {
            Ok(q) => (q == "dev"@ || q == "prod"@)
                && spec_normalize_security_profile(Some(q)) == Ok::<Seq<char>, Seq<char>>(q),
            _ => true,
        },
{
    reveal_strlit("dev");
    reveal_strlit("prod");
    if let Ok(q) = spec_normalize_security_profile(p) {
        lemma_trim_identity(q);
        assert(ascii_lower(q) =~= q);
    }
}

/// Characters a container name fragment is made of.
pub open spec fn fragment_char(c: char) -> bool {
    is_ascii_alnum(c) || c == '-'
}

proof fn lemma_trim_dashes_start_suffix(s: Seq<char>)
    ensures
        trim_dashes_start(s).len() <= s.len(),
        trim_dashes_start(s) == s.subrange(s.len() - trim_dashes_start(s).len(), s.len() as int),
        trim_dashes_start(s).len() > 0 ==> trim_dashes_start(s)[0] != '-',
    decreases s.len(),
{
    if s.len() > 0 && s[0] == '-' {
        lemma_trim_dashes_start_suffix(s.drop_first());
        let t = trim_dashes_start(s.drop_first());
        assert(s.drop_first().subrange(s.drop_first().len() - t.len(), s.drop_first().len() as int)
            =~= s.subrange(s.len() - t.len(), s.len() as int));
    } else {
        assert(s.subrange(0, s.len() as int) =~= s);
    }
}

proof fn lemma_trim_dashes_end_prefix(s: Seq<char>)
    ensures
        trim_dashes_end(s).len() <= s.len(),
        trim_dashes_end(s) == s.subrange(0, trim_dashes_end(s).len() as int),
        trim_dashes_end(s).len() > 0 ==> trim_dashes_end(s).last() != '-',
    decreases s.len(),
{
    if s.len() > 0 && s.last() == '-' {
        lemma_trim_dashes_end_prefix(s.drop_last());
        let t = trim_dashes_end(s.drop_last());
        assert(s.drop_last().subrange(0, t.len() as int) =~= s.subrange(0, t.len() as int));
    } else {
        assert(s.subrange(0, s.len() as int) =~= s);
    }
}

/// A container name fragment has at most 32 characters, each an ASCII
/// letter, digit or `-`, and neither starts nor ends with `-` unless it
/// was cut at 32 characters.
pub proof fn lemma_container_fragment_shape(model_id: Seq<char>)
    ensures
        container_fragment(model_id).len() <= 32,
        forall|i: int| 0 <= i < container_fragment(model_id).len() ==> fragment_char(#[trigger] container_fragment(model_id)[i]),
        container_fragment(model_id).len() > 0 ==> container_fragment(model_id)[0] != '-',
        container_fragment(model_id).len() < 32 && container_fragment(model_id).len() > 0
            ==> container_fragment(model_id).last() != '-',
{
    let m = dash_non_alnum(unicode_lowercase(model_id));
    let a = trim_dashes_start(m);
    let b = trim_dashes_end(a);
    lemma_trim_dashes_start_suffix(m);
    lemma_trim_dashes_end_prefix(a);
    let f = container_fragment(model_id);
    assert(f == take_at_most(b, 32));
    assert forall|i: int| 0 <= i < f.len() implies fragment_char(#[trigger] f[i]) by {
        assert(f[i] == b[i]);
        assert(b[i] == a[i]);
        assert(a[i] == m[m.len() - a.len() + i]);
    }
    if f.len() > 0 {
        assert(f[0] == b[0]);
        assert(b[0] == a[0]);
    }
    if 0 < f.len() < 32 {
        assert(f == b);
    }
}

fn sanitize_container_fragment(model_id: &str) -> (r: String)
    ensures
        r@ == container_fragment(model_id@),
{
    let lowered = chars_of(to_lowercase(model_id).as_str());
    let mut mapped: Vec<char> = Vec::new();
    let mut i: usize = 0;
    while i < lowered.len()
        invariant
            i <= lowered.len(),
            mapped@ == dash_non_alnum(lowered@.subrange(0, i as int)),
        decreases lowered.len() - i,
    {
        let c = lowered[i];
        if char_is_ascii_alnum(c) {
            mapped.push(c);
        } else {
            mapped.push('-');
        }
        i = i + 1;
        assert(dash_non_alnum(lowered@.subrange(0, i as int)) =~= dash_non_alnum(
            lowered@.subrange(0, i - 1),
        ).push(if is_ascii_alnum(c) { c } else { '-' }));
    }
    assert(lowered@.subrange(0, lowered.len() as int) =~= lowered@);
    let n = mapped.len();
    let mut a: usize = 0;
    while a < n && mapped[a] == '-'
        invariant
            n == mapped.len(),
            a <= n,
            forall|k: int| 0 <= k < a ==> #[trigger] mapped@[k] == '-',
        decreases n - a,
    {
        a = a + 1;
    }
    let mut b: usize = n;
    while b > a && mapped[b - 1] == '-'
        invariant
            n == mapped.len(),
            a <= b <= n,
            forall|k: int| b <= k < n ==> #[trigger] mapped@[k] == '-',
        decreases b - a,
    {
        b = b - 1;
    }
    let end = if b - a > 32 { a + 32 } else { b };
    proof {
        lemma_trim_dashes_start_at(mapped@, a as int);
        let t = mapped@.subrange(a as int, n as int);
        assert forall|k: int| b - a <= k < t.len() implies #[trigger] t[k] == '-' by {
            assert(t[k] == mapped@[k + a]);
        }
        if b > a {
            assert(t[b - a - 1] == mapped@[b - 1]);
        }
        lemma_trim_dashes_end_at(t, b - a);
        assert(t.subrange(0, b - a) =~= mapped@.subrange(a as int, b as int));
        if b - a > 32 {
            assert(mapped@.subrange(a as int, b as int).take(32) =~= mapped@.subrange(a as int, a + 32));
        }
    }
    string_of(&sub_chars(&mapped, a, end))
}

// ---------------------------------------------------------------------------
// Serve configuration
// ---------------------------------------------------------------------------

/// The container name Gaia gives a backend serving a model.
pub open spec fn container_name(backend: Seq<char>, model_id: Seq<char>) -> Seq<char> {
    "gaia-"@ + backend + "-"@ + container_fragment(model_id)
}

impl AppConfig {
    /// The serve configuration for this stored configuration. The caller
    /// supplies what comes from the environment: the Hugging Face token and
    /// the Hugging Face cache directory.
    pub fn to_serve_config(&self, hf_token: Option<String>, huggingface_cache_dir: String) -> (r: ServeConfig)
        ensures
            r.backend@ == self.backend.name@,
            r.model_id@ == self.model.id@,
            opt_view(r.model_revision) == opt_view(self.model.revision),
            r.security_profile@ == self.security.profile@,
            r.host@ == self.server.host@,
            r.port == self.server.port,
            r.api_key@ == self.server.api_key@,
            r.dtype@ == self.model.dtype@,
            r.quantization@ == self.model.quantization@,
            r.quantization_profile@ == self.model.quantization_profile@,
            r.max_model_len == self.model.max_model_len,
            opt_view(r.hf_token) == opt_view(hf_token),
            r.huggingface_cache_dir@ == huggingface_cache_dir@,
            !r.detach,
            r.container_name@ == container_name(self.backend.name@, self.model.id@),
    {
        let mut name = "gaia-".to_owned();
        name.append(self.backend.name.as_str());
        name.append("-");
        name.append(sanitize_container_fragment(self.model.id.as_str()).as_str());
        ServeConfig {
            backend: self.backend.name.clone(),
            model_id: self.model.id.clone(),
            model_revision: clone_opt_string(&self.model.revision),
            security_profile: self.security.profile.clone(),
            host: self.server.host.clone(),
            port: self.server.port,
            api_key: self.server.api_key.clone(),
            dtype: self.model.dtype.clone(),
            quantization: self.model.quantization.clone(),
            quantization_profile: self.model.quantization_profile.clone(),
            max_model_len: self.model.max_model_len,
            hf_token,
            huggingface_cache_dir,
            detach: false,
            container_name: name,
        }
    }
}

/// `http://{host}:{port}/v1`.
pub open spec fn openai_base_url_of(host: Seq<char>, port: u16) -> Seq<char> {
    "http://"@ + host + ":"@ + decimal(port as nat) + "/v1"@
}

impl ServeConfig {
    pub fn openai_base_url(&self) -> (r: String)
        ensures
            r@ == openai_base_url_of(self.host@, self.port),
    {
        let mut r = "http://".to_owned();
        r.append(self.host.as_str());
        r.append(":");
        r.append(u64_to_string(self.port as u64).as_str());
        r.append("/v1");
        r
    }

    pub fn chat_completions_url(&self) -> (r: String)
        ensures
            r@ == openai_base_url_of(self.host@, self.port) + "/chat/completions"@,
    {
        let mut r = self.openai_base_url();
        r.append("/chat/completions");
        r
    }
}

} // verus!
