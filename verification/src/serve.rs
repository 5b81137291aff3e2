//! `gaia serve`: the decisions taken before a backend is launched —
//! command-line overrides, quantization profiles, the security profile and
//! API-key policy, and what is shown before the launch.
//!
//! Reading the environment, saving the configuration and running Docker
//! stay with the caller, which hands the values in.

use vstd::prelude::*;

use rand::Rng;

use crate::backend::{BackendAvailability, ServingBackend};
use crate::command_spec::{shell_quote, shell_quoted};
use crate::config::{
    is_prod_security_profile, normalize_model_revision, normalize_security_profile, opt_view,
    spec_normalize_model_revision, spec_normalize_security_profile, AppConfig, AppConfigView,
    ConfigError, ServeConfig,
};
use crate::hf_catalog::str_views;
use crate::model_catalog::ModelCatalog;
use crate::text::{
    ascii_lower, chars_of, is_ascii_alnum, join, push_str, replace_all, replace_str, str_eq,
    to_ascii_lowercase, trim, trim_str,
};

verus! {

/// The options of `gaia serve`.
#[derive(Debug, Clone)]
pub struct ServeArgs {
    pub backend: Option<String>,
    pub model: Option<String>,
    pub model_revision: Option<String>,
    pub host: Option<String>,
    pub port: Option<u16>,
    pub api_key: Option<String>,
    pub security_profile: Option<String>,
    pub dtype: Option<String>,
    pub quantization: Option<String>,
    pub max_model_len: Option<u32>,
    pub detach: bool,
    pub dry_run: bool,
    pub force: bool,
    pub no_save: bool,
    pub quantization_profile: Option<String>,
    pub mock: bool,
}

/// Why `gaia serve` refuses to go on.
#[derive(Debug, Clone)]
pub enum ServeError {
    Config(ConfigError),
    UnsupportedQuantizationProfile(String),
    ProdRequiresApiKey,
    UnsupportedBackend(String),
    /// The backend's display name and the reason it cannot run.
    BackendUnavailable(String, String),
    GatedModelNeedsToken(String),
}

impl ServeError {
    /// The message shown to the user for this error.
    pub fn message(&self) -> (r: String)
        ensures
            r@ == match self {
                ServeError::Config(e) => match e {
                    ConfigError::InvalidModelRevision(v) =>
                        "Model revision must be an immutable 40-character commit SHA. Received `"@ + v@ + "`."@,
                    ConfigError::UnsupportedSecurityProfile(v) =>
                        "Unsupported security profile `"@ + v@ + "`. Use `dev` or `prod`."@,
                },
                ServeError::UnsupportedQuantizationProfile(p) =>
                    "Unsupported quantization profile `"@ + p@ + "`. Use one of: none, quality, balanced, memory, speed."@,
                ServeError::ProdRequiresApiKey =>
                    "Security profile `prod` requires an explicit API key. Set `--api-key` or `GAIA_API_KEY`."@,
                ServeError::UnsupportedBackend(b) => "Unsupported backend `"@ + b@ + "`"@,
                ServeError::BackendUnavailable(name, reason) =>
                    "Backend "@ + name@ + " is not available: "@ + reason@ + " (use --force to bypass)"@,
                ServeError::GatedModelNeedsToken(m) =>
                    "Model `"@ + m@ + "` is gated on Hugging Face and requires HF_TOKEN when security profile is `prod`."@,
            },
    {
        match self {
            ServeError::Config(e) => e.message(),
            ServeError::UnsupportedQuantizationProfile(p) => {
                let mut r = "Unsupported quantization profile `".to_owned();
                push_str(&mut r, p.as_str());
                push_str(&mut r, "`. Use one of: none, quality, balanced, memory, speed.");
                r
            },
            ServeError::ProdRequiresApiKey => {
                "Security profile `prod` requires an explicit API key. Set `--api-key` or `GAIA_API_KEY`.".to_owned()
            },
            ServeError::UnsupportedBackend(b) => {
                let mut r = "Unsupported backend `".to_owned();
                push_str(&mut r, b.as_str());
                push_str(&mut r, "`");
                r
            },
            ServeError::BackendUnavailable(name, reason) => {
                let mut r = "Backend ".to_owned();
                push_str(&mut r, name.as_str());
                push_str(&mut r, " is not available: ");
                push_str(&mut r, reason.as_str());
                push_str(&mut r, " (use --force to bypass)");
                r
            },
            ServeError::GatedModelNeedsToken(m) => {
                let mut r = "Model `".to_owned();
                push_str(&mut r, m.as_str());
                push_str(&mut r, "` is gated on Hugging Face and requires HF_TOKEN when security profile is `prod`.");
                r
            },
        }
    }
}

// ---------------------------------------------------------------------------
// Command-line overrides
// ---------------------------------------------------------------------------

/// The value given on the command line, else the current one.
pub open spec fn given_or(o: Option<String>, current: Seq<char>) -> Seq<char> {
    match o {
        Some(v) => v@,
        None => current,
    }
}

/// Backend (lowercased) and model overridden.
pub open spec fn overrides_first(c: AppConfigView, a: ServeArgs) -> AppConfigView {
    AppConfigView {
        backend_name: match a.backend {
            Some(b) => ascii_lower(b@),
            None => c.backend_name,
        },
        model_id: given_or(a.model, c.model_id),
        ..c
    }
}

/// Whether the given revision, if any, is acceptable.
pub open spec fn revision_ok(a: ServeArgs) -> bool {
    match a.model_revision {
        Some(r) => spec_normalize_model_revision(Some(r@)) is Ok,
        None => true,
    }
}

/// ... then revision (normalized), host, port and API key.
pub open spec fn overrides_second(c: AppConfigView, a: ServeArgs) -> AppConfigView {
    let s = overrides_first(c, a);
    AppConfigView {
        revision: match a.model_revision {
            Some(r) => match spec_normalize_model_revision(Some(r@)) {
                Ok(v) => v,
                Err(_) => s.revision,
            },
            None => s.revision,
        },
        host: given_or(a.host, s.host),
        port: match a.port {
            Some(p) => p,
            None => s.port,
        },
        api_key: given_or(a.api_key, s.api_key),
        ..s
    }
}

/// Whether the given security profile, if any, is acceptable.
pub open spec fn profile_ok(a: ServeArgs) -> bool {
    match a.security_profile {
        Some(p) => spec_normalize_security_profile(Some(p@)) is Ok,
        None => true,
    }
}

/// ... then security profile (normalized), dtype, quantization, context
/// length and quantization profile (lowercased).
pub open spec fn overrides_all(c: AppConfigView, a: ServeArgs) -> AppConfigView {
    let s = overrides_second(c, a);
    AppConfigView {
        security_profile: match a.security_profile {
            Some(p) => match spec_normalize_security_profile(Some(p@)) {
                Ok(v) => v,
                Err(_) => s.security_profile,
            },
            None => s.security_profile,
        },
        dtype: given_or(a.dtype, s.dtype),
        quantization: given_or(a.quantization, s.quantization),
        max_model_len: match a.max_model_len {
            Some(n) => n,
            None => s.max_model_len,
        },
        quantization_profile: match a.quantization_profile {
            Some(q) => ascii_lower(q@),
            None => s.quantization_profile,
        },
        ..s
    }
}

/// Applies the command-line options to the configuration, in order; a
/// rejected revision or profile stops at that point.
pub fn apply_cli_overrides(config: &mut AppConfig, args: &ServeArgs) -> (r: Result<(), ConfigError>)
    ensures
        r is Ok <==> revision_ok(*args) && profile_ok(*args),
        match r {
            Ok(_) => final(config)@ == overrides_all(old(config)@, *args),
            Err(ConfigError::InvalidModelRevision(v)) => {
                &&& !revision_ok(*args)
                &&& spec_normalize_model_revision(opt_view(args.model_revision)) == Err::<Option<Seq<char>>, Seq<char>>(v@)
                &&& final(config)@ == overrides_first(old(config)@, *args)
            },
            Err(ConfigError::UnsupportedSecurityProfile(v)) => {
                &&& revision_ok(*args)
                &&& !profile_ok(*args)
                &&& spec_normalize_security_profile(opt_view(args.security_profile)) == Err::<Seq<char>, Seq<char>>(v@)
                &&& final(config)@ == overrides_second(old(config)@, *args)
            },
        },
{
    if let Some(backend) = &args.backend {
        config.backend.name = to_ascii_lowercase(backend.as_str());
    }
    if let Some(model) = &args.model {
        config.model.id = model.clone();
    }
    if let Some(model_revision) = &args.model_revision {
        match normalize_model_revision(Some(model_revision.as_str())) {
            Ok(v) => {
                config.model.revision = v;
            },
            Err(e) => {
                return Err(e);
            },
        }
    }
    if let Some(host) = &args.host {
        config.server.host = host.clone();
    }
    if let Some(port) = args.port {
        config.server.port = port;
    }
    if let Some(api_key) = &args.api_key {
        config.server.api_key = api_key.clone();
    }
    if let Some(profile) = &args.security_profile {
        match normalize_security_profile(Some(profile.as_str())) {
            Ok(v) => {
                config.security.profile = v;
            },
            Err(e) => {
                return Err(e);
            },
        }
    }
    if let Some(dtype) = &args.dtype {
        config.model.dtype = dtype.clone();
    }
    if let Some(quantization) = &args.quantization {
        config.model.quantization = quantization.clone();
    }
    if let Some(max_model_len) = args.max_model_len {
        config.model.max_model_len = max_model_len;
    }
    if let Some(profile) = &args.quantization_profile {
        config.model.quantization_profile = to_ascii_lowercase(profile.as_str());
    }
    Ok(())
}


// ---------------------------------------------------------------------------
// Quantization profiles
// ---------------------------------------------------------------------------

/// The profile in force: the one asked for, else the configured one, lowercased.
pub open spec fn chosen_quant_profile(c: AppConfigView, profile: Option<Seq<char>>) -> Seq<char> {
    ascii_lower(
        match profile {
            Some(p) => p,
            None => c.quantization_profile,
        },
    )
}

pub open spec fn known_quant_profile(p: Seq<char>) -> bool {
    p == "none"@ || p == "quality"@ || p == "balanced"@ || p == "memory"@ || p == "speed"@
}

/// The configuration once profile `p` is recorded and, when known,
/// applied: `quality` serves float16 unquantized, `balanced` unquantized
/// with an automatic dtype unless one is set, `memory` int4, `speed` int8.
pub open spec fn quant_applied(c: AppConfigView, p: Seq<char>) -> AppConfigView {
    let c1 = AppConfigView { quantization_profile: p, ..c };
    if p == "quality"@ {
        AppConfigView { quantization: "none"@, dtype: "float16"@, ..c1 }
    } else if p == "balanced"@ {
        AppConfigView {
            quantization: "none"@,
            dtype: if trim(c.dtype).len() == 0 { "auto"@ } else { c.dtype },
            ..c1
        }
    } else if p == "memory"@ {
        AppConfigView { quantization: "int4"@, dtype: "auto"@, ..c1 }
    } else if p == "speed"@ {
        AppConfigView { quantization: "int8"@, dtype: "auto"@, ..c1 }
    } else {
        c1
    }
}

pub fn apply_quantization_profile(config: &mut AppConfig, profile: Option<&str>) -> (r: Result<(), ServeError>)
    ensures
        final(config)@ == quant_applied(old(config)@, chosen_quant_profile(old(config)@, match profile { Some(p) => Some(p@), None => None })),
        r is Ok <==> known_quant_profile(chosen_quant_profile(old(config)@, match profile { Some(p) => Some(p@), None => None })),
        match r {
            Ok(_) => true,
            Err(ServeError::UnsupportedQuantizationProfile(v)) => v@ == chosen_quant_profile(old(config)@, match profile { Some(p) => Some(p@), None => None }),
            Err(_) => false,
        },
{
    let selected = match profile {
        Some(p) => to_ascii_lowercase(p),
        None => to_ascii_lowercase(config.model.quantization_profile.as_str()),
    };
    config.model.quantization_profile = selected.clone();
    proof {
        reveal_strlit("none");
        reveal_strlit("quality");
        reveal_strlit("balanced");
        reveal_strlit("memory");
        reveal_strlit("speed");
        assert("none"@ != "quality"@ && "none"@ != "balanced"@ && "none"@ != "memory"@ && "none"@ != "speed"@) by {
            assert("none"@[0] != "quality"@[0] && "none"@[0] != "balanced"@[0] && "none"@[0] != "memory"@[0] && "none"@[0] != "speed"@[0]);
        }
    }
    if str_eq(selected.as_str(), "none") {
        Ok(())
    } else if str_eq(selected.as_str(), "quality") {
        config.model.quantization = "none".to_owned();
        config.model.dtype = "float16".to_owned();
        Ok(())
    } else if str_eq(selected.as_str(), "balanced") {
        config.model.quantization = "none".to_owned();
        if trim_str(config.model.dtype.as_str()).as_str().is_empty() {
            config.model.dtype = "auto".to_owned();
        }
        Ok(())
    } else if str_eq(selected.as_str(), "memory") {
        config.model.quantization = "int4".to_owned();
        config.model.dtype = "auto".to_owned();
        Ok(())
    } else if str_eq(selected.as_str(), "speed") {
        config.model.quantization = "int8".to_owned();
        config.model.dtype = "auto".to_owned();
        Ok(())
    } else {
        Err(ServeError::UnsupportedQuantizationProfile(selected))
    }
}

// ---------------------------------------------------------------------------
// Security profile and API key
// ---------------------------------------------------------------------------

/// A value set in the environment counts when it is not blank.
pub open spec fn env_given(v: Option<String>) -> bool {
    match v {
        Some(s) => trim(s@).len() > 0,
        None => false,
    }
}

/// The profile to normalize: the environment's when the command line gave
/// none and the environment has one, else the configured one.
pub open spec fn raw_security_profile(c: AppConfigView, a: ServeArgs, env_profile: Option<String>) -> Seq<char> {
    if a.security_profile is None && env_given(env_profile) {
        env_profile->0@
    } else {
        c.security_profile
    }
}

/// Settles the security profile; `true` for `prod`.
pub fn resolve_security_profile(config: &mut AppConfig, args: &ServeArgs, env_profile: Option<String>) -> (r: Result<bool, ConfigError>)
    ensures
        match spec_normalize_security_profile(Some(raw_security_profile(old(config)@, *args, env_profile))) {
            Ok(p) => r == Ok::<bool, ConfigError>(ascii_lower(p) == "prod"@)
                && final(config)@ == (AppConfigView { security_profile: p, ..old(config)@ }),
            Err(v) => r matches Err(ConfigError::UnsupportedSecurityProfile(e)) && e@ == v
                && final(config)@ == (AppConfigView { security_profile: raw_security_profile(old(config)@, *args, env_profile), ..old(config)@ }),
        },
{
    if args.security_profile.is_none() {
        if let Some(profile) = env_profile {
            if !trim_str(profile.as_str()).as_str().is_empty() {
                config.security.profile = profile;
            }
        }
    }
    match normalize_security_profile(Some(config.security.profile.as_str())) {
        Ok(p) => {
            config.security.profile = p;
            Ok(is_prod_security_profile(config.security.profile.as_str()))
        },
        Err(e) => Err(e),
    }
}

/// A key that still has to be chosen: blank, or the `local-key` placeholder.
pub open spec fn placeholder_key(k: Seq<char>) -> bool {
    trim(k).len() == 0 || trim(k) == "local-key"@
}

/// The API key before the policy is applied: the environment's when the
/// command line gave none and the environment has one.
pub open spec fn raw_api_key(c: AppConfigView, a: ServeArgs, env_api_key: Option<String>) -> Seq<char> {
    if a.api_key is None && env_given(env_api_key) {
        env_api_key->0@
    } else {
        c.api_key
    }
}

/// The API-key policy's outcome: `prod` refuses a placeholder, `dev`
/// replaces one with `fresh`, a real key is kept; `Ok(true)` when replaced.
pub open spec fn api_key_resolved(
    c: AppConfigView,
    a: ServeArgs,
    env_api_key: Option<String>,
    prod_profile: bool,
    fresh: Seq<char>,
    r: Result<bool, ServeError>,
    t: AppConfigView,
) -> bool {
    let k = raw_api_key(c, a, env_api_key);
    if placeholder_key(k) && prod_profile {
        r matches Err(ServeError::ProdRequiresApiKey) && t == (AppConfigView { api_key: k, ..c })
    } else if placeholder_key(k) {
        r == Ok::<bool, ServeError>(true) && t == (AppConfigView { api_key: fresh, ..c })
    } else {
        r == Ok::<bool, ServeError>(false) && t == (AppConfigView { api_key: k, ..c })
    }
}

/// When the policy lets the launch go on, the key in force is a real one,
/// provided the fresh key offered is; under `prod` it is always the key
/// the user gave.
pub proof fn lemma_resolved_key_is_real(
    c: AppConfigView,
    a: ServeArgs,
    env_api_key: Option<String>,
    prod_profile: bool,
    fresh: Seq<char>,
    r: Result<bool, ServeError>,
    t: AppConfigView,
)
    requires
        api_key_resolved(c, a, env_api_key, prod_profile, fresh, r, t),
        r is Ok,
        !placeholder_key(fresh),
    ensures
        !placeholder_key(t.api_key),
        prod_profile ==> t.api_key == raw_api_key(c, a, env_api_key) && r == Ok::<bool, ServeError>(false),
{
}

/// A key made by `generate_local_key` is never a placeholder.
pub proof fn lemma_generated_key_is_real(k: Seq<char>)
    requires
        k.len() == 26,
        k.take(6) == "local-"@,
        forall|i: int| 6 <= i < 26 ==> is_ascii_alnum(#[trigger] k[i]),
    ensures
        !placeholder_key(k),
{
    reveal_strlit("local-");
    reveal_strlit("local-key");
    assert(k[0] == k.take(6)[0]);
    assert(!crate::text::is_ws(k[0]));
    assert(is_ascii_alnum(k[25]));
    assert(!crate::text::is_ws(k.last()));
    assert(crate::text::trim_start(k) == k);
    assert(crate::text::trim_end(k) == k);
    assert(trim(k) == k);
    assert(k.len() != "local-key"@.len());
}

/// Applies the API-key policy: `prod` refuses a missing or placeholder key;
/// `dev` replaces one with `fresh_key`. `Ok(true)` when it did.
pub fn resolve_api_key(
    config: &mut AppConfig,
    args: &ServeArgs,
    env_api_key: Option<String>,
    prod_profile: bool,
    fresh_key: String,
) -> (r: Result<bool, ServeError>)
    ensures
        api_key_resolved(old(config)@, *args, env_api_key, prod_profile, fresh_key@, r, final(config)@),
{
    if args.api_key.is_none() {
        if let Some(api_key) = env_api_key {
            if !trim_str(api_key.as_str()).as_str().is_empty() {
                config.server.api_key = api_key;
            }
        }
    }
    let trimmed = trim_str(config.server.api_key.as_str());
    let placeholder = trimmed.as_str().is_empty() || str_eq(trimmed.as_str(), "local-key");
    if prod_profile && placeholder {
        return Err(ServeError::ProdRequiresApiKey);
    }
    if placeholder {
        config.server.api_key = fresh_key;
        return Ok(true);
    }
    Ok(false)
}

/// Draws `n` characters from rand's `Alphanumeric` distribution with the
/// thread-local generator. Claimed: `n` characters, each an ASCII letter
/// or digit (the distribution's character set). Which ones is chance.
#[verifier::external_body]
fn random_alphanumeric(n: usize) -> (r: String)
    ensures
        r@.len() == n,
        forall|i: int| 0 <= i < n ==> is_ascii_alnum(#[trigger] r@[i]),
{
    rand::rng().sample_iter(&rand::distr::Alphanumeric).take(n).map(char::from).collect()
}

/// A fresh local API key: `local-` and twenty random ASCII letters or digits.
pub fn generate_local_key() -> (r: String)
    ensures
        r@.len() == 26,
        r@.take(6) == "local-"@,
        forall|i: int| 6 <= i < 26 ==> is_ascii_alnum(#[trigger] r@[i]),
{
    let random = random_alphanumeric(20);
    let mut key = "local-".to_owned();
    push_str(&mut key, random.as_str());
    proof {
        reveal_strlit("local-");
        assert(key@.take(6) =~= "local-"@);
        assert forall|i: int| 6 <= i < 26 implies is_ascii_alnum(#[trigger] key@[i]) by {
            assert(key@[i] == random@[i - 6]);
        }
    }
    key
}


/// The shape of a key `generate_local_key` makes: `local-` and twenty
/// ASCII letters or digits.
pub open spec fn generated_key_shape(k: Seq<char>) -> bool {
    &&& k.len() == 26
    &&& k.take(6) == "local-"@
    &&& forall|i: int| 6 <= i < 26 ==> is_ascii_alnum(#[trigger] k[i])
}

/// Whether the key in force (the environment's when the command line gave
/// none) is missing or the placeholder.
fn key_is_placeholder(config: &AppConfig, args: &ServeArgs, env_api_key: &Option<String>) -> (r: bool)
    ensures
        r == placeholder_key(raw_api_key(config@, *args, *env_api_key)),
{
    proof {
        reveal_strlit("local-key");
    }
    let use_env = match (&args.api_key, env_api_key) {
        (None, Some(e)) => !trim_str(e.as_str()).as_str().is_empty(),
        _ => false,
    };
    let trimmed = if use_env {
        match env_api_key {
            Some(e) => trim_str(e.as_str()),
            None => String::new(),
        }
    } else {
        trim_str(config.server.api_key.as_str())
    };
    trimmed.as_str().is_empty() || str_eq(trimmed.as_str(), "local-key")
}

/// The API-key policy, drawing a fresh local key only when `dev` has to
/// replace a missing or placeholder key (`Ok(true)` then). The outcome is
/// `resolve_api_key`'s with some key of the generated shape.
pub fn resolve_or_generate_api_key(
    config: &mut AppConfig,
    args: &ServeArgs,
    env_api_key: Option<String>,
    prod_profile: bool,
) -> (r: Result<bool, ServeError>)
    ensures
        exists|fresh: Seq<char>| #[trigger] generated_key_shape(fresh)
            && api_key_resolved(old(config)@, *args, env_api_key, prod_profile, fresh, r, final(config)@),
{
    let needed = !prod_profile && key_is_placeholder(config, args, &env_api_key);
    let fresh = if needed { generate_local_key() } else { String::new() };
    let ghost before = config@;
    let ghost fv = fresh@;
    let ghost env = env_api_key;
    let r = resolve_api_key(config, args, env_api_key, prod_profile, fresh);
    proof {
        if needed {
            assert(generated_key_shape(fv));
        } else {
            let w: Seq<char> = "local-"@ + Seq::new(20, |i: int| 'a');
            reveal_strlit("local-");
            assert(w.take(6) =~= "local-"@);
            assert forall|i: int| 6 <= i < 26 implies is_ascii_alnum(#[trigger] w[i]) by {
                assert(w[i] == 'a');
            }
            assert(generated_key_shape(w));
            assert(api_key_resolved(before, *args, env, prod_profile, w, r, config@));
        }
    }
    r
}

// ---------------------------------------------------------------------------
// The serve configuration
// ---------------------------------------------------------------------------

/// The serve configuration for the settled configuration, detached when
/// asked, with its revision checked once more.
pub fn finish_serve_config(config: &AppConfig, args: &ServeArgs, hf_token: Option<String>, cache_dir: String) -> (r: Result<ServeConfig, ConfigError>)
    ensures
        match spec_normalize_model_revision(config@.revision) {
            Ok(v) => r matches Ok(sc) && {
                &&& opt_view(sc.model_revision) == v
                &&& sc.detach == args.detach
                &&& sc.backend@ == config.backend.name@
                &&& sc.model_id@ == config.model.id@
                &&& sc.security_profile@ == config.security.profile@
                &&& sc.host@ == config.server.host@
                &&& sc.port == config.server.port
                &&& sc.api_key@ == config.server.api_key@
                &&& sc.dtype@ == config.model.dtype@
                &&& sc.quantization@ == config.model.quantization@
                &&& sc.quantization_profile@ == config.model.quantization_profile@
                &&& sc.max_model_len == config.model.max_model_len
                &&& opt_view(sc.hf_token) == opt_view(hf_token)
                &&& sc.huggingface_cache_dir@ == cache_dir@
                &&& sc.container_name@ == crate::config::container_name(config.backend.name@, config.model.id@)
            },
            Err(v) => r matches Err(ConfigError::InvalidModelRevision(e)) && e@ == v,
        },
{
    let mut serve_config = config.to_serve_config(hf_token, cache_dir);
    serve_config.detach = args.detach;
    let revision = match &serve_config.model_revision {
        Some(rev) => normalize_model_revision(Some(rev.as_str())),
        None => normalize_model_revision(None),
    };
    match revision {
        Ok(v) => {
            serve_config.model_revision = v;
            Ok(serve_config)
        },
        Err(e) => Err(e),
    }
}

/// Whether the catalog marks the first model with this id as gated.
pub open spec fn gated_in(models: Seq<crate::model_catalog::ModelEntryView>, id: Seq<char>) -> bool
    decreases models.len(),
{
    if models.len() == 0 {
        false
    } else if models[0].id == id {
        models[0].gated
    } else {
        gated_in(models.drop_first(), id)
    }
}

/// Whether downloading this model needs a Hugging Face token, by the catalog.
pub fn model_requires_hf_token(catalog: &ModelCatalog, model_id: &str) -> (r: bool)
    ensures
        r == gated_in(crate::model_catalog::entry_views(catalog.models@), model_id@),
{
    let ghost ms = crate::model_catalog::entry_views(catalog.models@);
    let mut i: usize = 0;
    assert(ms.skip(0) =~= ms);
    while i < catalog.models.len()
        invariant
            i <= catalog.models.len(),
            ms == crate::model_catalog::entry_views(catalog.models@),
            gated_in(ms, model_id@) == gated_in(ms.skip(i as int), model_id@),
        decreases catalog.models.len() - i,
    {
        let m = &catalog.models[i];
        assert(ms.skip(i as int)[0] == m@);
        assert(ms.skip(i as int).drop_first() =~= ms.skip(i + 1));
        if str_eq(m.id.as_str(), model_id) {
            return m.gated;
        }
        i = i + 1;
    }
    assert(ms.skip(i as int).len() == 0);
    false
}

// ---------------------------------------------------------------------------
// What is shown before the launch
// ---------------------------------------------------------------------------

/// The command line with each non-empty secret replaced, bare and quoted.
pub open spec fn redacted(command: Seq<char>, secrets: Seq<Seq<char>>) -> Seq<char>
    decreases secrets.len(),
{
    if secrets.len() == 0 {
        command
    } else {
        let s = secrets[0];
        let next = if s.len() == 0 {
            command
        } else {
            replace_all(replace_all(command, s, "[REDACTED]"@), shell_quoted(s), "'[REDACTED]'"@)
        };
        redacted(next, secrets.drop_first())
    }
}

/// Hides secrets in a command line before it is shown.
pub fn redact_command(command: &str, secrets: &[&str]) -> (r: String)
    ensures
        r@ == redacted(command@, str_views(secrets@)),
{
    let ghost sv = str_views(secrets@);
    let mut output = command.to_owned();
    let mut i: usize = 0;
    assert(sv.skip(0) =~= sv);
    while i < secrets.len()
        invariant
            i <= secrets.len(),
            sv == str_views(secrets@),
            redacted(output@, sv.skip(i as int)) == redacted(command@, sv),
        decreases secrets.len() - i,
    {
        let secret = secrets[i];
        assert(sv.skip(i as int)[0] == secret@);
        assert(sv.skip(i as int).drop_first() =~= sv.skip(i + 1));
        if !secret.is_empty() {
            let quoted = shell_quote(secret);
            proof {
                reveal_strlit("''");
            }
            assert(quoted@.len() > 0);
            let once = replace_str(output.as_str(), secret, "[REDACTED]");
            output = replace_str(once.as_str(), quoted.as_str(), "'[REDACTED]'");
        }
        i = i + 1;
    }
    assert(sv.skip(i as int) =~= Seq::<Seq<char>>::empty());
    output
}


/// A command as one shell line, each word quoted when needed.
pub open spec fn shell_line(program: Seq<char>, args: Seq<Seq<char>>) -> Seq<char> {
    join(seq![shell_quoted(program)] + args.map_values(|a: Seq<char>| shell_quoted(a)), " "@)
}

/// The Docker command line for a backend and serve configuration, with
/// the API key and Hugging Face token hidden.
pub open spec fn shown_command(b: ServingBackend, sc: ServeConfig) -> Seq<char> {
    redacted(
        shell_line("docker"@, b.spec_docker_args(sc)),
        seq![
            sc.api_key@,
            match opt_view(sc.hf_token) {
                Some(t) => t,
                None => Seq::empty(),
            },
        ],
    )
}

/// The first lines shown: backend, security profile, model and revision.
pub open spec fn launch_header(display: Seq<char>, sc: ServeConfig) -> Seq<Seq<char>> {
    seq!["Launching backend: "@ + display, "Security profile: "@ + sc.security_profile@, "Model: "@ + sc.model_id@]
        + match opt_view(sc.model_revision) {
        Some(r) => seq!["Model revision: "@ + r],
        None => Seq::empty(),
    }
}

/// The lines after the header: warnings and notes, then the command.
pub open spec fn launch_tail(b: ServingBackend, sc: ServeConfig, available: bool, reason: Seq<char>, gated: bool) -> Seq<Seq<char>> {
    (if gated && sc.hf_token is None {
        seq!["Warning: model `"@ + sc.model_id@ + "` is gated on Hugging Face and requires HF_TOKEN for downloads."@]
    } else {
        Seq::empty()
    }) + (if sc.hf_token is Some {
        seq!["Security note: prefer short-lived HF_TOKEN values with minimum required scope."@]
    } else {
        Seq::empty()
    }) + (if !available {
        seq!["Warning: "@ + reason]
    } else {
        Seq::empty()
    }) + seq!["Docker command:"@, "  "@ + shown_command(b, sc)]
}

/// What `gaia serve` shows before launching, and whether it must stop:
/// an unavailable backend stops it unless forced or a dry run; a gated
/// model without a token stops it under `prod`, after the header.
pub fn launch_preview(
    backend: &ServingBackend,
    serve_config: &ServeConfig,
    availability: &BackendAvailability,
    gated: bool,
    prod_profile: bool,
    force: bool,
    dry_run: bool,
) -> (r: (Vec<String>, Option<ServeError>))
    ensures
        if !availability.available && !force && !dry_run {
            &&& r.0@.len() == 0
            &&& r.1 matches Some(ServeError::BackendUnavailable(n, m))
            &&& n@ == backend.spec_display_name()
            &&& m@ == availability.reason@
        } else if gated && serve_config.hf_token is None && prod_profile {
            &&& crate::text::views(r.0@) == launch_header(backend.spec_display_name(), *serve_config)
            &&& r.1 matches Some(ServeError::GatedModelNeedsToken(m))
            &&& m@ == serve_config.model_id@
        } else {
            &&& crate::text::views(r.0@) == launch_header(backend.spec_display_name(), *serve_config) + launch_tail(
                *backend,
                *serve_config,
                availability.available,
                availability.reason@,
                gated,
            )
            &&& r.1 is None
        },
{
    let display = backend.display_name();
    if !availability.available && !force && !dry_run {
        return (Vec::new(), Some(ServeError::BackendUnavailable(display.to_owned(), availability.reason.clone())));
    }
    let mut lines: Vec<String> = Vec::new();
    let ghost d = backend.spec_display_name();
    lines.push(line_of("Launching backend: ", display));
    lines.push(line_of("Security profile: ", serve_config.security_profile.as_str()));
    lines.push(line_of("Model: ", serve_config.model_id.as_str()));
    if let Some(revision) = &serve_config.model_revision {
        lines.push(line_of("Model revision: ", revision.as_str()));
    }
    let ghost header = crate::text::views(lines@);
    assert(header =~= launch_header(d, *serve_config));
    if gated && serve_config.hf_token.is_none() {
        if prod_profile {
            return (lines, Some(ServeError::GatedModelNeedsToken(serve_config.model_id.clone())));
        }
        let mut w = line_of("Warning: model `", serve_config.model_id.as_str());
        push_str(&mut w, "` is gated on Hugging Face and requires HF_TOKEN for downloads.");
        lines.push(w);
    }
    let ghost after_gated = crate::text::views(lines@);
    if serve_config.hf_token.is_some() {
        lines.push("Security note: prefer short-lived HF_TOKEN values with minimum required scope.".to_owned());
    }
    let ghost after_token = crate::text::views(lines@);
    if !availability.available {
        lines.push(line_of("Warning: ", availability.reason.as_str()));
    }
    let ghost after_avail = crate::text::views(lines@);
    lines.push("Docker command:".to_owned());
    let command = backend.build_docker_command(serve_config);
    let shell = command.to_shell_string();
    let token: &str = match &serve_config.hf_token {
        Some(t) => t.as_str(),
        None => "",
    };
    let secrets: [&str; 2] = [serve_config.api_key.as_str(), token];
    proof {
        reveal_strlit("");
        assert(token@ == match opt_view(serve_config.hf_token) { Some(t) => t, None => Seq::<char>::empty() });
        assert(secrets@[0]@ == serve_config.api_key@);
        assert(secrets@[1]@ == token@);
        assert(str_views(secrets@) =~= seq![serve_config.api_key@, match opt_view(serve_config.hf_token) { Some(t) => t, None => Seq::<char>::empty() }]);
        assert(shell@ =~= shell_line("docker"@, backend.spec_docker_args(*serve_config)));
    }
    let shown = redact_command(shell.as_str(), secrets.as_slice());
    lines.push(line_of("  ", shown.as_str()));
    proof {
        let tail = launch_tail(*backend, *serve_config, availability.available, availability.reason@, gated);
        assert(crate::text::views(lines@) =~= header + tail);
    }
    (lines, None)
}

fn line_of(prefix: &str, rest: &str) -> (r: String)
    ensures
        r@ == prefix@ + rest@,
{
    let mut l = prefix.to_owned();
    push_str(&mut l, rest);
    l
}

} // verus!
