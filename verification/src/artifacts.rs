//! Deployment files Gaia writes: a Docker Compose file, a Kubernetes
//! manifest and a systemd unit. Each is built as text here; the caller
//! writes it to disk.

use vstd::prelude::*;

use crate::backend::{backend_for_name, backend_from_name, backend_image, ServingBackend};
use crate::config::{
    is_prod_security_profile, normalize_model_revision, normalize_security_profile, opt_view,
    spec_normalize_model_revision, spec_normalize_security_profile, AppConfig, AppConfigView,
    ConfigError,
};
use crate::serve::env_given;
use crate::text::{
    ascii_lower, contains_seq, decimal, is_ascii_alnum, matches_at, push_str, replace_all, replace_str, str_eq,
    to_ascii_lowercase, trim, trim_str, u64_to_string, views,
};

verus! {

#[derive(Debug, Clone)]
pub struct GenerateComposeArgs {
    pub backend: Option<String>,
    pub model: Option<String>,
    pub model_revision: Option<String>,
    pub output: Option<String>,
    pub security_profile: Option<String>,
}

#[derive(Debug, Clone)]
pub struct GenerateK8sArgs {
    pub backend: Option<String>,
    pub model: Option<String>,
    pub model_revision: Option<String>,
    pub namespace: Option<String>,
    pub replicas: u16,
    pub output: Option<String>,
}

#[derive(Debug, Clone)]
pub struct GenerateSystemdArgs {
    pub backend: Option<String>,
    pub model: Option<String>,
    pub model_revision: Option<String>,
    pub user: Option<String>,
    pub output: Option<String>,
    pub mock: bool,
}

/// Why a file could not be generated.
#[derive(Debug, Clone)]
pub enum ArtifactError {
    Config(ConfigError),
    UnsupportedComposeBackend(String),
    UnsupportedK8sBackend(String),
}

impl ArtifactError {
    pub fn message(&self) -> (r: String)
        ensures
            r@ == match self {
                ArtifactError::Config(e) => match e {
                    ConfigError::InvalidModelRevision(v) =>
                        "Model revision must be an immutable 40-character commit SHA. Received `"@ + v@ + "`."@,
                    ConfigError::UnsupportedSecurityProfile(v) =>
                        "Unsupported security profile `"@ + v@ + "`. Use `dev` or `prod`."@,
                },
                ArtifactError::UnsupportedComposeBackend(b) => "Unsupported backend `"@ + b@ + "` for compose generation"@,
                ArtifactError::UnsupportedK8sBackend(b) => "Unsupported backend `"@ + b@ + "` for Kubernetes generation"@,
            },
    {
        match self {
            ArtifactError::Config(e) => e.message(),
            ArtifactError::UnsupportedComposeBackend(b) => {
                let mut r = "Unsupported backend `".to_owned();
                push_str(&mut r, b.as_str());
                push_str(&mut r, "` for compose generation");
                r
            },
            ArtifactError::UnsupportedK8sBackend(b) => {
                let mut r = "Unsupported backend `".to_owned();
                push_str(&mut r, b.as_str());
                push_str(&mut r, "` for Kubernetes generation");
                r
            },
        }
    }
}

/// The revision to use: the one given, else the configured one, normalized.
pub open spec fn chosen_revision(given: Option<String>, c: AppConfigView) -> Result<Option<Seq<char>>, Seq<char>> {
    spec_normalize_model_revision(
        match given {
            Some(r) => Some(r@),
            None => c.revision,
        },
    )
}

/// Applies `--backend`, `--model` and the revision, as every generator does.
fn apply_target(config: &mut AppConfig, backend: &Option<String>, model: &Option<String>, revision: &Option<String>) -> (r: Result<(), ConfigError>)
    ensures
        match chosen_revision(*revision, old(config)@) {
            Ok(v) => r is Ok && final(config)@ == (AppConfigView {
                backend_name: match backend { Some(b) => b@, None => old(config)@.backend_name },
                model_id: match model { Some(m) => m@, None => old(config)@.model_id },
                revision: v,
                ..old(config)@
            }),
            Err(v) => r matches Err(ConfigError::InvalidModelRevision(e)) && e@ == v && final(config)@ == (AppConfigView {
                backend_name: match backend { Some(b) => b@, None => old(config)@.backend_name },
                model_id: match model { Some(m) => m@, None => old(config)@.model_id },
                ..old(config)@
            }),
        },
{
    if let Some(b) = backend {
        config.backend.name = b.clone();
    }
    if let Some(m) = model {
        config.model.id = m.clone();
    }
    let normalized = match revision {
        Some(r) => normalize_model_revision(Some(r.as_str())),
        None => match &config.model.revision {
            Some(r) => normalize_model_revision(Some(r.as_str())),
            None => normalize_model_revision(None),
        },
    };
    match normalized {
        Ok(v) => {
            config.model.revision = v;
            Ok(())
        },
        Err(e) => Err(e),
    }
}

/// `.` replaced by `-`, as in generated names.
pub open spec fn dashed(s: Seq<char>) -> Seq<char> {
    replace_all(s, "."@, "-"@)
}

fn dashed_str(s: &str) -> (r: String)
    ensures
        r@ == dashed(s@),
{
    proof {
        reveal_strlit(".");
    }
    replace_str(s, ".", "-")
}

// ---------------------------------------------------------------------------
// Docker Compose
// ---------------------------------------------------------------------------

/// Under `prod` the compose file keeps no fallback API key.
pub open spec fn prod_compose(service: Seq<char>, prod_profile: bool) -> Seq<char> {
    if prod_profile {
        replace_all(service, "${GAIA_API_KEY:-local-key}"@, "${GAIA_API_KEY}"@)
    } else {
        service
    }
}

/// Under `prod` the compose file holds no `${GAIA_API_KEY:-local-key}`
/// fallback, whatever the backend's service text.
pub proof fn lemma_prod_compose_has_no_fallback(service: Seq<char>)
    ensures
        !crate::text::contains_seq(prod_compose(service, true), "${GAIA_API_KEY:-local-key}"@),
{
    reveal_strlit("${GAIA_API_KEY:-local-key}");
    reveal_strlit("${GAIA_API_KEY}");
    let pat = "${GAIA_API_KEY:-local-key}"@;
    let rep = "${GAIA_API_KEY}"@;
    assert(rep[14] != pat.take(rep.len() as int)[14]);
    crate::text::lemma_replace_removes_all(service, pat, rep);
}

pub fn maybe_enforce_prod_compose(service: String, prod_profile: bool) -> (r: String)
    ensures
        r@ == prod_compose(service@, prod_profile),
{
    if !prod_profile {
        return service;
    }
    proof {
        reveal_strlit("${GAIA_API_KEY:-local-key}");
    }
    replace_str(service.as_str(), "${GAIA_API_KEY:-local-key}", "${GAIA_API_KEY}")
}


/// `sc` is the serve configuration of configuration `c`, given the
/// environment's Hugging Face token and cache directory.
pub open spec fn serves(sc: crate::config::ServeConfig, c: AppConfigView, hf_token: Option<Seq<char>>, cache_dir: Seq<char>) -> bool {
    &&& sc.backend@ == c.backend_name
    &&& sc.model_id@ == c.model_id
    &&& opt_view(sc.model_revision) == c.revision
    &&& sc.security_profile@ == c.security_profile
    &&& sc.host@ == c.host
    &&& sc.port == c.port
    &&& sc.api_key@ == c.api_key
    &&& sc.dtype@ == c.dtype
    &&& sc.quantization@ == c.quantization
    &&& sc.quantization_profile@ == c.quantization_profile
    &&& sc.max_model_len == c.max_model_len
    &&& opt_view(sc.hf_token) == hf_token
    &&& sc.huggingface_cache_dir@ == cache_dir
    &&& !sc.detach
    &&& sc.container_name@ == crate::config::container_name(c.backend_name, c.model_id)
}

/// The configuration after `--backend` and `--model`.
pub open spec fn with_target(c: AppConfigView, backend: Option<String>, model: Option<String>) -> AppConfigView {
    AppConfigView {
        backend_name: match backend { Some(b) => b@, None => c.backend_name },
        model_id: match model { Some(m) => m@, None => c.model_id },
        ..c
    }
}

/// The compose file's security profile before normalization: the one
/// given (normalized), replaced by the environment's when that is set.
pub open spec fn compose_raw_profile(c: AppConfigView, a: GenerateComposeArgs, env_profile: Option<String>) -> Seq<char> {
    if env_given(env_profile) {
        env_profile->0@
    } else {
        match a.security_profile {
            Some(p) => match spec_normalize_security_profile(Some(p@)) {
                Ok(v) => v,
                Err(_) => c.security_profile,
            },
            None => c.security_profile,
        }
    }
}

/// Builds the compose file, `Ok((text, prod))`. Stops on a rejected
/// security profile (given, then in force), a rejected revision, or a
/// backend it does not know.
pub fn plan_compose(
    config: AppConfig,
    args: &GenerateComposeArgs,
    env_profile: Option<String>,
    hf_token: Option<String>,
    cache_dir: String,
) -> (r: Result<(String, bool), ArtifactError>)
    ensures
        ({
            let c1 = with_target(config@, args.backend, args.model);
            let raw = compose_raw_profile(c1, *args, env_profile);
            if args.security_profile is Some && spec_normalize_security_profile(opt_view(args.security_profile)) is Err {
                r matches Err(ArtifactError::Config(ConfigError::UnsupportedSecurityProfile(v)))
                    && spec_normalize_security_profile(opt_view(args.security_profile)) == Err::<Seq<char>, Seq<char>>(v@)
            } else {
                match spec_normalize_security_profile(Some(raw)) {
                    Err(e) => r matches Err(ArtifactError::Config(ConfigError::UnsupportedSecurityProfile(v))) && v@ == e,
                    Ok(profile) => {
                        let c2 = AppConfigView { security_profile: profile, ..c1 };
                        match chosen_revision(args.model_revision, c2) {
                            Err(e) => r matches Err(ArtifactError::Config(ConfigError::InvalidModelRevision(v))) && v@ == e,
                            Ok(rev) => {
                                let c3 = AppConfigView { revision: rev, ..c2 };
                                let prod = ascii_lower(profile) == "prod"@;
                                match backend_for_name(ascii_lower(c3.backend_name)) {
                                    None => r matches Err(ArtifactError::UnsupportedComposeBackend(v)) && v@ == c3.backend_name,
                                    Some(b) => r matches Ok(out) && out.1 == prod && exists|sc: crate::config::ServeConfig|
                                        #[trigger] serves(sc, c3, opt_view(hf_token), cache_dir@)
                                            && out.0@ == "services:\n"@ + prod_compose(b.spec_compose_service(sc), prod),
                                }
                            },
                        }
                    },
                }
            }
        }),
{
    let mut config = config;
    if let Some(b) = &args.backend {
        config.backend.name = b.clone();
    }
    if let Some(m) = &args.model {
        config.model.id = m.clone();
    }
    if let Some(profile) = &args.security_profile {
        match normalize_security_profile(Some(profile.as_str())) {
            Ok(v) => {
                config.security.profile = v;
            },
            Err(e) => {
                return Err(ArtifactError::Config(e));
            },
        }
    }
    if let Some(profile) = env_profile {
        if !trim_str(profile.as_str()).as_str().is_empty() {
            config.security.profile = profile;
        }
    }
    match normalize_security_profile(Some(config.security.profile.as_str())) {
        Ok(v) => {
            config.security.profile = v;
        },
        Err(e) => {
            return Err(ArtifactError::Config(e));
        },
    }
    let prod_profile = is_prod_security_profile(config.security.profile.as_str());
    let normalized = match &args.model_revision {
        Some(r) => normalize_model_revision(Some(r.as_str())),
        None => match &config.model.revision {
            Some(r) => normalize_model_revision(Some(r.as_str())),
            None => normalize_model_revision(None),
        },
    };
    match normalized {
        Ok(v) => {
            config.model.revision = v;
        },
        Err(e) => {
            return Err(ArtifactError::Config(e));
        },
    }
    let serve_config = config.to_serve_config(hf_token, cache_dir);
    let backend = match backend_from_name(serve_config.backend.as_str()) {
        Some(b) => b,
        None => {
            return Err(ArtifactError::UnsupportedComposeBackend(serve_config.backend.clone()));
        },
    };
    let service = maybe_enforce_prod_compose(backend.build_compose_service(&serve_config), prod_profile);
    let mut compose = "services:\n".to_owned();
    push_str(&mut compose, service.as_str());
    proof {
        assert(serves(serve_config, config@, opt_view(hf_token), cache_dir@));
    }
    Ok((compose, prod_profile))
}


// ---------------------------------------------------------------------------
// Kubernetes
// ---------------------------------------------------------------------------

/// The pinned image and container port Kubernetes runs a backend with.
pub open spec fn k8s_image_port(backend: Seq<char>) -> Option<(Seq<char>, u16)> {
    if backend == "vllm"@ {
        Some(("vllm/vllm-openai@sha256:70a098d90dbab428a001d9e852fc0fc8d67da5beb03e7851a22247653bf35923"@, 8000))
    } else if backend == "tgi"@ {
        Some(("ghcr.io/huggingface/text-generation-inference@sha256:e6b0af6e0bf65337b84a19f15d74660c7892192f555fb0b68d3f3d62bf0c1e9a"@, 80))
    } else if backend == "sglang"@ {
        Some(("lmsysorg/sglang@sha256:061fb71f838e82000a1768c159654d526c2f17ebe751c21e7fc48ca53c8ef975"@, 30000))
    } else if backend == "llamacpp"@ || backend == "llama.cpp"@ {
        Some(("ghcr.io/ggml-org/llama.cpp@sha256:785bda5afb7430425e6b26006959b4d986ffcd08a006cc386af1f929016b74e2"@, 8080))
    } else if backend == "ollama"@ {
        Some(("ollama/ollama@sha256:7ffd891da3e9e278d042c856c0fbe1b10fa03ed1791471377dde331eae4ea834"@, 11434))
    } else if backend == "mock"@ {
        Some(("curlimages/curl@sha256:4026b29997dc7c823b51c164b71e2b51e0fd95cce4601f78202c513d97da2922"@, 8000))
    } else {
        None
    }
}

/// Every image Kubernetes runs is pinned by a `sha256` digest.
pub proof fn lemma_k8s_images_pinned(backend: Seq<char>)
    requires
        k8s_image_port(backend) is Some,
    ensures
        contains_seq((k8s_image_port(backend)->0).0, "@sha256:"@),
{
    reveal_strlit("@sha256:");
    if backend == "vllm"@ {
        reveal_strlit("vllm/vllm-openai@sha256:70a098d90dbab428a001d9e852fc0fc8d67da5beb03e7851a22247653bf35923");
        assert((k8s_image_port(backend)->0).0.subrange(16, 24) =~= "@sha256:"@);
        assert(matches_at((k8s_image_port(backend)->0).0, 16, "@sha256:"@));
    } else if backend == "tgi"@ {
        reveal_strlit("ghcr.io/huggingface/text-generation-inference@sha256:e6b0af6e0bf65337b84a19f15d74660c7892192f555fb0b68d3f3d62bf0c1e9a");
        assert((k8s_image_port(backend)->0).0.subrange(45, 53) =~= "@sha256:"@);
        assert(matches_at((k8s_image_port(backend)->0).0, 45, "@sha256:"@));
    } else if backend == "sglang"@ {
        reveal_strlit("lmsysorg/sglang@sha256:061fb71f838e82000a1768c159654d526c2f17ebe751c21e7fc48ca53c8ef975");
        assert((k8s_image_port(backend)->0).0.subrange(15, 23) =~= "@sha256:"@);
        assert(matches_at((k8s_image_port(backend)->0).0, 15, "@sha256:"@));
    } else if backend == "llamacpp"@ || backend == "llama.cpp"@ {
        reveal_strlit("ghcr.io/ggml-org/llama.cpp@sha256:785bda5afb7430425e6b26006959b4d986ffcd08a006cc386af1f929016b74e2");
        assert((k8s_image_port(backend)->0).0.subrange(26, 34) =~= "@sha256:"@);
        assert(matches_at((k8s_image_port(backend)->0).0, 26, "@sha256:"@));
    } else if backend == "ollama"@ {
        reveal_strlit("ollama/ollama@sha256:7ffd891da3e9e278d042c856c0fbe1b10fa03ed1791471377dde331eae4ea834");
        assert((k8s_image_port(backend)->0).0.subrange(13, 21) =~= "@sha256:"@);
        assert(matches_at((k8s_image_port(backend)->0).0, 13, "@sha256:"@));
    } else if backend == "mock"@ {
        reveal_strlit("curlimages/curl@sha256:4026b29997dc7c823b51c164b71e2b51e0fd95cce4601f78202c513d97da2922");
        assert((k8s_image_port(backend)->0).0.subrange(15, 23) =~= "@sha256:"@);
        assert(matches_at((k8s_image_port(backend)->0).0, 15, "@sha256:"@));
    }
}

/// Kubernetes runs each backend on the same pinned image as its `docker`
/// command.
pub proof fn lemma_k8s_uses_backend_images(b: ServingBackend)
    ensures
        k8s_image_port(b.spec_name()) matches Some(ip) && ip.0 == backend_image(b),
{
    reveal_strlit("vllm");
    reveal_strlit("tgi");
    reveal_strlit("sglang");
    reveal_strlit("llamacpp");
    reveal_strlit("llama.cpp");
    reveal_strlit("ollama");
    reveal_strlit("mock");
    assert("vllm"@[0] == 'v' && "tgi"@[0] == 't' && "sglang"@[0] == 's' && "llamacpp"@[0] == 'l');
    assert("ollama"@[0] == 'o' && "llama.cpp"@[0] == 'l' && "mock"@[0] == 'm');
    match b {
        ServingBackend::Vllm(_) => {},
        ServingBackend::Tgi(_) => {
            assert("tgi"@ != "vllm"@);
        },
        ServingBackend::Sglang(_) => {
            assert("sglang"@ != "vllm"@ && "sglang"@ != "tgi"@);
        },
        ServingBackend::LlamaCpp(_) => {
            assert("llamacpp"@ != "vllm"@ && "llamacpp"@ != "tgi"@ && "llamacpp"@ != "sglang"@);
        },
        ServingBackend::Ollama(_) => {
            assert("ollama"@ != "vllm"@ && "ollama"@ != "tgi"@ && "ollama"@ != "sglang"@);
            assert("ollama"@ != "llamacpp"@ && "ollama"@ != "llama.cpp"@);
        },
    }
}

/// The container arguments, before any revision.
pub open spec fn k8s_base_args(backend: Seq<char>, model_id: Seq<char>) -> Seq<Seq<char>> {
    if backend == "vllm"@ {
        seq!["--model"@, model_id, "--host"@, "0.0.0.0"@, "--port"@, "8000"@, "--dtype"@, "auto"@, "--api-key"@, "$(GAIA_API_KEY)"@]
    } else if backend == "tgi"@ {
        seq!["--model-id"@, model_id]
    } else if backend == "sglang"@ {
        seq!["python3"@, "-m"@, "sglang.launch_server"@, "--model-path"@, model_id, "--host"@, "0.0.0.0"@, "--port"@, "30000"@, "--api-key"@, "$(GAIA_API_KEY)"@]
    } else if backend == "llamacpp"@ || backend == "llama.cpp"@ {
        seq!["-m"@, model_id, "--host"@, "0.0.0.0"@, "--port"@, "8080"@, "--api-key"@, "$(GAIA_API_KEY)"@]
    } else {
        Seq::empty()
    }
}

/// The container arguments: vLLM, TGI and SGLang also pin a non-blank revision.
pub open spec fn k8s_args(backend: Seq<char>, model_id: Seq<char>, revision: Option<Seq<char>>) -> Seq<Seq<char>> {
    k8s_base_args(backend, model_id) + match revision {
        Some(r) => if trim(r).len() > 0 && (backend == "vllm"@ || backend == "tgi"@ || backend == "sglang"@) {
            seq!["--revision"@, trim(r)]
        } else {
            Seq::empty()
        },
        None => Seq::empty(),
    }
}

/// One YAML list item, double-quoted.
/// vLLM, TGI and SGLang Deployments are pinned to a given revision: their
/// arguments end with `--revision` and the trimmed revision. The other
/// backends, and a blank revision, add nothing.
pub proof fn lemma_k8s_revision_pinned(backend: Seq<char>, model_id: Seq<char>, rev: Seq<char>)
    ensures
        (backend == "vllm"@ || backend == "tgi"@ || backend == "sglang"@) && trim(rev).len() > 0 ==> {
            let args = k8s_args(backend, model_id, Some(rev));
            &&& args.len() >= 2
            &&& args[args.len() - 2] == "--revision"@
            &&& args[args.len() - 1] == trim(rev)
            &&& args.drop_last().drop_last() == k8s_args(backend, model_id, None)
        },
        !(backend == "vllm"@ || backend == "tgi"@ || backend == "sglang"@) || trim(rev).len() == 0
            ==> k8s_args(backend, model_id, Some(rev)) == k8s_args(backend, model_id, None),
{
    let with = k8s_args(backend, model_id, Some(rev));
    let base = k8s_args(backend, model_id, None);
    assert(base =~= k8s_base_args(backend, model_id));
    if (backend == "vllm"@ || backend == "tgi"@ || backend == "sglang"@) && trim(rev).len() > 0 {
        assert(with.drop_last().drop_last() =~= base);
    } else {
        assert(with =~= base);
    }
}

pub open spec fn yaml_item(item: Seq<char>) -> Seq<char> {
    "            - \""@ + replace_all(item, "\""@, "\\\""@) + "\"\n"@
}

pub open spec fn yaml_items(args: Seq<Seq<char>>) -> Seq<char>
    decreases args.len(),
{
    if args.len() == 0 {
        Seq::empty()
    } else {
        yaml_items(args.drop_last()) + yaml_item(args.last())
    }
}

/// The `args:` list of the manifest; `[]` when there are none.
pub open spec fn yaml_args(args: Seq<Seq<char>>) -> Seq<char> {
    if args.len() == 0 {
        "            []\n"@
    } else {
        yaml_items(args)
    }
}

/// The image, port and YAML argument list for a (lowercased) backend.
pub fn deployment_spec(backend: &str, model_id: &str, model_revision: Option<&str>) -> (r: Result<(&'static str, u16, String), ArtifactError>)
    ensures
        match k8s_image_port(backend@) {
            Some((image, port)) => r matches Ok(t) && t.0@ == image && t.1 == port
                && t.2@ == yaml_args(k8s_args(backend@, model_id@, match model_revision { Some(v) => Some(v@), None => None })),
            None => r matches Err(ArtifactError::UnsupportedK8sBackend(b)) && b@ == backend@,
        },
{
    proof {
        reveal_strlit("vllm");
        reveal_strlit("tgi");
        reveal_strlit("sglang");
        reveal_strlit("llamacpp");
        reveal_strlit("llama.cpp");
        reveal_strlit("ollama");
        reveal_strlit("mock");
    }
    let (image, port, mut args): (&'static str, u16, Vec<String>) = if str_eq(backend, "vllm") {
        ("vllm/vllm-openai@sha256:70a098d90dbab428a001d9e852fc0fc8d67da5beb03e7851a22247653bf35923", 8000, {
            let mut a: Vec<String> = Vec::new();
            a.push("--model".to_owned());
            a.push(model_id.to_owned());
            a.push("--host".to_owned());
            a.push("0.0.0.0".to_owned());
            a.push("--port".to_owned());
            a.push("8000".to_owned());
            a.push("--dtype".to_owned());
            a.push("auto".to_owned());
            a.push("--api-key".to_owned());
            a.push("$(GAIA_API_KEY)".to_owned());
            a
        })
    } else if str_eq(backend, "tgi") {
        ("ghcr.io/huggingface/text-generation-inference@sha256:e6b0af6e0bf65337b84a19f15d74660c7892192f555fb0b68d3f3d62bf0c1e9a", 80, {
            let mut a: Vec<String> = Vec::new();
            a.push("--model-id".to_owned());
            a.push(model_id.to_owned());
            a
        })
    } else if str_eq(backend, "sglang") {
        ("lmsysorg/sglang@sha256:061fb71f838e82000a1768c159654d526c2f17ebe751c21e7fc48ca53c8ef975", 30000, {
            let mut a: Vec<String> = Vec::new();
            a.push("python3".to_owned());
            a.push("-m".to_owned());
            a.push("sglang.launch_server".to_owned());
            a.push("--model-path".to_owned());
            a.push(model_id.to_owned());
            a.push("--host".to_owned());
            a.push("0.0.0.0".to_owned());
            a.push("--port".to_owned());
            a.push("30000".to_owned());
            a.push("--api-key".to_owned());
            a.push("$(GAIA_API_KEY)".to_owned());
            a
        })
    } else if str_eq(backend, "llamacpp") || str_eq(backend, "llama.cpp") {
        ("ghcr.io/ggml-org/llama.cpp@sha256:785bda5afb7430425e6b26006959b4d986ffcd08a006cc386af1f929016b74e2", 8080, {
            let mut a: Vec<String> = Vec::new();
            a.push("-m".to_owned());
            a.push(model_id.to_owned());
            a.push("--host".to_owned());
            a.push("0.0.0.0".to_owned());
            a.push("--port".to_owned());
            a.push("8080".to_owned());
            a.push("--api-key".to_owned());
            a.push("$(GAIA_API_KEY)".to_owned());
            a
        })
    } else if str_eq(backend, "ollama") {
        ("ollama/ollama@sha256:7ffd891da3e9e278d042c856c0fbe1b10fa03ed1791471377dde331eae4ea834", 11434, Vec::new())
    } else if str_eq(backend, "mock") {
        ("curlimages/curl@sha256:4026b29997dc7c823b51c164b71e2b51e0fd95cce4601f78202c513d97da2922", 8000, Vec::new())
    } else {
        return Err(ArtifactError::UnsupportedK8sBackend(backend.to_owned()));
    };
    let ghost base = views(args@);
    assert(base =~= k8s_base_args(backend@, model_id@));
    if let Some(revision) = model_revision {
        let trimmed = trim_str(revision);
        if !trimmed.as_str().is_empty() && (str_eq(backend, "vllm") || str_eq(backend, "tgi") || str_eq(backend, "sglang")) {
            args.push("--revision".to_owned());
            args.push(trimmed);
        }
    }
    let ghost all = views(args@);
    assert(all =~= k8s_args(backend@, model_id@, match model_revision { Some(v) => Some(v@), None => None }));
    let mut yaml = String::new();
    let mut i: usize = 0;
    while i < args.len()
        invariant
            i <= args.len(),
            all == views(args@),
            yaml@ == yaml_items(all.take(i as int)),
        decreases args.len() - i,
    {
        proof {
            reveal_strlit("\"");
            assert(all.take(i + 1).drop_last() =~= all.take(i as int));
        }
        push_str(&mut yaml, "            - \"");
        let escaped = replace_str(args[i].as_str(), "\"", "\\\"");
        push_str(&mut yaml, escaped.as_str());
        push_str(&mut yaml, "\"\n");
        i = i + 1;
        assert(yaml@ =~= yaml_items(all.take(i as int)));
    }
    assert(all.take(args.len() as int) =~= all);
    if args.len() == 0 {
        push_str(&mut yaml, "            []\n");
    }
    Ok((image, port, yaml))
}


/// The Kubernetes manifest: a hardened Deployment and its ClusterIP Service.
pub open spec fn k8s_manifest(
    name: Seq<char>,
    namespace: Seq<char>,
    replicas: u16,
    image: Seq<char>,
    container_port: u16,
    args_yaml: Seq<char>,
    service_port: u16,
) -> Seq<char> {
    "apiVersion: apps/v1\nkind: Deployment\nmetadata:\n  name: "@ + name + "\n  namespace: "@ + namespace + "\nspec:\n  replicas: "@ + decimal(replicas as nat) + "\n  selector:\n    matchLabels:\n      app: "@ + name + "\n  template:\n    metadata:\n      labels:\n        app: "@ + name + "\n    spec:\n      containers:\n        - name: "@ + name + "\n          image: "@ + image + "\n          securityContext:\n            runAsNonRoot: true\n            runAsUser: 1000\n            runAsGroup: 1000\n            readOnlyRootFilesystem: true\n            allowPrivilegeEscalation: false\n            capabilities:\n              drop: [\"ALL\"]\n            seccompProfile:\n              type: RuntimeDefault\n          env:\n            - name: GAIA_API_KEY\n              valueFrom:\n                secretKeyRef:\n                  name: gaia-secrets\n                  key: api-key\n            - name: HF_TOKEN\n              valueFrom:\n                secretKeyRef:\n                  name: gaia-secrets\n                  key: hf-token\n                  optional: true\n          ports:\n            - containerPort: "@ + decimal(container_port as nat) + "\n          args:\n"@ + args_yaml + "\n---\napiVersion: v1\nkind: Service\nmetadata:\n  name: "@ + name + "\n  namespace: "@ + namespace + "\nspec:\n  selector:\n    app: "@ + name + "\n  ports:\n    - name: http\n      protocol: TCP\n      port: "@ + decimal(service_port as nat) + "\n      targetPort: "@ + decimal(container_port as nat) + "\n  type: ClusterIP\n"@
}

fn k8s_manifest_text(
    name: &str,
    namespace: &str,
    replicas: u16,
    image: &str,
    container_port: u16,
    args_yaml: &str,
    service_port: u16,
) -> (r: String)
    ensures
        r@ == k8s_manifest(name@, namespace@, replicas, image@, container_port, args_yaml@, service_port),
{
    let reps = u64_to_string(replicas as u64);
    let cport = u64_to_string(container_port as u64);
    let sport = u64_to_string(service_port as u64);
    let mut y = String::new();
    push_str(&mut y, "apiVersion: apps/v1\nkind: Deployment\nmetadata:\n  name: ");
    push_str(&mut y, name);
    push_str(&mut y, "\n  namespace: ");
    push_str(&mut y, namespace);
    push_str(&mut y, "\nspec:\n  replicas: ");
    push_str(&mut y, reps.as_str());
    push_str(&mut y, "\n  selector:\n    matchLabels:\n      app: ");
    push_str(&mut y, name);
    push_str(&mut y, "\n  template:\n    metadata:\n      labels:\n        app: ");
    push_str(&mut y, name);
    push_str(&mut y, "\n    spec:\n      containers:\n        - name: ");
    push_str(&mut y, name);
    push_str(&mut y, "\n          image: ");
    push_str(&mut y, image);
    push_str(&mut y, "\n          securityContext:\n            runAsNonRoot: true\n            runAsUser: 1000\n            runAsGroup: 1000\n            readOnlyRootFilesystem: true\n            allowPrivilegeEscalation: false\n            capabilities:\n              drop: [\"ALL\"]\n            seccompProfile:\n              type: RuntimeDefault\n          env:\n            - name: GAIA_API_KEY\n              valueFrom:\n                secretKeyRef:\n                  name: gaia-secrets\n                  key: api-key\n            - name: HF_TOKEN\n              valueFrom:\n                secretKeyRef:\n                  name: gaia-secrets\n                  key: hf-token\n                  optional: true\n          ports:\n            - containerPort: ");
    push_str(&mut y, cport.as_str());
    push_str(&mut y, "\n          args:\n");
    push_str(&mut y, args_yaml);
    push_str(&mut y, "\n---\napiVersion: v1\nkind: Service\nmetadata:\n  name: ");
    push_str(&mut y, name);
    push_str(&mut y, "\n  namespace: ");
    push_str(&mut y, namespace);
    push_str(&mut y, "\nspec:\n  selector:\n    app: ");
    push_str(&mut y, name);
    push_str(&mut y, "\n  ports:\n    - name: http\n      protocol: TCP\n      port: ");
    push_str(&mut y, sport.as_str());
    push_str(&mut y, "\n      targetPort: ");
    push_str(&mut y, cport.as_str());
    push_str(&mut y, "\n  type: ClusterIP\n");
    assert(y@ =~= k8s_manifest(name@, namespace@, replicas, image@, container_port, args_yaml@, service_port));
    y
}

/// The systemd unit that runs `gaia serve` for a backend and model.
pub open spec fn systemd_unit(
    backend: Seq<char>,
    model_id: Seq<char>,
    user: Seq<char>,
    revision_flag: Seq<char>,
    host: Seq<char>,
    port: u16,
    mock_flag: Seq<char>,
) -> Seq<char> {
    "[Unit]\nDescription=gaia "@ + backend + " "@ + model_id + "\nAfter=network-online.target docker.service\nWants=network-online.target\n\n[Service]\nType=simple\nUser="@ + user + "\nRestart=always\nRestartSec=3\nNoNewPrivileges=true\nPrivateTmp=true\nProtectControlGroups=true\nProtectKernelModules=true\nProtectKernelTunables=true\nEnvironmentFile=-/etc/gaia/gaia.env\nEnvironment=HF_TOKEN=${HF_TOKEN}\nExecStart=/usr/local/bin/gaia serve --backend "@ + backend + " --model "@ + model_id + revision_flag + " --host "@ + host + " --port "@ + decimal(port as nat) + mock_flag + "\n\n[Install]\nWantedBy=multi-user.target\n"@
}

fn systemd_unit_text(
    backend: &str,
    model_id: &str,
    user: &str,
    revision_flag: &str,
    host: &str,
    port: u16,
    mock_flag: &str,
) -> (r: String)
    ensures
        r@ == systemd_unit(backend@, model_id@, user@, revision_flag@, host@, port, mock_flag@),
{
    let port_s = u64_to_string(port as u64);
    let mut u = String::new();
    push_str(&mut u, "[Unit]\nDescription=gaia ");
    push_str(&mut u, backend);
    push_str(&mut u, " ");
    push_str(&mut u, model_id);
    push_str(&mut u, "\nAfter=network-online.target docker.service\nWants=network-online.target\n\n[Service]\nType=simple\nUser=");
    push_str(&mut u, user);
    push_str(&mut u, "\nRestart=always\nRestartSec=3\nNoNewPrivileges=true\nPrivateTmp=true\nProtectControlGroups=true\nProtectKernelModules=true\nProtectKernelTunables=true\nEnvironmentFile=-/etc/gaia/gaia.env\nEnvironment=HF_TOKEN=${HF_TOKEN}\nExecStart=/usr/local/bin/gaia serve --backend ");
    push_str(&mut u, backend);
    push_str(&mut u, " --model ");
    push_str(&mut u, model_id);
    push_str(&mut u, revision_flag);
    push_str(&mut u, " --host ");
    push_str(&mut u, host);
    push_str(&mut u, " --port ");
    push_str(&mut u, port_s.as_str());
    push_str(&mut u, mock_flag);
    push_str(&mut u, "\n\n[Install]\nWantedBy=multi-user.target\n");
    assert(u@ =~= systemd_unit(backend@, model_id@, user@, revision_flag@, host@, port, mock_flag@));
    u
}


/// Characters a systemd command line keeps unquoted.
pub open spec fn is_unit_plain(c: char) -> bool {
    is_ascii_alnum(c) || c == '-' || c == '_' || c == '.' || c == '/' || c == ':' || c == '@'
}

/// A value for a systemd command line: unchanged when every character is
/// plain (so also when empty), else single-quoted with `'` written `'\''`.
pub open spec fn unit_escaped(v: Seq<char>) -> Seq<char> {
    if forall|i: int| 0 <= i < v.len() ==> is_unit_plain(#[trigger] v[i]) {
        v
    } else {
        "'"@ + replace_all(v, "'"@, "'\\''"@) + "'"@
    }
}

pub fn shell_escape(value: &str) -> (r: String)
    ensures
        r@ == unit_escaped(value@),
{
    let v = crate::text::chars_of(value);
    let mut i: usize = 0;
    let mut plain = true;
    while i < v.len()
        invariant
            i <= v.len(),
            plain == forall|k: int| 0 <= k < i ==> is_unit_plain(#[trigger] v@[k]),
        decreases v.len() - i,
    {
        let c = v[i];
        let ok = crate::text::char_is_ascii_alnum(c) || c == '-' || c == '_' || c == '.' || c == '/' || c == ':' || c == '@';
        plain = plain && ok;
        i = i + 1;
    }
    if plain {
        return value.to_owned();
    }
    proof {
        reveal_strlit("'");
    }
    let mut r = "'".to_owned();
    let inner = replace_str(value, "'", "'\\''");
    push_str(&mut r, inner.as_str());
    push_str(&mut r, "'");
    r
}

/// What `gaia generate-k8s` writes, and where.
#[derive(Debug, Clone)]
pub struct K8sPlan {
    pub yaml: String,
    pub output: String,
    pub namespace: String,
}

/// Builds the Kubernetes manifest for the configuration and options.
pub fn plan_k8s(config: AppConfig, args: &GenerateK8sArgs) -> (r: Result<K8sPlan, ArtifactError>)
    ensures
        ({
            let c1 = with_target(config@, args.backend, args.model);
            match chosen_revision(args.model_revision, c1) {
                Err(e) => r matches Err(ArtifactError::Config(ConfigError::InvalidModelRevision(v))) && v@ == e,
                Ok(rev) => {
                    let backend = ascii_lower(c1.backend_name);
                    let name = "gaia-"@ + dashed(backend);
                    let namespace = match args.namespace { Some(n) => n@, None => "default"@ };
                    match k8s_image_port(backend) {
                        None => r matches Err(ArtifactError::UnsupportedK8sBackend(v)) && v@ == backend,
                        Some((image, port)) => r matches Ok(plan) && {
                            &&& plan.namespace@ == namespace
                            &&& plan.output@ == match args.output {
                                Some(o) => o@,
                                None => "k8s-"@ + dashed(backend) + ".yaml"@,
                            }
                            &&& plan.yaml@ == k8s_manifest(name, namespace, args.replicas, image, port,
                                yaml_args(k8s_args(backend, c1.model_id, rev)), c1.port)
                        },
                    }
                },
            }
        }),
{
    let mut config = config;
    if let Err(e) = apply_target(&mut config, &args.backend, &args.model, &args.model_revision) {
        return Err(ArtifactError::Config(e));
    }
    let backend = to_ascii_lowercase(config.backend.name.as_str());
    let namespace = match &args.namespace {
        Some(n) => n.clone(),
        None => "default".to_owned(),
    };
    let mut name = "gaia-".to_owned();
    let dashed_backend = dashed_str(backend.as_str());
    push_str(&mut name, dashed_backend.as_str());
    let revision: Option<&str> = match &config.model.revision {
        Some(r) => Some(r.as_str()),
        None => None,
    };
    let (image, port, args_yaml) = match deployment_spec(backend.as_str(), config.model.id.as_str(), revision) {
        Ok(t) => t,
        Err(e) => {
            return Err(e);
        },
    };
    let yaml = k8s_manifest_text(
        name.as_str(),
        namespace.as_str(),
        args.replicas,
        image,
        port,
        args_yaml.as_str(),
        config.server.port,
    );
    let output = match &args.output {
        Some(o) => o.clone(),
        None => {
            let mut o = "k8s-".to_owned();
            push_str(&mut o, dashed_backend.as_str());
            push_str(&mut o, ".yaml");
            o
        },
    };
    Ok(K8sPlan { yaml, output, namespace })
}

/// What `gaia generate-systemd` writes, and where.
#[derive(Debug, Clone)]
pub struct SystemdPlan {
    pub unit: String,
    pub output: String,
}

/// `gaia-<backend>.service`, dots in the backend name turned to dashes.
pub open spec fn service_name(backend: Seq<char>) -> Seq<char> {
    "gaia-"@ + dashed(backend) + ".service"@
}

/// Builds the systemd unit for the configuration and options.
pub fn plan_systemd(config: AppConfig, args: &GenerateSystemdArgs) -> (r: Result<SystemdPlan, ArtifactError>)
    ensures
        ({
            let c1 = with_target(config@, args.backend, args.model);
            match chosen_revision(args.model_revision, c1) {
                Err(e) => r matches Err(ArtifactError::Config(ConfigError::InvalidModelRevision(v))) && v@ == e,
                Ok(rev) => r matches Ok(plan) && {
                    &&& plan.output@ == match args.output {
                        Some(o) => o@,
                        None => service_name(c1.backend_name),
                    }
                    &&& plan.unit@ == systemd_unit(
                        c1.backend_name,
                        c1.model_id,
                        match args.user { Some(u) => u@, None => "gaia"@ },
                        match rev { Some(v) => " --model-revision "@ + unit_escaped(v), None => Seq::empty() },
                        c1.host,
                        c1.port,
                        if args.mock { " --mock"@ } else { Seq::empty() },
                    )
                },
            }
        }),
{
    let mut config = config;
    if let Err(e) = apply_target(&mut config, &args.backend, &args.model, &args.model_revision) {
        return Err(ArtifactError::Config(e));
    }
    let user = match &args.user {
        Some(u) => u.clone(),
        None => "gaia".to_owned(),
    };
    let mut name = "gaia-".to_owned();
    let dashed_backend = dashed_str(config.backend.name.as_str());
    push_str(&mut name, dashed_backend.as_str());
    push_str(&mut name, ".service");
    let output = match &args.output {
        Some(o) => o.clone(),
        None => name,
    };
    let revision_flag = match &config.model.revision {
        Some(rev) => {
            let mut f = " --model-revision ".to_owned();
            push_str(&mut f, shell_escape(rev.as_str()).as_str());
            f
        },
        None => String::new(),
    };
    let mock_flag: &str = if args.mock { " --mock" } else { "" };
    proof {
        reveal_strlit("");
    }
    let unit = systemd_unit_text(
        config.backend.name.as_str(),
        config.model.id.as_str(),
        user.as_str(),
        revision_flag.as_str(),
        config.server.host.as_str(),
        config.server.port,
        mock_flag,
    );
    Ok(SystemdPlan { unit, output })
}

} // verus!
