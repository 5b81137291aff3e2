//! Serving backends: availability on a machine, the Docker command that
//! launches each, its Docker Compose service and its API base URL.

pub mod common;
pub mod llamacpp;
pub mod ollama;
pub mod sglang;
pub mod tgi;
pub mod vllm;

use vstd::prelude::*;

use crate::backend::common::{base_run_args, hardening_args};
use crate::backend::llamacpp::{
    llamacpp_availability, llamacpp_compose_service, llamacpp_docker_args, llamacpp_docker_env,
    LlamaCppBackend,
};
use crate::backend::ollama::{
    ollama_availability, ollama_compose_service, ollama_docker_args, ollama_docker_env, OllamaBackend,
};
use crate::backend::sglang::{
    sglang_availability, sglang_compose_service, sglang_docker_args, sglang_docker_env, SglangBackend,
};
use crate::backend::tgi::{tgi_availability, tgi_compose_service, tgi_docker_args, tgi_docker_env, TgiBackend};
use crate::backend::vllm::{
    vllm_availability, vllm_compose_service, vllm_docker_args, vllm_docker_env, VllmBackend,
};
use crate::command_spec::CommandSpec;
use crate::config::{openai_base_url_of, ServeConfig};
use crate::machine::MachineSpecs;
use crate::text::{ascii_lower, ascii_lower_chars, chars_eq, chars_of, contains_seq, matches_at, views};

verus! {

#[derive(Debug, Clone)]
pub struct BackendAvailability {
    pub available: bool,
    pub reason: String,
    pub warnings: Vec<String>,
}

impl BackendAvailability {
    pub fn available(reason: &str) -> (r: Self)
        ensures
            r.available,
            r.reason@ == reason@,
            r.warnings@.len() == 0,
    {
        BackendAvailability { available: true, reason: reason.to_owned(), warnings: Vec::new() }
    }

    pub fn unavailable(reason: &str) -> (r: Self)
        ensures
            !r.available,
            r.reason@ == reason@,
            r.warnings@.len() == 0,
    {
        BackendAvailability { available: false, reason: reason.to_owned(), warnings: Vec::new() }
    }
}


/// One of the serving backends Gaia can launch.
#[derive(Debug, Clone, Copy)]
pub enum ServingBackend {
    Vllm(VllmBackend),
    Tgi(TgiBackend),
    Sglang(SglangBackend),
    LlamaCpp(LlamaCppBackend),
    Ollama(OllamaBackend),
}

/// The backend a (lowercased) name selects: the canonical names, and
/// `llama.cpp` for llama.cpp.
pub open spec fn backend_for_name(lower: Seq<char>) -> Option<ServingBackend> {
    if lower == "vllm"@ {
        Some(ServingBackend::Vllm(VllmBackend))
    } else if lower == "tgi"@ {
        Some(ServingBackend::Tgi(TgiBackend))
    } else if lower == "sglang"@ {
        Some(ServingBackend::Sglang(SglangBackend))
    } else if lower == "llamacpp"@ || lower == "llama.cpp"@ {
        Some(ServingBackend::LlamaCpp(LlamaCppBackend))
    } else if lower == "ollama"@ {
        Some(ServingBackend::Ollama(OllamaBackend))
    } else {
        None
    }
}

/// Looks a backend up by name, ignoring ASCII case.
pub fn backend_from_name(name: &str) -> (r: Option<ServingBackend>)
    ensures
        r == backend_for_name(ascii_lower(name@)),
{
    let lower = ascii_lower_chars(&chars_of(name));
    if chars_eq(&lower, &chars_of("vllm")) {
        Some(ServingBackend::Vllm(VllmBackend))
    } else if chars_eq(&lower, &chars_of("tgi")) {
        Some(ServingBackend::Tgi(TgiBackend))
    } else if chars_eq(&lower, &chars_of("sglang")) {
        Some(ServingBackend::Sglang(SglangBackend))
    } else if chars_eq(&lower, &chars_of("llamacpp")) || chars_eq(&lower, &chars_of("llama.cpp")) {
        Some(ServingBackend::LlamaCpp(LlamaCppBackend))
    } else if chars_eq(&lower, &chars_of("ollama")) {
        Some(ServingBackend::Ollama(OllamaBackend))
    } else {
        None
    }
}

/// Every backend, in the order Gaia presents them.
pub open spec fn every_backend() -> Seq<ServingBackend> {
    seq![
        ServingBackend::Vllm(VllmBackend),
        ServingBackend::Tgi(TgiBackend),
        ServingBackend::Sglang(SglangBackend),
        ServingBackend::LlamaCpp(LlamaCppBackend),
        ServingBackend::Ollama(OllamaBackend),
    ]
}

pub fn all_backends() -> (r: Vec<ServingBackend>)
    ensures
        r@ == every_backend(),
{
    let mut r: Vec<ServingBackend> = Vec::new();
    r.push(ServingBackend::Vllm(VllmBackend));
    r.push(ServingBackend::Tgi(TgiBackend));
    r.push(ServingBackend::Sglang(SglangBackend));
    r.push(ServingBackend::LlamaCpp(LlamaCppBackend));
    r.push(ServingBackend::Ollama(OllamaBackend));
    assert(r@ =~= every_backend());
    r
}

impl ServingBackend {
    pub open spec fn spec_name(self) -> Seq<char> {
        match self {
            ServingBackend::Vllm(_) => "vllm"@,
            ServingBackend::Tgi(_) => "tgi"@,
            ServingBackend::Sglang(_) => "sglang"@,
            ServingBackend::LlamaCpp(_) => "llamacpp"@,
            ServingBackend::Ollama(_) => "ollama"@,
        }
    }

    pub open spec fn spec_display_name(self) -> Seq<char> {
        match self {
            ServingBackend::Vllm(_) => "vLLM"@,
            ServingBackend::Tgi(_) => "Text Generation Inference"@,
            ServingBackend::Sglang(_) => "SGLang"@,
            ServingBackend::LlamaCpp(_) => "llama.cpp"@,
            ServingBackend::Ollama(_) => "Ollama"@,
        }
    }

    pub open spec fn spec_availability(self, m: MachineSpecs) -> (bool, Seq<char>) {
        match self {
            ServingBackend::Vllm(_) => vllm_availability(m),
            ServingBackend::Tgi(_) => tgi_availability(m),
            ServingBackend::Sglang(_) => sglang_availability(m),
            ServingBackend::LlamaCpp(_) => llamacpp_availability(m),
            ServingBackend::Ollama(_) => ollama_availability(m),
        }
    }

    pub open spec fn spec_docker_args(self, c: ServeConfig) -> Seq<Seq<char>> {
        match self {
            ServingBackend::Vllm(_) => vllm_docker_args(c),
            ServingBackend::Tgi(_) => tgi_docker_args(c),
            ServingBackend::Sglang(_) => sglang_docker_args(c),
            ServingBackend::LlamaCpp(_) => llamacpp_docker_args(c),
            ServingBackend::Ollama(_) => ollama_docker_args(c),
        }
    }

    pub open spec fn spec_docker_env(self, c: ServeConfig) -> Map<Seq<char>, Seq<char>> {
        match self {
            ServingBackend::Vllm(_) => vllm_docker_env(c),
            ServingBackend::Tgi(_) => tgi_docker_env(c),
            ServingBackend::Sglang(_) => sglang_docker_env(c),
            ServingBackend::LlamaCpp(_) => llamacpp_docker_env(c),
            ServingBackend::Ollama(_) => ollama_docker_env(c),
        }
    }

    pub open spec fn spec_compose_service(self, c: ServeConfig) -> Seq<char> {
        match self {
            ServingBackend::Vllm(_) => vllm_compose_service(c),
            ServingBackend::Tgi(_) => tgi_compose_service(c),
            ServingBackend::Sglang(_) => sglang_compose_service(c),
            ServingBackend::LlamaCpp(_) => llamacpp_compose_service(c),
            ServingBackend::Ollama(_) => ollama_compose_service(c),
        }
    }

    pub fn name(&self) -> (r: &'static str)
        ensures
            r@ == self.spec_name(),
    {
        match self {
            ServingBackend::Vllm(b) => b.name(),
            ServingBackend::Tgi(b) => b.name(),
            ServingBackend::Sglang(b) => b.name(),
            ServingBackend::LlamaCpp(b) => b.name(),
            ServingBackend::Ollama(b) => b.name(),
        }
    }

    pub fn display_name(&self) -> (r: &'static str)
        ensures
            r@ == self.spec_display_name(),
    {
        match self {
            ServingBackend::Vllm(b) => b.display_name(),
            ServingBackend::Tgi(b) => b.display_name(),
            ServingBackend::Sglang(b) => b.display_name(),
            ServingBackend::LlamaCpp(b) => b.display_name(),
            ServingBackend::Ollama(b) => b.display_name(),
        }
    }

    pub fn is_available(&self, machine: &MachineSpecs) -> (r: BackendAvailability)
        ensures
            (r.available, r.reason@) == self.spec_availability(*machine),
            r.warnings@.len() == 0,
    {
        match self {
            ServingBackend::Vllm(b) => b.is_available(machine),
            ServingBackend::Tgi(b) => b.is_available(machine),
            ServingBackend::Sglang(b) => b.is_available(machine),
            ServingBackend::LlamaCpp(b) => b.is_available(machine),
            ServingBackend::Ollama(b) => b.is_available(machine),
        }
    }

    pub fn build_docker_command(&self, config: &ServeConfig) -> (r: CommandSpec)
        ensures
            r.program@ == "docker"@,
            views(r.args@) == self.spec_docker_args(*config),
            r.env_view() == self.spec_docker_env(*config),
            r.working_dir is None,
            r.well_formed(),
    {
        match self {
            ServingBackend::Vllm(b) => b.build_docker_command(config),
            ServingBackend::Tgi(b) => b.build_docker_command(config),
            ServingBackend::Sglang(b) => b.build_docker_command(config),
            ServingBackend::LlamaCpp(b) => b.build_docker_command(config),
            ServingBackend::Ollama(b) => b.build_docker_command(config),
        }
    }

    pub fn build_compose_service(&self, config: &ServeConfig) -> (r: String)
        ensures
            r@ == self.spec_compose_service(*config),
    {
        match self {
            ServingBackend::Vllm(b) => b.build_compose_service(config),
            ServingBackend::Tgi(b) => b.build_compose_service(config),
            ServingBackend::Sglang(b) => b.build_compose_service(config),
            ServingBackend::LlamaCpp(b) => b.build_compose_service(config),
            ServingBackend::Ollama(b) => b.build_compose_service(config),
        }
    }

    pub fn api_base_url(&self, config: &ServeConfig) -> (r: String)
        ensures
            r@ == openai_base_url_of(config.host@, config.port),
    {
        match self {
            ServingBackend::Vllm(b) => b.api_base_url(config),
            ServingBackend::Tgi(b) => b.api_base_url(config),
            ServingBackend::Sglang(b) => b.api_base_url(config),
            ServingBackend::LlamaCpp(b) => b.api_base_url(config),
            ServingBackend::Ollama(b) => b.api_base_url(config),
        }
    }
}

// ---------------------------------------------------------------------------
// Laws
// ---------------------------------------------------------------------------

proof fn lemma_backend_name_literals()
    ensures
        ascii_lower("vllm"@) == "vllm"@,
        ascii_lower("tgi"@) == "tgi"@,
        ascii_lower("sglang"@) == "sglang"@,
        ascii_lower("llamacpp"@) == "llamacpp"@,
        ascii_lower("ollama"@) == "ollama"@,
        "vllm"@[0] == 'v' && "tgi"@[0] == 't' && "sglang"@[0] == 's' && "llamacpp"@[0] == 'l'
            && "ollama"@[0] == 'o' && "llama.cpp"@[0] == 'l',
        "llamacpp"@.len() == 8 && "llama.cpp"@.len() == 9,
{
    reveal_strlit("vllm");
    reveal_strlit("tgi");
    reveal_strlit("sglang");
    reveal_strlit("llamacpp");
    reveal_strlit("ollama");
    reveal_strlit("llama.cpp");
    assert(ascii_lower("vllm"@) =~= "vllm"@);
    assert(ascii_lower("tgi"@) =~= "tgi"@);
    assert(ascii_lower("sglang"@) =~= "sglang"@);
    assert(ascii_lower("llamacpp"@) =~= "llamacpp"@);
    assert(ascii_lower("ollama"@) =~= "ollama"@);
}

/// Looking a backend up by its own name gives it back.
pub proof fn lemma_name_round_trip(b: ServingBackend)
    ensures
        backend_for_name(ascii_lower(b.spec_name())) == Some(b),
{
    lemma_backend_name_literals();
    match b {
        ServingBackend::Vllm(x) => {
            assert(x == VllmBackend);
        },
        ServingBackend::Tgi(x) => {
            assert(x == TgiBackend);
            assert("tgi"@ != "vllm"@);
        },
        ServingBackend::Sglang(x) => {
            assert(x == SglangBackend);
            assert("sglang"@ != "vllm"@);
            assert("sglang"@ != "tgi"@);
        },
        ServingBackend::LlamaCpp(x) => {
            assert(x == LlamaCppBackend);
            assert("llamacpp"@ != "vllm"@);
            assert("llamacpp"@ != "tgi"@);
            assert("llamacpp"@ != "sglang"@);
        },
        ServingBackend::Ollama(x) => {
            assert(x == OllamaBackend);
            assert("ollama"@ != "vllm"@);
            assert("ollama"@ != "tgi"@);
            assert("ollama"@ != "sglang"@);
            assert("ollama"@ != "llamacpp"@);
            assert("ollama"@ != "llama.cpp"@);
        },
    }
}

/// The five backends have five different names.
pub proof fn lemma_backend_names_distinct()
    ensures
        forall|i: int, j: int|
            0 <= i < j < every_backend().len() ==> every_backend()[i].spec_name()
                != every_backend()[j].spec_name(),
{
    lemma_backend_name_literals();
    assert forall|i: int, j: int| 0 <= i < j < every_backend().len() implies every_backend()[i].spec_name()
        != every_backend()[j].spec_name() by {
        assert(every_backend()[i].spec_name()[0] != every_backend()[j].spec_name()[0]);
    }
}

/// A backend name selects the same backend whatever its ASCII case.
pub proof fn lemma_lookup_ignores_ascii_case(a: Seq<char>, b: Seq<char>)
    requires
        ascii_lower(a) == ascii_lower(b),
    ensures
        backend_for_name(ascii_lower(a)) == backend_for_name(ascii_lower(b)),
{
}

/// The container image each backend runs.
pub open spec fn backend_image(b: ServingBackend) -> Seq<char> {
    match b {
        ServingBackend::Vllm(_) => "vllm/vllm-openai@sha256:70a098d90dbab428a001d9e852fc0fc8d67da5beb03e7851a22247653bf35923"@,
        ServingBackend::Tgi(_) => "ghcr.io/huggingface/text-generation-inference@sha256:e6b0af6e0bf65337b84a19f15d74660c7892192f555fb0b68d3f3d62bf0c1e9a"@,
        ServingBackend::Sglang(_) => "lmsysorg/sglang@sha256:061fb71f838e82000a1768c159654d526c2f17ebe751c21e7fc48ca53c8ef975"@,
        ServingBackend::LlamaCpp(_) => "ghcr.io/ggml-org/llama.cpp@sha256:785bda5afb7430425e6b26006959b4d986ffcd08a006cc386af1f929016b74e2"@,
        ServingBackend::Ollama(_) => "ollama/ollama@sha256:7ffd891da3e9e278d042c856c0fbe1b10fa03ed1791471377dde331eae4ea834"@,
    }
}

/// Every backend's container runs its image pinned by a `sha256` digest:
/// the image is one of the `docker` arguments, and it names a digest.
pub proof fn lemma_images_pinned_by_digest(b: ServingBackend, c: ServeConfig)
    ensures
        b.spec_docker_args(c).contains(backend_image(b)),
        contains_seq(backend_image(b), "@sha256:"@),
{
    let args = b.spec_docker_args(c);
    match b {
        ServingBackend::Vllm(_) => {
            let pre = base_run_args(c.container_name@, "1000:1000"@, c.port, 8000, c.detach, true, Some("nvidia"@))
                + seq!["-v"@, c.huggingface_cache_dir@ + ":/data/hf-cache:rw"@, "--ipc=host"@, "-e"@, "HF_HOME"@, "-e"@, "HUGGINGFACE_HUB_CACHE"@, "-e"@, "TRANSFORMERS_CACHE"@]
                + crate::backend::common::hf_token_args(c.hf_token is Some);
            assert(args[pre.len() as int] == backend_image(b));
            reveal_strlit("vllm/vllm-openai@sha256:70a098d90dbab428a001d9e852fc0fc8d67da5beb03e7851a22247653bf35923");
            reveal_strlit("@sha256:");
            assert(backend_image(b).subrange(16, 24) =~= "@sha256:"@);
            assert(matches_at(backend_image(b), 16, "@sha256:"@));
        },
        ServingBackend::Tgi(_) => {
            let pre = base_run_args(c.container_name@, "1000:1000"@, c.port, 80, c.detach, true, None)
                + seq!["-v"@, c.huggingface_cache_dir@ + ":/data:rw"@]
                + crate::backend::common::hf_token_args(c.hf_token is Some);
            assert(args[pre.len() as int] == backend_image(b));
            reveal_strlit("ghcr.io/huggingface/text-generation-inference@sha256:e6b0af6e0bf65337b84a19f15d74660c7892192f555fb0b68d3f3d62bf0c1e9a");
            reveal_strlit("@sha256:");
            assert(backend_image(b).subrange(45, 53) =~= "@sha256:"@);
            assert(matches_at(backend_image(b), 45, "@sha256:"@));
        },
        ServingBackend::Sglang(_) => {
            let pre = base_run_args(c.container_name@, "1000:1000"@, c.port, 30000, c.detach, true, None)
                + seq!["-v"@, c.huggingface_cache_dir@ + ":/data/hf-cache:rw"@, "-e"@, "HF_HOME"@, "-e"@, "HUGGINGFACE_HUB_CACHE"@, "-e"@, "TRANSFORMERS_CACHE"@]
                + crate::backend::common::hf_token_args(c.hf_token is Some);
            assert(args[pre.len() as int] == backend_image(b));
            reveal_strlit("lmsysorg/sglang@sha256:061fb71f838e82000a1768c159654d526c2f17ebe751c21e7fc48ca53c8ef975");
            reveal_strlit("@sha256:");
            assert(backend_image(b).subrange(15, 23) =~= "@sha256:"@);
            assert(matches_at(backend_image(b), 15, "@sha256:"@));
        },
        ServingBackend::LlamaCpp(_) => {
            let pre = base_run_args(c.container_name@, "1000:1000"@, c.port, 8080, c.detach, false, None)
                + seq!["-v"@, c.huggingface_cache_dir@ + ":/models:ro"@]
                + (if c.quantization@ != "none"@ { seq!["-e"@, "LLAMACPP_QUANT="@ + c.quantization@] } else { Seq::<Seq<char>>::empty() });
            assert(args[pre.len() as int] == backend_image(b));
            reveal_strlit("ghcr.io/ggml-org/llama.cpp@sha256:785bda5afb7430425e6b26006959b4d986ffcd08a006cc386af1f929016b74e2");
            reveal_strlit("@sha256:");
            assert(backend_image(b).subrange(26, 34) =~= "@sha256:"@);
            assert(matches_at(backend_image(b), 26, "@sha256:"@));
        },
        ServingBackend::Ollama(_) => {
            let pre = base_run_args(c.container_name@, "1000:1000"@, c.port, 11434, c.detach, false, None)
                + seq!["-v"@, c.huggingface_cache_dir@ + ":/data/ollama:rw"@, "-e"@, "OLLAMA_MODELS"@]
                + crate::backend::common::hf_token_args(c.hf_token is Some);
            assert(args[pre.len() as int] == backend_image(b));
            reveal_strlit("ollama/ollama@sha256:7ffd891da3e9e278d042c856c0fbe1b10fa03ed1791471377dde331eae4ea834");
            reveal_strlit("@sha256:");
            assert(backend_image(b).subrange(13, 21) =~= "@sha256:"@);
            assert(matches_at(backend_image(b), 13, "@sha256:"@));
        },
    }
}

/// Every generated Compose service runs the same pinned image as the
/// backend's `docker` command.
pub proof fn lemma_compose_uses_pinned_image(b: ServingBackend, c: ServeConfig)
    ensures
        contains_seq(b.spec_compose_service(c), backend_image(b)),
{
    let compose = b.spec_compose_service(c);
    match b {
        ServingBackend::Vllm(_) => {
            let head = "  gaia-vllm:\n    image: vllm/vllm-openai@sha256:70a098d90dbab428a001d9e852fc0fc8d67da5beb03e7851a22247653bf35923\n    container_name: "@;
            reveal_strlit("  gaia-vllm:\n    image: vllm/vllm-openai@sha256:70a098d90dbab428a001d9e852fc0fc8d67da5beb03e7851a22247653bf35923\n    container_name: ");
            reveal_strlit("vllm/vllm-openai@sha256:70a098d90dbab428a001d9e852fc0fc8d67da5beb03e7851a22247653bf35923");
            assert(head.subrange(24, 112) =~= backend_image(b));
            assert(compose.subrange(24, 112) =~= head.subrange(24, 112));
            assert(matches_at(compose, 24, backend_image(b)));
        },
        ServingBackend::Tgi(_) => {
            let head = "  gaia-tgi:\n    image: ghcr.io/huggingface/text-generation-inference@sha256:e6b0af6e0bf65337b84a19f15d74660c7892192f555fb0b68d3f3d62bf0c1e9a\n    container_name: "@;
            reveal_strlit("  gaia-tgi:\n    image: ghcr.io/huggingface/text-generation-inference@sha256:e6b0af6e0bf65337b84a19f15d74660c7892192f555fb0b68d3f3d62bf0c1e9a\n    container_name: ");
            reveal_strlit("ghcr.io/huggingface/text-generation-inference@sha256:e6b0af6e0bf65337b84a19f15d74660c7892192f555fb0b68d3f3d62bf0c1e9a");
            assert(head.subrange(23, 140) =~= backend_image(b));
            assert(compose.subrange(23, 140) =~= head.subrange(23, 140));
            assert(matches_at(compose, 23, backend_image(b)));
        },
        ServingBackend::Sglang(_) => {
            let head = "  gaia-sglang:\n    image: lmsysorg/sglang@sha256:061fb71f838e82000a1768c159654d526c2f17ebe751c21e7fc48ca53c8ef975\n    container_name: "@;
            reveal_strlit("  gaia-sglang:\n    image: lmsysorg/sglang@sha256:061fb71f838e82000a1768c159654d526c2f17ebe751c21e7fc48ca53c8ef975\n    container_name: ");
            reveal_strlit("lmsysorg/sglang@sha256:061fb71f838e82000a1768c159654d526c2f17ebe751c21e7fc48ca53c8ef975");
            assert(head.subrange(26, 113) =~= backend_image(b));
            assert(compose.subrange(26, 113) =~= head.subrange(26, 113));
            assert(matches_at(compose, 26, backend_image(b)));
        },
        ServingBackend::LlamaCpp(_) => {
            let head = "  gaia-llamacpp:\n    image: ghcr.io/ggml-org/llama.cpp@sha256:785bda5afb7430425e6b26006959b4d986ffcd08a006cc386af1f929016b74e2\n    container_name: "@;
            reveal_strlit("  gaia-llamacpp:\n    image: ghcr.io/ggml-org/llama.cpp@sha256:785bda5afb7430425e6b26006959b4d986ffcd08a006cc386af1f929016b74e2\n    container_name: ");
            reveal_strlit("ghcr.io/ggml-org/llama.cpp@sha256:785bda5afb7430425e6b26006959b4d986ffcd08a006cc386af1f929016b74e2");
            assert(head.subrange(28, 126) =~= backend_image(b));
            assert(compose.subrange(28, 126) =~= head.subrange(28, 126));
            assert(matches_at(compose, 28, backend_image(b)));
        },
        ServingBackend::Ollama(_) => {
            let head = "  gaia-ollama:\n    image: ollama/ollama@sha256:7ffd891da3e9e278d042c856c0fbe1b10fa03ed1791471377dde331eae4ea834\n    container_name: "@;
            reveal_strlit("  gaia-ollama:\n    image: ollama/ollama@sha256:7ffd891da3e9e278d042c856c0fbe1b10fa03ed1791471377dde331eae4ea834\n    container_name: ");
            reveal_strlit("ollama/ollama@sha256:7ffd891da3e9e278d042c856c0fbe1b10fa03ed1791471377dde331eae4ea834");
            assert(head.subrange(26, 111) =~= backend_image(b));
            assert(compose.subrange(26, 111) =~= head.subrange(26, 111));
            assert(matches_at(compose, 26, backend_image(b)));
        },
    }
}

/// The hardening every generated Compose service carries.
pub open spec fn compose_hardening() -> Seq<char> {
    "    user: \"1000:1000\"\n    security_opt:\n      - no-new-privileges:true\n    cap_drop:\n      - ALL\n    read_only: true\n"@
}

/// Every generated Compose service runs hardened: as user `1000:1000`,
/// without new privileges, with all capabilities dropped and a read-only
/// root filesystem.
pub proof fn lemma_compose_services_hardened(b: ServingBackend, c: ServeConfig)
    ensures
        contains_seq(b.spec_compose_service(c), compose_hardening()),
{
    reveal_strlit("    user: \"1000:1000\"\n    security_opt:\n      - no-new-privileges:true\n    cap_drop:\n      - ALL\n    read_only: true\n");
    let compose = b.spec_compose_service(c);
    match b {
        ServingBackend::Vllm(_) => {
            let head = "  gaia-vllm:\n    image: vllm/vllm-openai@sha256:70a098d90dbab428a001d9e852fc0fc8d67da5beb03e7851a22247653bf35923\n    container_name: "@;
            let tail = "\n    restart: unless-stopped\n    runtime: nvidia\n    user: \"1000:1000\"\n    security_opt:\n      - no-new-privileges:true\n    cap_drop:\n      - ALL\n    read_only: true\n    tmpfs:\n      - /tmp\n    ports:\n      - \""@;
            reveal_strlit("  gaia-vllm:\n    image: vllm/vllm-openai@sha256:70a098d90dbab428a001d9e852fc0fc8d67da5beb03e7851a22247653bf35923\n    container_name: ");
            reveal_strlit("\n    restart: unless-stopped\n    runtime: nvidia\n    user: \"1000:1000\"\n    security_opt:\n      - no-new-privileges:true\n    cap_drop:\n      - ALL\n    read_only: true\n    tmpfs:\n      - /tmp\n    ports:\n      - \"");
            let start = (head.len() + c.container_name@.len() + 49) as int;
            assert(tail.subrange(49, 166) =~= compose_hardening());
            assert(compose.subrange(start, start + compose_hardening().len()) =~= tail.subrange(49, 166));
            assert(matches_at(compose, start, compose_hardening()));
        },
        ServingBackend::Tgi(_) => {
            let head = "  gaia-tgi:\n    image: ghcr.io/huggingface/text-generation-inference@sha256:e6b0af6e0bf65337b84a19f15d74660c7892192f555fb0b68d3f3d62bf0c1e9a\n    container_name: "@;
            let tail = "\n    restart: unless-stopped\n    user: \"1000:1000\"\n    security_opt:\n      - no-new-privileges:true\n    cap_drop:\n      - ALL\n    read_only: true\n    tmpfs:\n      - /tmp\n    ports:\n      - \""@;
            reveal_strlit("  gaia-tgi:\n    image: ghcr.io/huggingface/text-generation-inference@sha256:e6b0af6e0bf65337b84a19f15d74660c7892192f555fb0b68d3f3d62bf0c1e9a\n    container_name: ");
            reveal_strlit("\n    restart: unless-stopped\n    user: \"1000:1000\"\n    security_opt:\n      - no-new-privileges:true\n    cap_drop:\n      - ALL\n    read_only: true\n    tmpfs:\n      - /tmp\n    ports:\n      - \"");
            let start = (head.len() + c.container_name@.len() + 29) as int;
            assert(tail.subrange(29, 146) =~= compose_hardening());
            assert(compose.subrange(start, start + compose_hardening().len()) =~= tail.subrange(29, 146));
            assert(matches_at(compose, start, compose_hardening()));
        },
        ServingBackend::Sglang(_) => {
            let head = "  gaia-sglang:\n    image: lmsysorg/sglang@sha256:061fb71f838e82000a1768c159654d526c2f17ebe751c21e7fc48ca53c8ef975\n    container_name: "@;
            let tail = "\n    restart: unless-stopped\n    user: \"1000:1000\"\n    security_opt:\n      - no-new-privileges:true\n    cap_drop:\n      - ALL\n    read_only: true\n    tmpfs:\n      - /tmp\n    ports:\n      - \""@;
            reveal_strlit("  gaia-sglang:\n    image: lmsysorg/sglang@sha256:061fb71f838e82000a1768c159654d526c2f17ebe751c21e7fc48ca53c8ef975\n    container_name: ");
            reveal_strlit("\n    restart: unless-stopped\n    user: \"1000:1000\"\n    security_opt:\n      - no-new-privileges:true\n    cap_drop:\n      - ALL\n    read_only: true\n    tmpfs:\n      - /tmp\n    ports:\n      - \"");
            let start = (head.len() + c.container_name@.len() + 29) as int;
            assert(tail.subrange(29, 146) =~= compose_hardening());
            assert(compose.subrange(start, start + compose_hardening().len()) =~= tail.subrange(29, 146));
            assert(matches_at(compose, start, compose_hardening()));
        },
        ServingBackend::LlamaCpp(_) => {
            let head = "  gaia-llamacpp:\n    image: ghcr.io/ggml-org/llama.cpp@sha256:785bda5afb7430425e6b26006959b4d986ffcd08a006cc386af1f929016b74e2\n    container_name: "@;
            let tail = "\n    restart: unless-stopped\n    user: \"1000:1000\"\n    security_opt:\n      - no-new-privileges:true\n    cap_drop:\n      - ALL\n    read_only: true\n    tmpfs:\n      - /tmp\n    ports:\n      - \""@;
            reveal_strlit("  gaia-llamacpp:\n    image: ghcr.io/ggml-org/llama.cpp@sha256:785bda5afb7430425e6b26006959b4d986ffcd08a006cc386af1f929016b74e2\n    container_name: ");
            reveal_strlit("\n    restart: unless-stopped\n    user: \"1000:1000\"\n    security_opt:\n      - no-new-privileges:true\n    cap_drop:\n      - ALL\n    read_only: true\n    tmpfs:\n      - /tmp\n    ports:\n      - \"");
            let start = (head.len() + c.container_name@.len() + 29) as int;
            assert(tail.subrange(29, 146) =~= compose_hardening());
            assert(compose.subrange(start, start + compose_hardening().len()) =~= tail.subrange(29, 146));
            assert(matches_at(compose, start, compose_hardening()));
        },
        ServingBackend::Ollama(_) => {
            let head = "  gaia-ollama:\n    image: ollama/ollama@sha256:7ffd891da3e9e278d042c856c0fbe1b10fa03ed1791471377dde331eae4ea834\n    container_name: "@;
            let tail = "\n    restart: unless-stopped\n    user: \"1000:1000\"\n    security_opt:\n      - no-new-privileges:true\n    cap_drop:\n      - ALL\n    read_only: true\n    tmpfs:\n      - /tmp\n    ports:\n      - \""@;
            reveal_strlit("  gaia-ollama:\n    image: ollama/ollama@sha256:7ffd891da3e9e278d042c856c0fbe1b10fa03ed1791471377dde331eae4ea834\n    container_name: ");
            reveal_strlit("\n    restart: unless-stopped\n    user: \"1000:1000\"\n    security_opt:\n      - no-new-privileges:true\n    cap_drop:\n      - ALL\n    read_only: true\n    tmpfs:\n      - /tmp\n    ports:\n      - \"");
            let start = (head.len() + c.container_name@.len() + 29) as int;
            assert(tail.subrange(29, 146) =~= compose_hardening());
            assert(compose.subrange(start, start + compose_hardening().len()) =~= tail.subrange(29, 146));
            assert(matches_at(compose, start, compose_hardening()));
        },
    }
}

/// vLLM, TGI and SGLang pass a pinned revision on to the server: their
/// `docker` arguments hold `--revision <rev>` whenever the configuration
/// names one.
pub proof fn lemma_revision_is_passed_on(b: ServingBackend, c: ServeConfig)
    requires
        b is Vllm || b is Tgi || b is Sglang,
    ensures
        c.model_revision matches Some(rev) ==> has_args(b.spec_docker_args(c), seq!["--revision"@, rev@]),
{
    let args = b.spec_docker_args(c);
    let hf = crate::backend::common::hf_token_args(c.hf_token is Some);
    let pre = match b {
        ServingBackend::Vllm(_) => base_run_args(c.container_name@, "1000:1000"@, c.port, 8000, c.detach, true, Some("nvidia"@))
            + seq!["-v"@, c.huggingface_cache_dir@ + ":/data/hf-cache:rw"@, "--ipc=host"@, "-e"@, "HF_HOME"@, "-e"@, "HUGGINGFACE_HUB_CACHE"@, "-e"@, "TRANSFORMERS_CACHE"@]
            + hf
            + seq!["vllm/vllm-openai@sha256:70a098d90dbab428a001d9e852fc0fc8d67da5beb03e7851a22247653bf35923"@, "--model"@, c.model_id@, "--host"@, "0.0.0.0"@, "--port"@, "8000"@, "--dtype"@, c.dtype@, "--api-key"@, c.api_key@],
        ServingBackend::Tgi(_) => base_run_args(c.container_name@, "1000:1000"@, c.port, 80, c.detach, true, None)
            + seq!["-v"@, c.huggingface_cache_dir@ + ":/data:rw"@]
            + hf
            + seq!["ghcr.io/huggingface/text-generation-inference@sha256:e6b0af6e0bf65337b84a19f15d74660c7892192f555fb0b68d3f3d62bf0c1e9a"@, "--model-id"@, c.model_id@],
        _ => base_run_args(c.container_name@, "1000:1000"@, c.port, 30000, c.detach, true, None)
            + seq!["-v"@, c.huggingface_cache_dir@ + ":/data/hf-cache:rw"@, "-e"@, "HF_HOME"@, "-e"@, "HUGGINGFACE_HUB_CACHE"@, "-e"@, "TRANSFORMERS_CACHE"@]
            + hf
            + seq!["lmsysorg/sglang@sha256:061fb71f838e82000a1768c159654d526c2f17ebe751c21e7fc48ca53c8ef975"@, "python3"@, "-m"@, "sglang.launch_server"@, "--model-path"@, c.model_id@, "--host"@, "0.0.0.0"@, "--port"@, "30000"@, "--api-key"@, c.api_key@],
    };
    match c.model_revision {
        Some(rev) => {
            let i = pre.len() as int;
            assert(args.subrange(i, i + 2) =~= seq!["--revision"@, rev@]);
        },
        None => {},
    }
}

/// `args` holds `part` as consecutive arguments.
pub open spec fn has_args(args: Seq<Seq<char>>, part: Seq<Seq<char>>) -> bool {
    exists|i: int| 0 <= i && i + part.len() <= args.len() && #[trigger] args.subrange(i, i + part.len()) == part
}

/// Every backend container runs hardened: no new privileges, all
/// capabilities dropped, read-only root filesystem, as user `1000:1000`.
pub proof fn lemma_docker_commands_hardened(b: ServingBackend, c: ServeConfig)
    ensures
        has_args(b.spec_docker_args(c), hardening_args("1000:1000"@)),
{
    let rt: Option<Seq<char>> = match b {
        ServingBackend::Vllm(_) => Some("nvidia"@),
        _ => None,
    };
    let cport: u16 = match b {
        ServingBackend::Vllm(_) => 8000,
        ServingBackend::Tgi(_) => 80,
        ServingBackend::Sglang(_) => 30000,
        ServingBackend::LlamaCpp(_) => 8080,
        ServingBackend::Ollama(_) => 11434,
    };
    let gpu = match b {
        ServingBackend::Vllm(_) | ServingBackend::Tgi(_) | ServingBackend::Sglang(_) => true,
        _ => false,
    };
    let base = base_run_args(c.container_name@, "1000:1000"@, c.port, cport, c.detach, gpu, rt);
    let head = seq!["run"@, "--rm"@, "--name"@, c.container_name@]
        + (match rt { Some(r) => seq!["--runtime"@, r], None => Seq::empty() })
        + (if gpu { seq!["--gpus"@, "all"@] } else { Seq::empty() })
        + seq!["-p"@, crate::text::decimal(c.port as nat) + ":"@ + crate::text::decimal(cport as nat)];
    let h = hardening_args("1000:1000"@);
    let i = head.len() as int;
    assert(base.subrange(i, i + h.len()) =~= h);
    let full = b.spec_docker_args(c);
    assert(full.subrange(0, base.len() as int) =~= base);
    assert(full.subrange(i, i + h.len()) =~= h);
}

} // verus!
