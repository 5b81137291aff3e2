//! Ollama: runs on CPU, faster with a GPU.

use vstd::prelude::*;

use crate::backend::common::{DockerRunProfile, add_optional_hf_token_arg, apply_optional_hf_token_env, base_docker_run_args, base_run_args, hf_token_args, push_arg, with_hf_token};
use crate::backend::BackendAvailability;
use crate::command_spec::CommandSpec;
use crate::config::{openai_base_url_of, ServeConfig};
use crate::machine::MachineSpecs;
use crate::text::{decimal, u64_to_string, views};

verus! {

#[derive(Debug, Clone, Copy, Default)]
pub struct OllamaBackend;

/// Whether this backend can run on a machine, and why.
pub open spec fn ollama_availability(m: MachineSpecs) -> (bool, Seq<char>) {
    if !m.docker.installed {
        (false, "Docker is not installed."@)
    } else if !m.docker.daemon_accessible {
        (false, "Docker daemon is not accessible."@)
    } else if m.gpu is Some {
        (true, "Docker + NVIDIA GPU detected."@)
    } else {
        (true, "Docker available (CPU mode possible; performance can be limited)."@)
    }
}

/// `docker` arguments that launch this backend.
pub open spec fn ollama_docker_args(c: ServeConfig) -> Seq<Seq<char>> {
    base_run_args(c.container_name@, "1000:1000"@, c.port, 11434, c.detach, false, None)
        + seq!["-v"@, c.huggingface_cache_dir@ + ":/data/ollama:rw"@, "-e"@, "OLLAMA_MODELS"@]
        + hf_token_args(c.hf_token is Some)
        + seq!["ollama/ollama@sha256:7ffd891da3e9e278d042c856c0fbe1b10fa03ed1791471377dde331eae4ea834"@]
}

/// Environment of this backend's `docker` command.
pub open spec fn ollama_docker_env(c: ServeConfig) -> Map<Seq<char>, Seq<char>> {
    with_hf_token(
        Map::<Seq<char>, Seq<char>>::empty()
            .insert("OLLAMA_MODELS"@, "/data/ollama"@),
        match c.hf_token { Some(t) => Some(t@), None => None },
    )
}

/// The Docker Compose service text for this backend and configuration.
pub open spec fn ollama_compose_service(c: ServeConfig) -> Seq<char> {
    "  gaia-ollama:\n    image: ollama/ollama@sha256:7ffd891da3e9e278d042c856c0fbe1b10fa03ed1791471377dde331eae4ea834\n    container_name: "@ + c.container_name@ + "\n    restart: unless-stopped\n    user: \"1000:1000\"\n    security_opt:\n      - no-new-privileges:true\n    cap_drop:\n      - ALL\n    read_only: true\n    tmpfs:\n      - /tmp\n    ports:\n      - \""@ + decimal(c.port as nat) + ":11434\"\n    volumes:\n      - "@ + c.huggingface_cache_dir@ + ":/data/ollama:rw\n    environment:\n      - OLLAMA_MODELS=/data/ollama\n"@
        + (if c.hf_token is Some { "      - HF_TOKEN=${HF_TOKEN}\n"@ } else { Seq::<char>::empty() })
}

impl OllamaBackend {
    pub fn name(&self) -> (r: &'static str)
        ensures
            r@ == "ollama"@,
    {
        "ollama"
    }

    pub fn display_name(&self) -> (r: &'static str)
        ensures
            r@ == "Ollama"@,
    {
        "Ollama"
    }

    pub fn is_available(&self, machine: &MachineSpecs) -> (r: BackendAvailability)
        ensures
            (r.available, r.reason@) == ollama_availability(*machine),
            r.warnings@.len() == 0,
    {
        if !machine.docker.installed {
            return BackendAvailability::unavailable("Docker is not installed.");
        }
        if !machine.docker.daemon_accessible {
            return BackendAvailability::unavailable("Docker daemon is not accessible.");
        }
        if machine.gpu.is_some() {
            BackendAvailability::available("Docker + NVIDIA GPU detected.")
        } else {
            BackendAvailability::available("Docker available (CPU mode possible; performance can be limited).")
        }
    }

    #[verifier::rlimit(60)]
    #[verifier::spinoff_prover]
    fn docker_args(config: &ServeConfig) -> (r: Vec<String>)
        ensures
            views(r@) == ollama_docker_args(*config),
    {
        let token: Option<&str> = match &config.hf_token {
            Some(t) => Some(t.as_str()),
            None => None,
        };
        let mut args = base_docker_run_args(DockerRunProfile {
            container_name: config.container_name.as_str(),
            user: "1000:1000",
            host_port: config.port,
            container_port: 11434,
            detach: config.detach,
            gpu_all: false,
            runtime: None,
        });
        let ghost g0 = views(args@);
        push_arg(&mut args, "-v");
        let mut s2 = config.huggingface_cache_dir.clone();
        s2.append(":/data/ollama:rw");
        push_arg(&mut args, s2.as_str());
        push_arg(&mut args, "-e");
        push_arg(&mut args, "OLLAMA_MODELS");
        let ghost g1 = views(args@);
        add_optional_hf_token_arg(&mut args, token);
        let ghost g2 = views(args@);
        push_arg(&mut args, "ollama/ollama@sha256:7ffd891da3e9e278d042c856c0fbe1b10fa03ed1791471377dde331eae4ea834");
        proof {
            let c = *config;
            assert(g1 =~= g0 + seq!["-v"@, c.huggingface_cache_dir@ + ":/data/ollama:rw"@, "-e"@, "OLLAMA_MODELS"@]);
            assert(g2 =~= g1 + hf_token_args(c.hf_token is Some));
            assert(views(args@) =~= g2 + seq!["ollama/ollama@sha256:7ffd891da3e9e278d042c856c0fbe1b10fa03ed1791471377dde331eae4ea834"@]);
            assert(views(args@) =~= ollama_docker_args(c));
        }
        args
    }

    pub fn build_docker_command(&self, config: &ServeConfig) -> (r: CommandSpec)
        ensures
            r.program@ == "docker"@,
            views(r.args@) == ollama_docker_args(*config),
            r.env_view() == ollama_docker_env(*config),
            r.working_dir is None,
            r.well_formed(),
    {
        let args = Self::docker_args(config);
        let token: Option<&str> = match &config.hf_token {
            Some(t) => Some(t.as_str()),
            None => None,
        };
        let command = CommandSpec::new("docker")
            .args(args)
            .env("OLLAMA_MODELS", "/data/ollama");
        proof {
            assert(command.env_view() =~= Map::<Seq<char>, Seq<char>>::empty()
                .insert("OLLAMA_MODELS"@, "/data/ollama"@));
        }
        apply_optional_hf_token_env(command, token)
    }

    pub fn build_compose_service(&self, config: &ServeConfig) -> (r: String)
        ensures
            r@ == ollama_compose_service(*config),
    {
        let mut r = "  gaia-ollama:\n    image: ollama/ollama@sha256:7ffd891da3e9e278d042c856c0fbe1b10fa03ed1791471377dde331eae4ea834\n    container_name: ".to_owned();
        r.append(config.container_name.as_str());
        r.append("\n    restart: unless-stopped\n    user: \"1000:1000\"\n    security_opt:\n      - no-new-privileges:true\n    cap_drop:\n      - ALL\n    read_only: true\n    tmpfs:\n      - /tmp\n    ports:\n      - \"");
        r.append(u64_to_string(config.port as u64).as_str());
        r.append(":11434\"\n    volumes:\n      - ");
        r.append(config.huggingface_cache_dir.as_str());
        r.append(":/data/ollama:rw\n    environment:\n      - OLLAMA_MODELS=/data/ollama\n");
        let t0: String = if config.hf_token.is_some() {
            let mut t = "      - HF_TOKEN=${HF_TOKEN}\n".to_owned();
            t
        } else {
            String::new()
        };
        r.append(t0.as_str());
        r
    }

    pub fn api_base_url(&self, config: &ServeConfig) -> (r: String)
        ensures
            r@ == openai_base_url_of(config.host@, config.port),
    {
        config.openai_base_url()
    }
}

} // verus!
