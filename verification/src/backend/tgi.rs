//! Text Generation Inference (Hugging Face): NVIDIA GPU recommended.

use vstd::prelude::*;

use crate::backend::common::{DockerRunProfile, add_optional_hf_token_arg, apply_optional_hf_token_env, base_docker_run_args, base_run_args, hf_token_args, push_arg, with_hf_token};
use crate::backend::BackendAvailability;
use crate::command_spec::CommandSpec;
use crate::config::{openai_base_url_of, ServeConfig};
use crate::machine::MachineSpecs;
use crate::text::{decimal, u64_to_string, views};

verus! {

#[derive(Debug, Clone, Copy, Default)]
pub struct TgiBackend;

/// Whether this backend can run on a machine, and why.
pub open spec fn tgi_availability(m: MachineSpecs) -> (bool, Seq<char>) {
    if !m.docker.installed {
        (false, "Docker is not installed."@)
    } else if !m.docker.daemon_accessible {
        (false, "Docker daemon is not accessible."@)
    } else if m.gpu is None {
        (false, "NVIDIA GPU is recommended for TGI."@)
    } else {
        (true, "Docker + NVIDIA GPU detected."@)
    }
}

/// `docker` arguments that launch this backend.
pub open spec fn tgi_docker_args(c: ServeConfig) -> Seq<Seq<char>> {
    base_run_args(c.container_name@, "1000:1000"@, c.port, 80, c.detach, true, None)
        + seq!["-v"@, c.huggingface_cache_dir@ + ":/data:rw"@]
        + hf_token_args(c.hf_token is Some)
        + seq!["ghcr.io/huggingface/text-generation-inference@sha256:e6b0af6e0bf65337b84a19f15d74660c7892192f555fb0b68d3f3d62bf0c1e9a"@, "--model-id"@, c.model_id@]
        + (match c.model_revision { Some(rev) => seq!["--revision"@, rev@], None => Seq::<Seq<char>>::empty() })
}

/// Environment of this backend's `docker` command.
pub open spec fn tgi_docker_env(c: ServeConfig) -> Map<Seq<char>, Seq<char>> {
    with_hf_token(
        Map::<Seq<char>, Seq<char>>::empty(),
        match c.hf_token { Some(t) => Some(t@), None => None },
    )
}

/// The Docker Compose service text for this backend and configuration.
pub open spec fn tgi_compose_service(c: ServeConfig) -> Seq<char> {
    "  gaia-tgi:\n    image: ghcr.io/huggingface/text-generation-inference@sha256:e6b0af6e0bf65337b84a19f15d74660c7892192f555fb0b68d3f3d62bf0c1e9a\n    container_name: "@ + c.container_name@ + "\n    restart: unless-stopped\n    user: \"1000:1000\"\n    security_opt:\n      - no-new-privileges:true\n    cap_drop:\n      - ALL\n    read_only: true\n    tmpfs:\n      - /tmp\n    ports:\n      - \""@ + decimal(c.port as nat) + ":80\"\n    volumes:\n      - "@ + c.huggingface_cache_dir@ + ":/data:rw\n    environment:\n      - HF_TOKEN=${HF_TOKEN}\n    deploy:\n      resources:\n        reservations:\n          devices:\n            - driver: nvidia\n              count: all\n              capabilities: [gpu]\n    command:\n      - --model-id\n      - "@ + c.model_id@ + "\n"@
        + (match c.model_revision { Some(rev) => "      - --revision\n      - \""@ + rev@ + "\"\n"@, None => Seq::<char>::empty() })
}

impl TgiBackend {
    pub fn name(&self) -> (r: &'static str)
        ensures
            r@ == "tgi"@,
    {
        "tgi"
    }

    pub fn display_name(&self) -> (r: &'static str)
        ensures
            r@ == "Text Generation Inference"@,
    {
        "Text Generation Inference"
    }

    pub fn is_available(&self, machine: &MachineSpecs) -> (r: BackendAvailability)
        ensures
            (r.available, r.reason@) == tgi_availability(*machine),
            r.warnings@.len() == 0,
    {
        if !machine.docker.installed {
            return BackendAvailability::unavailable("Docker is not installed.");
        }
        if !machine.docker.daemon_accessible {
            return BackendAvailability::unavailable("Docker daemon is not accessible.");
        }
        if machine.gpu.is_none() {
            return BackendAvailability::unavailable("NVIDIA GPU is recommended for TGI.");
        }
        BackendAvailability::available("Docker + NVIDIA GPU detected.")
    }

    #[verifier::rlimit(60)]
    #[verifier::spinoff_prover]
    fn docker_args(config: &ServeConfig) -> (r: Vec<String>)
        ensures
            views(r@) == tgi_docker_args(*config),
    {
        let token: Option<&str> = match &config.hf_token {
            Some(t) => Some(t.as_str()),
            None => None,
        };
        let mut args = base_docker_run_args(DockerRunProfile {
            container_name: config.container_name.as_str(),
            user: "1000:1000",
            host_port: config.port,
            container_port: 80,
            detach: config.detach,
            gpu_all: true,
            runtime: None,
        });
        let ghost g0 = views(args@);
        push_arg(&mut args, "-v");
        let mut s2 = config.huggingface_cache_dir.clone();
        s2.append(":/data:rw");
        push_arg(&mut args, s2.as_str());
        let ghost g1 = views(args@);
        add_optional_hf_token_arg(&mut args, token);
        let ghost g2 = views(args@);
        push_arg(&mut args, "ghcr.io/huggingface/text-generation-inference@sha256:e6b0af6e0bf65337b84a19f15d74660c7892192f555fb0b68d3f3d62bf0c1e9a");
        push_arg(&mut args, "--model-id");
        push_arg(&mut args, config.model_id.as_str());
        let ghost g3 = views(args@);
        if let Some(rev) = &config.model_revision {
            push_arg(&mut args, "--revision");
            push_arg(&mut args, rev.as_str());
        }
        proof {
            let c = *config;
            assert(g1 =~= g0 + seq!["-v"@, c.huggingface_cache_dir@ + ":/data:rw"@]);
            assert(g2 =~= g1 + hf_token_args(c.hf_token is Some));
            assert(g3 =~= g2 + seq!["ghcr.io/huggingface/text-generation-inference@sha256:e6b0af6e0bf65337b84a19f15d74660c7892192f555fb0b68d3f3d62bf0c1e9a"@, "--model-id"@, c.model_id@]);
            assert(views(args@) =~= g3 + (match c.model_revision { Some(rev) => seq!["--revision"@, rev@], None => Seq::<Seq<char>>::empty() }));
            assert(views(args@) =~= tgi_docker_args(c));
        }
        args
    }

    pub fn build_docker_command(&self, config: &ServeConfig) -> (r: CommandSpec)
        ensures
            r.program@ == "docker"@,
            views(r.args@) == tgi_docker_args(*config),
            r.env_view() == tgi_docker_env(*config),
            r.working_dir is None,
            r.well_formed(),
    {
        let args = Self::docker_args(config);
        let token: Option<&str> = match &config.hf_token {
            Some(t) => Some(t.as_str()),
            None => None,
        };
        let command = CommandSpec::new("docker")
            .args(args);
        proof {
            assert(command.env_view() =~= Map::<Seq<char>, Seq<char>>::empty());
        }
        apply_optional_hf_token_env(command, token)
    }

    pub fn build_compose_service(&self, config: &ServeConfig) -> (r: String)
        ensures
            r@ == tgi_compose_service(*config),
    {
        let mut r = "  gaia-tgi:\n    image: ghcr.io/huggingface/text-generation-inference@sha256:e6b0af6e0bf65337b84a19f15d74660c7892192f555fb0b68d3f3d62bf0c1e9a\n    container_name: ".to_owned();
        r.append(config.container_name.as_str());
        r.append("\n    restart: unless-stopped\n    user: \"1000:1000\"\n    security_opt:\n      - no-new-privileges:true\n    cap_drop:\n      - ALL\n    read_only: true\n    tmpfs:\n      - /tmp\n    ports:\n      - \"");
        r.append(u64_to_string(config.port as u64).as_str());
        r.append(":80\"\n    volumes:\n      - ");
        r.append(config.huggingface_cache_dir.as_str());
        r.append(":/data:rw\n    environment:\n      - HF_TOKEN=${HF_TOKEN}\n    deploy:\n      resources:\n        reservations:\n          devices:\n            - driver: nvidia\n              count: all\n              capabilities: [gpu]\n    command:\n      - --model-id\n      - ");
        r.append(config.model_id.as_str());
        r.append("\n");
        let t0: String = match &config.model_revision {
            Some(rev) => {
                let mut t = "      - --revision\n      - \"".to_owned();
                t.append(rev.as_str());
                t.append("\"\n");
                t
            },
            None => String::new(),
        };
        r.append(t0.as_str());
        r
    }

    pub fn api_base_url(&self, config: &ServeConfig) -> (r: String)
        ensures
            r@ == openai_base_url_of(config.host@, config.port),
    {
        config.openai_base_url()
    }
}

} // verus!
