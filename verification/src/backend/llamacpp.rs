//! llama.cpp server: runs on CPU, faster with a GPU.

use vstd::prelude::*;

use crate::backend::common::{DockerRunProfile, base_docker_run_args, base_run_args, push_arg};
use crate::backend::BackendAvailability;
use crate::command_spec::CommandSpec;
use crate::config::{openai_base_url_of, ServeConfig};
use crate::machine::MachineSpecs;
use crate::text::{decimal, u64_to_string, views, str_eq};

verus! {

#[derive(Debug, Clone, Copy, Default)]
pub struct LlamaCppBackend;

/// Whether this backend can run on a machine, and why.
pub open spec fn llamacpp_availability(m: MachineSpecs) -> (bool, Seq<char>) {
    if !m.docker.installed {
        (false, "Docker is not installed."@)
    } else if !m.docker.daemon_accessible {
        (false, "Docker daemon is not accessible."@)
    } else if m.gpu is Some {
        (true, "Docker available (GPU detected, can use CUDA builds)."@)
    } else {
        (true, "Docker available (CPU mode possible; performance will be lower)."@)
    }
}

/// `docker` arguments that launch this backend.
pub open spec fn llamacpp_docker_args(c: ServeConfig) -> Seq<Seq<char>> {
    base_run_args(c.container_name@, "1000:1000"@, c.port, 8080, c.detach, false, None)
        + seq!["-v"@, c.huggingface_cache_dir@ + ":/models:ro"@]
        + (if c.quantization@ != "none"@ { seq!["-e"@, "LLAMACPP_QUANT="@ + c.quantization@] } else { Seq::<Seq<char>>::empty() })
        + seq!["ghcr.io/ggml-org/llama.cpp@sha256:785bda5afb7430425e6b26006959b4d986ffcd08a006cc386af1f929016b74e2"@, "-m"@, c.model_id@, "--host"@, "0.0.0.0"@, "--port"@, "8080"@, "--api-key"@, c.api_key@]
}

/// Environment of this backend's `docker` command.
pub open spec fn llamacpp_docker_env(c: ServeConfig) -> Map<Seq<char>, Seq<char>> {
    Map::<Seq<char>, Seq<char>>::empty()
}

/// The Docker Compose service text for this backend and configuration.
pub open spec fn llamacpp_compose_service(c: ServeConfig) -> Seq<char> {
    "  gaia-llamacpp:\n    image: ghcr.io/ggml-org/llama.cpp@sha256:785bda5afb7430425e6b26006959b4d986ffcd08a006cc386af1f929016b74e2\n    container_name: "@ + c.container_name@ + "\n    restart: unless-stopped\n    user: \"1000:1000\"\n    security_opt:\n      - no-new-privileges:true\n    cap_drop:\n      - ALL\n    read_only: true\n    tmpfs:\n      - /tmp\n    ports:\n      - \""@ + decimal(c.port as nat) + ":8080\"\n    volumes:\n      - "@ + c.huggingface_cache_dir@ + ":/models:ro\n    environment:\n      - GAIA_API_KEY=${GAIA_API_KEY:-local-key}\n    command:\n      - -m\n      - "@ + c.model_id@ + "\n      - --host\n      - 0.0.0.0\n      - --port\n      - \"8080\"\n      - --api-key\n      - ${GAIA_API_KEY:-local-key}\n"@
}

impl LlamaCppBackend {
    pub fn name(&self) -> (r: &'static str)
        ensures
            r@ == "llamacpp"@,
    {
        "llamacpp"
    }

    pub fn display_name(&self) -> (r: &'static str)
        ensures
            r@ == "llama.cpp"@,
    {
        "llama.cpp"
    }

    pub fn is_available(&self, machine: &MachineSpecs) -> (r: BackendAvailability)
        ensures
            (r.available, r.reason@) == llamacpp_availability(*machine),
            r.warnings@.len() == 0,
    {
        if !machine.docker.installed {
            return BackendAvailability::unavailable("Docker is not installed.");
        }
        if !machine.docker.daemon_accessible {
            return BackendAvailability::unavailable("Docker daemon is not accessible.");
        }
        if machine.gpu.is_some() {
            BackendAvailability::available("Docker available (GPU detected, can use CUDA builds).")
        } else {
            BackendAvailability::available("Docker available (CPU mode possible; performance will be lower).")
        }
    }

    #[verifier::rlimit(60)]
    #[verifier::spinoff_prover]
    fn docker_args(config: &ServeConfig) -> (r: Vec<String>)
        ensures
            views(r@) == llamacpp_docker_args(*config),
    {
        let mut args = base_docker_run_args(DockerRunProfile {
            container_name: config.container_name.as_str(),
            user: "1000:1000",
            host_port: config.port,
            container_port: 8080,
            detach: config.detach,
            gpu_all: false,
            runtime: None,
        });
        let ghost g0 = views(args@);
        push_arg(&mut args, "-v");
        let mut s2 = config.huggingface_cache_dir.clone();
        s2.append(":/models:ro");
        push_arg(&mut args, s2.as_str());
        let ghost g1 = views(args@);
        if !str_eq(config.quantization.as_str(), "none") {
            push_arg(&mut args, "-e");
            let mut s4 = "LLAMACPP_QUANT=".to_owned();
            s4.append(config.quantization.as_str());
            push_arg(&mut args, s4.as_str());
        }
        let ghost g2 = views(args@);
        push_arg(&mut args, "ghcr.io/ggml-org/llama.cpp@sha256:785bda5afb7430425e6b26006959b4d986ffcd08a006cc386af1f929016b74e2");
        push_arg(&mut args, "-m");
        push_arg(&mut args, config.model_id.as_str());
        push_arg(&mut args, "--host");
        push_arg(&mut args, "0.0.0.0");
        push_arg(&mut args, "--port");
        push_arg(&mut args, "8080");
        push_arg(&mut args, "--api-key");
        push_arg(&mut args, config.api_key.as_str());
        proof {
            let c = *config;
            assert(g1 =~= g0 + seq!["-v"@, c.huggingface_cache_dir@ + ":/models:ro"@]);
            assert(g2 =~= g1 + (if c.quantization@ != "none"@ { seq!["-e"@, "LLAMACPP_QUANT="@ + c.quantization@] } else { Seq::<Seq<char>>::empty() }));
            assert(views(args@) =~= g2 + seq!["ghcr.io/ggml-org/llama.cpp@sha256:785bda5afb7430425e6b26006959b4d986ffcd08a006cc386af1f929016b74e2"@, "-m"@, c.model_id@, "--host"@, "0.0.0.0"@, "--port"@, "8080"@, "--api-key"@, c.api_key@]);
            assert(views(args@) =~= llamacpp_docker_args(c));
        }
        args
    }

    pub fn build_docker_command(&self, config: &ServeConfig) -> (r: CommandSpec)
        ensures
            r.program@ == "docker"@,
            views(r.args@) == llamacpp_docker_args(*config),
            r.env_view() == llamacpp_docker_env(*config),
            r.working_dir is None,
            r.well_formed(),
    {
        let args = Self::docker_args(config);
        let command = CommandSpec::new("docker")
            .args(args);
        proof {
            assert(command.env_view() =~= Map::<Seq<char>, Seq<char>>::empty());
        }
        command
    }

    pub fn build_compose_service(&self, config: &ServeConfig) -> (r: String)
        ensures
            r@ == llamacpp_compose_service(*config),
    {
        let mut r = "  gaia-llamacpp:\n    image: ghcr.io/ggml-org/llama.cpp@sha256:785bda5afb7430425e6b26006959b4d986ffcd08a006cc386af1f929016b74e2\n    container_name: ".to_owned();
        r.append(config.container_name.as_str());
        r.append("\n    restart: unless-stopped\n    user: \"1000:1000\"\n    security_opt:\n      - no-new-privileges:true\n    cap_drop:\n      - ALL\n    read_only: true\n    tmpfs:\n      - /tmp\n    ports:\n      - \"");
        r.append(u64_to_string(config.port as u64).as_str());
        r.append(":8080\"\n    volumes:\n      - ");
        r.append(config.huggingface_cache_dir.as_str());
        r.append(":/models:ro\n    environment:\n      - GAIA_API_KEY=${GAIA_API_KEY:-local-key}\n    command:\n      - -m\n      - ");
        r.append(config.model_id.as_str());
        r.append("\n      - --host\n      - 0.0.0.0\n      - --port\n      - \"8080\"\n      - --api-key\n      - ${GAIA_API_KEY:-local-key}\n");
        r
    }

    pub fn api_base_url(&self, config: &ServeConfig) -> (r: String)
        ensures
            r@ == openai_base_url_of(config.host@, config.port),
    {
        config.openai_base_url()
    }
}

} // verus!
