//! Docker arguments shared by every backend: run flags, port mapping and
//! container hardening.

use vstd::prelude::*;

use crate::command_spec::CommandSpec;
use crate::text::{decimal, u64_to_string, views};

verus! {

/// Appends one argument.
pub(crate) fn push_arg(args: &mut Vec<String>, a: &str)
    ensures
        views(final(args)@) == views(old(args)@).push(a@),
{
    let ghost prev = args@;
    args.push(a.to_owned());
    assert(views(args@) =~= views(prev).push(a@));
}

/// The hardening flags every container runs with: no privilege escalation,
/// all capabilities dropped, read-only root filesystem with a `/tmp` tmpfs,
/// and a non-root user.
pub open spec fn hardening_args(user: Seq<char>) -> Seq<Seq<char>> {
    seq![
        "--security-opt"@,
        "no-new-privileges:true"@,
        "--cap-drop"@,
        "ALL"@,
        "--read-only"@,
        "--tmpfs"@,
        "/tmp"@,
        "--user"@,
        user,
    ]
}

pub(crate) fn add_container_hardening_args(args: &mut Vec<String>, user: &str)
    ensures
        views(final(args)@) == views(old(args)@) + hardening_args(user@),
{
    let ghost start = views(args@);
    push_arg(args, "--security-opt");
    push_arg(args, "no-new-privileges:true");
    push_arg(args, "--cap-drop");
    push_arg(args, "ALL");
    push_arg(args, "--read-only");
    push_arg(args, "--tmpfs");
    push_arg(args, "/tmp");
    push_arg(args, "--user");
    push_arg(args, user);
    assert(views(args@) =~= start + hardening_args(user@));
}

/// How a backend container is run.
#[derive(Debug, Clone, Copy)]
pub(crate) struct DockerRunProfile<'a> {
    pub container_name: &'a str,
    pub user: &'a str,
    pub host_port: u16,
    pub container_port: u16,
    pub detach: bool,
    pub gpu_all: bool,
    pub runtime: Option<&'a str>,
}

/// `docker run` flags for a profile, before the backend's own arguments.
pub open spec fn base_run_args(
    container_name: Seq<char>,
    user: Seq<char>,
    host_port: u16,
    container_port: u16,
    detach: bool,
    gpu_all: bool,
    runtime: Option<Seq<char>>,
) -> Seq<Seq<char>> {
    seq!["run"@, "--rm"@, "--name"@, container_name]
        + (match runtime { Some(r) => seq!["--runtime"@, r], None => Seq::empty() })
        + (if gpu_all { seq!["--gpus"@, "all"@] } else { Seq::empty() })
        + seq!["-p"@, decimal(host_port as nat) + ":"@ + decimal(container_port as nat)]
        + hardening_args(user)
        + (if detach { seq!["-d"@] } else { Seq::empty() })
}

pub(crate) fn base_docker_run_args(profile: DockerRunProfile<'_>) -> (r: Vec<String>)
    ensures
        views(r@) == base_run_args(
            profile.container_name@,
            profile.user@,
            profile.host_port,
            profile.container_port,
            profile.detach,
            profile.gpu_all,
            match profile.runtime { Some(r) => Some(r@), None => None },
        ),
{
    let mut args: Vec<String> = Vec::new();
    push_arg(&mut args, "run");
    push_arg(&mut args, "--rm");
    push_arg(&mut args, "--name");
    push_arg(&mut args, profile.container_name);
    let ghost a0 = views(args@);
    if let Some(runtime) = profile.runtime {
        push_arg(&mut args, "--runtime");
        push_arg(&mut args, runtime);
    }
    let ghost a1 = views(args@);
    if profile.gpu_all {
        push_arg(&mut args, "--gpus");
        push_arg(&mut args, "all");
    }
    let ghost a2 = views(args@);
    push_arg(&mut args, "-p");
    let mut mapping = u64_to_string(profile.host_port as u64);
    mapping.append(":");
    mapping.append(u64_to_string(profile.container_port as u64).as_str());
    push_arg(&mut args, mapping.as_str());
    let ghost a3 = views(args@);
    add_container_hardening_args(&mut args, profile.user);
    let ghost a4 = views(args@);
    if profile.detach {
        push_arg(&mut args, "-d");
    }
    proof {
        let rt = match profile.runtime { Some(r) => Some(r@), None => None };
        assert(a0 =~= seq!["run"@, "--rm"@, "--name"@, profile.container_name@]);
        assert(a1 =~= a0 + (match rt { Some(r) => seq!["--runtime"@, r], None => Seq::empty() }));
        assert(a2 =~= a1 + (if profile.gpu_all { seq!["--gpus"@, "all"@] } else { Seq::<Seq<char>>::empty() }));
        assert(a3 =~= a2 + seq!["-p"@, decimal(profile.host_port as nat) + ":"@ + decimal(profile.container_port as nat)]);
        assert(views(args@) =~= a4 + (if profile.detach { seq!["-d"@] } else { Seq::<Seq<char>>::empty() }));
    }
    args
}

/// `-e HF_TOKEN` when a token is configured.
pub open spec fn hf_token_args(present: bool) -> Seq<Seq<char>> {
    if present { seq!["-e"@, "HF_TOKEN"@] } else { Seq::empty() }
}

pub(crate) fn add_optional_hf_token_arg(args: &mut Vec<String>, hf_token: Option<&str>)
    ensures
        views(final(args)@) == views(old(args)@) + hf_token_args(hf_token is Some),
{
    let ghost start = views(args@);
    if hf_token.is_some() {
        push_arg(args, "-e");
        push_arg(args, "HF_TOKEN");
    }
    assert(views(args@) =~= start + hf_token_args(hf_token is Some));
}

/// The environment of a command with `HF_TOKEN` set when a token is given.
pub open spec fn with_hf_token(env: Map<Seq<char>, Seq<char>>, hf_token: Option<Seq<char>>) -> Map<Seq<char>, Seq<char>> {
    match hf_token {
        Some(t) => env.insert("HF_TOKEN"@, t),
        None => env,
    }
}

pub(crate) fn apply_optional_hf_token_env(command: CommandSpec, hf_token: Option<&str>) -> (r: CommandSpec)
    ensures
        r.program == command.program,
        r.args == command.args,
        r.working_dir == command.working_dir,
        r.env_view() == with_hf_token(command.env_view(), match hf_token { Some(t) => Some(t@), None => None }),
        command.well_formed() ==> r.well_formed(),
{
    match hf_token {
        Some(token) => command.env("HF_TOKEN", token),
        None => command,
    }
}

} // verus!
