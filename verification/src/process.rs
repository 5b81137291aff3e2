//! Background processes Gaia starts: where the mock API keeps its pid and
//! log, how its pid file is read, and how it is launched.

use vstd::prelude::*;

use crate::command_spec::CommandSpec;
use crate::selector::digits_value;
use crate::text::{chars_of, decimal, is_ascii_digit, push_str, trim, trim_chars, u64_to_string, views};

verus! {

/// A detached mock API process.
#[derive(Debug, Clone)]
pub struct MockProcessInfo {
    pub pid: u32,
    pub pid_file: String,
    pub log_file: String,
}

/// A detached chatbot development server.
#[derive(Debug, Clone)]
pub struct ChatbotDevServer {
    pub pid: u32,
    pub log_path: String,
}

/// `Path::join`: an absolute `rel` replaces `base`; otherwise one `/`
/// between them.
pub open spec fn joined(base: Seq<char>, rel: Seq<char>) -> Seq<char> {
    if rel.len() > 0 && rel[0] == '/' {
        rel
    } else if base.len() == 0 {
        rel
    } else if base.last() == '/' {
        base + rel
    } else {
        base + "/"@ + rel
    }
}

pub fn join_path(base: &str, rel: &str) -> (r: String)
    ensures
        r@ == joined(base@, rel@),
{
    let rv = chars_of(rel);
    if rv.len() > 0 && rv[0] == '/' {
        return rel.to_owned();
    }
    let b = chars_of(base);
    let mut r = base.to_owned();
    if b.len() > 0 && b[b.len() - 1] != '/' {
        push_str(&mut r, "/");
    }
    push_str(&mut r, rel);
    r
}

/// Where the mock API keeps its state, under the user's configuration
/// directory.
pub struct MockPaths {
    pub state_dir: String,
    pub pid_file: String,
    pub log_file: String,
}

pub open spec fn state_dir_of(config_dir: Seq<char>) -> Seq<char> {
    joined(joined(config_dir, "gaia"@), "state"@)
}

pub fn mock_paths(config_dir: &str) -> (r: MockPaths)
    ensures
        r.state_dir@ == state_dir_of(config_dir@),
        r.pid_file@ == joined(state_dir_of(config_dir@), "mock-api.pid"@),
        r.log_file@ == joined(state_dir_of(config_dir@), "mock-api.log"@),
{
    let gaia = join_path(config_dir, "gaia");
    let state_dir = join_path(gaia.as_str(), "state");
    let pid_file = join_path(state_dir.as_str(), "mock-api.pid");
    let log_file = join_path(state_dir.as_str(), "mock-api.log");
    MockPaths { state_dir, pid_file, log_file }
}

/// The user's configuration directory, from `directories::BaseDirs`.
/// Nothing is claimed of the result: it depends on the environment.
#[verifier::external_body]
fn user_config_dir() -> (r: Option<String>) {
    directories::BaseDirs::new().map(|b| b.config_dir().to_string_lossy().to_string())
}

/// The mock API's paths under the user's configuration directory; refused
/// when no home directory is known.
pub fn mock_state_paths() -> (r: Result<MockPaths, String>)
    ensures
        r matches Err(m) ==> m@ == "Unable to resolve home directory"@,
        r matches Ok(p) ==> exists|dir: Seq<char>| {
            &&& p.state_dir@ == #[trigger] state_dir_of(dir)
            &&& p.pid_file@ == joined(state_dir_of(dir), "mock-api.pid"@)
            &&& p.log_file@ == joined(state_dir_of(dir), "mock-api.log"@)
        },
{
    match user_config_dir() {
        Some(dir) => Ok(mock_paths(dir.as_str())),
        None => Err("Unable to resolve home directory".to_owned()),
    }
}

/// The mock API's log file; refused when no home directory is known.
pub fn mock_log_file() -> (r: Result<String, String>)
    ensures
        r matches Err(m) ==> m@ == "Unable to resolve home directory"@,
        r matches Ok(p) ==> exists|dir: Seq<char>| p@ == joined(#[trigger] state_dir_of(dir), "mock-api.log"@),
{
    match mock_state_paths() {
        Ok(paths) => Ok(paths.log_file),
        Err(e) => Err(e),
    }
}

/// The `/proc` entry of a process.
pub fn proc_path(pid: u32) -> (r: String)
    ensures
        r@ == "/proc/"@ + decimal(pid as nat),
{
    let mut p = "/proc/".to_owned();
    push_str(&mut p, u64_to_string(pid as u64).as_str());
    p
}

/// One or more decimal digits whose value fits in 32 bits.
pub open spec fn parse_digits_u32(d: Seq<char>) -> Option<u32> {
    if d.len() > 0 && (forall|i: int| 0 <= i < d.len() ==> is_ascii_digit(#[trigger] d[i])) && digits_value(d) <= u32::MAX {
        Some(digits_value(d) as u32)
    } else {
        None
    }
}

/// A pid file's content: trimmed, an optional `+`, then digits whose
/// value fits in 32 bits (`u32::from_str`).
pub open spec fn parsed_pid(content: Seq<char>) -> Option<u32> {
    parse_digits_u32(crate::selector::strip_plus(trim(content)))
}

fn parse_u32_chars(s: &Vec<char>) -> (r: Option<u32>)
    ensures
        r == parse_digits_u32(crate::selector::strip_plus(s@)),
{
    let start: usize = if s.len() > 0 && s[0] == '+' { 1 } else { 0 };
    let ghost d = crate::selector::strip_plus(s@);
    assert(d =~= s@.subrange(start as int, s@.len() as int));
    if start >= s.len() {
        return None;
    }
    let mut acc: u64 = 0;
    let mut over = false;
    let mut i = start;
    while i < s.len()
        invariant
            start <= i <= s.len(),
            d == s@.subrange(start as int, s@.len() as int),
            d == crate::selector::strip_plus(s@),
            forall|k: int| 0 <= k < i - start ==> is_ascii_digit(#[trigger] d[k]),
            !over ==> acc == digits_value(d.take(i - start)) && acc <= u32::MAX,
            over ==> digits_value(d.take(i - start)) > u32::MAX,
        decreases s.len() - i,
    {
        let c = s[i];
        if !crate::text::char_is_ascii_digit(c) {
            assert(d[i - start] == c);
            return None;
        }
        proof {
            assert(d.take(i - start + 1).drop_last() =~= d.take(i - start));
            assert(d.take(i - start + 1).last() == c);
        }
        if !over {
            acc = acc * 10 + ((c as u32) - 48) as u64;
            if acc > u32::MAX as u64 {
                over = true;
            }
        }
        i = i + 1;
    }
    assert(d.take(d.len() as int) =~= d);
    if over {
        None
    } else {
        Some(acc as u32)
    }
}

pub fn parse_pid(content: &str) -> (r: Option<u32>)
    ensures
        r == parsed_pid(content@),
{
    let t = trim_chars(&chars_of(content));
    parse_u32_chars(&t)
}

/// The arguments the mock API is relaunched with.
pub open spec fn mock_api_args(host: Seq<char>, port: u16, model_id: Seq<char>, api_key: Seq<char>) -> Seq<Seq<char>> {
    seq!["__mock-api"@, "--host"@, host, "--port"@, decimal(port as nat), "--model"@, model_id, "--api-key"@, api_key]
}

pub fn mock_api_command_args(host: &str, port: u16, model_id: &str, api_key: &str) -> (r: Vec<String>)
    ensures
        views(r@) == mock_api_args(host@, port, model_id@, api_key@),
{
    let mut v: Vec<String> = Vec::new();
    v.push("__mock-api".to_owned());
    v.push("--host".to_owned());
    v.push(host.to_owned());
    v.push("--port".to_owned());
    v.push(u64_to_string(port as u64));
    v.push("--model".to_owned());
    v.push(model_id.to_owned());
    v.push("--api-key".to_owned());
    v.push(api_key.to_owned());
    assert(views(v@) =~= mock_api_args(host@, port, model_id@, api_key@));
    v
}

/// The line shown for a mock dry run.
pub fn mock_dry_run_line(host: &str, port: u16, model_id: &str) -> (r: String)
    ensures
        r@ == "Mock API command: gaia __mock-api --host "@ + host@ + " --port "@ + decimal(port as nat) + " --model "@
            + model_id@ + " --api-key [REDACTED]"@,
{
    let mut l = "Mock API command: gaia __mock-api --host ".to_owned();
    push_str(&mut l, host);
    push_str(&mut l, " --port ");
    push_str(&mut l, u64_to_string(port as u64).as_str());
    push_str(&mut l, " --model ");
    push_str(&mut l, model_id);
    push_str(&mut l, " --api-key [REDACTED]");
    l
}


/// The user's home directory, from `directories::BaseDirs`. Nothing is
/// claimed of the result: it depends on the environment.
#[verifier::external_body]
fn user_home_dir() -> (r: Option<String>) {
    directories::BaseDirs::new().map(|b| b.home_dir().to_string_lossy().to_string())
}

/// A path with a leading `~/` resolved against the home directory, when
/// one is known.
pub open spec fn tilde_expanded(path: Seq<char>, home: Option<Seq<char>>) -> Seq<char> {
    if crate::text::starts_with(path, "~/"@) && home is Some {
        joined(home->0, path.skip(2))
    } else {
        path
    }
}

pub fn expand_tilde_in(path: &str, home: &Option<String>) -> (r: String)
    ensures
        r@ == tilde_expanded(path@, crate::config::opt_view(*home)),
{
    proof {
        reveal_strlit("~/");
    }
    let v = chars_of(path);
    let tilde = chars_of("~/");
    if crate::text::chars_starts_with(&v, &tilde) {
        if let Some(h) = home {
            let rest = crate::text::string_of(&crate::text::sub_chars(&v, 2, v.len()));
            assert(v@.subrange(2, v.len() as int) =~= path@.skip(2));
            return join_path(h.as_str(), rest.as_str());
        }
    }
    path.to_owned()
}

/// `expand_tilde`: resolves a leading `~/` against the user's home.
pub fn expand_tilde(path: &str) -> (r: String)
    ensures
        exists|home: Option<Seq<char>>| r@ == #[trigger] tilde_expanded(path@, home),
{
    let home = user_home_dir();
    expand_tilde_in(path, &home)
}

/// Where Hugging Face caches downloads: under the home directory, else
/// relative to the working directory.
pub open spec fn hf_cache_of(home: Option<Seq<char>>) -> Seq<char> {
    match home {
        Some(h) => joined(joined(h, ".cache"@), "huggingface"@),
        None => ".cache/huggingface"@,
    }
}

pub fn default_hf_cache_dir() -> (r: String)
    ensures
        exists|home: Option<Seq<char>>| r@ == #[trigger] hf_cache_of(home),
{
    let home = user_home_dir();
    let r = match &home {
        Some(h) => join_path(join_path(h.as_str(), ".cache").as_str(), "huggingface"),
        None => ".cache/huggingface".to_owned(),
    };
    assert(r@ == hf_cache_of(crate::config::opt_view(home)));
    r
}

/// Gaia's configuration file, under the user's configuration directory;
/// refused when no home directory is known.
pub fn config_path() -> (r: Result<String, String>)
    ensures
        r matches Err(m) ==> m@ == "Unable to resolve home directory"@,
        r matches Ok(p) ==> exists|dir: Seq<char>| p@ == joined(#[trigger] joined(dir, "gaia"@), "config.toml"@),
{
    match user_config_dir() {
        Some(dir) => Ok(join_path(join_path(dir.as_str(), "gaia").as_str(), "config.toml")),
        None => Err("Unable to resolve home directory".to_owned()),
    }
}

/// The chatbot's development server: `npm run dev` on all interfaces and
/// the given port, run in the chatbot's directory; its log is
/// `gaia-chatbot.log` there.
pub fn dev_server_command(target: &str, port: u16) -> (r: (CommandSpec, String))
    ensures
        r.0.program@ == "npm"@,
        views(r.0.args@) == seq!["run"@, "dev"@, "--"@, "--host"@, "0.0.0.0"@, "--port"@, decimal(port as nat)],
        r.0.env@.len() == 0,
        r.0.working_dir matches Some(d) && d@ == target@,
        r.1@ == joined(target@, "gaia-chatbot.log"@),
{
    let port_text = u64_to_string(port as u64);
    let spec = CommandSpec::new("npm")
        .arg("run")
        .arg("dev")
        .arg("--")
        .arg("--host")
        .arg("0.0.0.0")
        .arg("--port")
        .arg(port_text.as_str())
        .working_dir(target);
    proof {
        reveal_strlit("run");
        reveal_strlit("dev");
        reveal_strlit("--");
        reveal_strlit("--host");
        reveal_strlit("0.0.0.0");
        reveal_strlit("--port");
    }
    assert(views(spec.args@) =~= seq!["run"@, "dev"@, "--"@, "--host"@, "0.0.0.0"@, "--port"@, decimal(port as nat)]);
    (spec, join_path(target, "gaia-chatbot.log"))
}

} // verus!
