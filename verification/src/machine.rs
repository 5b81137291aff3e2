//! What Gaia knows about the host: Docker, GPU, memory.
//!
//! Memory sizes are held in whole MiB, as the probes report them (a card
//! reporting 24564 MiB has `vram_mib == 24564`); a size in gigabytes is
//! that count over 1024.

use vstd::prelude::*;

use crate::config::{clone_opt_string, opt_view};
use crate::text::{char_is_ws, chars_match_at, chars_of, is_ws, matches_at, push_str, string_of, sub_chars, trim, trim_str, views};

verus! {

#[derive(Debug, Clone)]
pub struct DockerStatus {
    pub installed: bool,
    pub daemon_accessible: bool,
    pub version: Option<String>,
    pub details: Option<String>,
}

#[derive(Debug, Clone)]
pub struct GpuInfo {
    pub name: String,
    /// VRAM in MiB.
    pub vram_mib: u64,
    pub driver_version: Option<String>,
    pub cuda_version: Option<String>,
}

#[derive(Debug, Clone)]
pub struct MachineSpecs {
    pub os_name: String,
    pub kernel_version: Option<String>,
    pub cpu_cores: usize,
    /// Installed RAM in MiB.
    pub ram_total_mib: u64,
    pub docker: DockerStatus,
    pub gpu: Option<GpuInfo>,
    pub hf_token_present: bool,
    pub warnings: Vec<String>,
}

impl MachineSpecs {
    /// VRAM of the detected GPU, in MiB.
    pub fn gpu_vram_gb(&self) -> (r: Option<u64>)
        ensures
            r == match self.gpu {
                Some(g) => Some(g.vram_mib),
                None => None::<u64>,
            },
    {
        match &self.gpu {
            Some(g) => Some(g.vram_mib),
            None => None,
        }
    }
}

/// A size of `mib` MiB in gigabytes, in tenths, rounded to the nearest
/// tenth with ties to even: what `{:.1}` prints of `mib / 1024`.
pub open spec fn mib_tenths(mib: nat) -> nat {
    let q = mib * 10 / 1024;
    let r = mib * 10 % 1024;
    if r > 512 || (r == 512 && q % 2 == 1) { q + 1 } else { q }
}

/// A size in MiB written in gigabytes with one decimal.
pub open spec fn gb_text(mib: nat) -> Seq<char> {
    crate::tui::tenths_text(mib_tenths(mib))
}

pub fn format_gb(mib: u64) -> (r: String)
    ensures
        r@ == gb_text(mib as nat),
{
    let x: u128 = (mib as u128) * 10;
    let q: u128 = x / 1024;
    let rem: u128 = x % 1024;
    let t: u128 = if rem > 512 || (rem == 512 && q % 2 == 1) { q + 1 } else { q };
    assert(t <= mib as u128 + 1);
    let mut s = crate::text::u64_to_string((t / 10) as u64);
    push_str(&mut s, ".");
    push_str(&mut s, crate::text::u64_to_string((t % 10) as u64).as_str());
    s
}


/// What running a probe command gave: whether it succeeded, its trimmed
/// output and error output, or why it could not start.
#[derive(Debug, Clone)]
pub struct ProbeResult {
    pub success: bool,
    pub stdout: String,
    pub stderr: String,
    pub error: Option<String>,
}

/// The first line, trimmed, unless it is empty.
pub open spec fn first_line(value: Seq<char>) -> Option<Seq<char>> {
    let lines = crate::cli::text_lines(value);
    if lines.len() == 0 || trim(lines[0]).len() == 0 {
        None
    } else {
        Some(trim(lines[0]))
    }
}

pub fn trim_line(value: &str) -> (r: Option<String>)
    ensures
        opt_view(r) == first_line(value@),
{
    let lines = crate::cli::split_lines(value);
    if lines.len() == 0 {
        return None;
    }
    let t = trim_str(lines[0].as_str());
    if t.as_str().is_empty() {
        None
    } else {
        Some(t)
    }
}

/// Whether `docker info` is worth running: only when `docker --version`
/// could be run at all.
pub fn docker_info_needed(version_probe: &ProbeResult) -> (r: bool)
    ensures
        r == (version_probe.error is None),
{
    version_probe.error.is_none()
}

/// Docker's status from `docker --version` and, when Docker is there,
/// `docker info`.
pub fn docker_from_probes(version_probe: &ProbeResult, info_probe: &ProbeResult) -> (r: DockerStatus)
    ensures
        version_probe.error is Some ==> !r.installed && !r.daemon_accessible && r.version is None
            && opt_view(r.details) == opt_view(version_probe.error),
        version_probe.error is None ==> {
            &&& r.installed
            &&& r.daemon_accessible == info_probe.success
            &&& opt_view(r.version) == first_line(version_probe.stdout@)
            &&& opt_view(r.details) == if info_probe.success {
                None
            } else if info_probe.error is Some {
                opt_view(info_probe.error)
            } else {
                first_line(info_probe.stderr@)
            }
        },
{
    if version_probe.error.is_some() {
        return DockerStatus {
            installed: false,
            daemon_accessible: false,
            version: None,
            details: clone_opt_string(&version_probe.error),
        };
    }
    DockerStatus {
        installed: true,
        daemon_accessible: info_probe.success,
        version: trim_line(version_probe.stdout.as_str()),
        details: if info_probe.success {
            None
        } else if info_probe.error.is_some() {
            clone_opt_string(&info_probe.error)
        } else {
            trim_line(info_probe.stderr.as_str())
        },
    }
}

/// The fields of the first GPU `nvidia-smi` lists: name, memory as
/// written, driver version.
#[derive(Debug, Clone)]
pub struct GpuQuery {
    pub name: String,
    pub memory_raw: String,
    pub driver_version: Option<String>,
}

/// The comma-separated fields of a line, each trimmed.
pub open spec fn csv_fields(line: Seq<char>) -> Seq<Seq<char>> {
    crate::text::split_pieces(line, ',').map_values(|f: Seq<char>| trim(f))
}

/// Reads the GPU query; the error says why detection gave up.
pub fn parse_gpu_query(probe: &ProbeResult) -> (r: Result<GpuQuery, String>)
    ensures
        probe.error is Some ==> (r matches Err(m) && m@ == "NVIDIA GPU detection skipped ("@ + probe.error->0@ + ")."@),
        probe.error is None && !probe.success ==> (r matches Err(m) && m@ == "NVIDIA GPU detection failed: "@ + {
            let lines = crate::cli::text_lines(probe.stderr@);
            if lines.len() == 0 { "nvidia-smi exited with an error"@ } else { lines[0] }
        }),
        probe.error is None && probe.success ==> {
            let lines = crate::cli::text_lines(probe.stdout@);
            if lines.len() == 0 {
                r matches Err(m) && m@ == "nvidia-smi returned an empty GPU list."@
            } else {
                let f = csv_fields(lines[0]);
                if f.len() < 2 {
                    r matches Err(m) && m@ == "Unable to parse GPU memory."@
                } else {
                    r matches Ok(q) && q.name@ == f[0] && q.memory_raw@ == f[1]
                        && opt_view(q.driver_version) == if f.len() > 2 { Some(f[2]) } else { None }
                }
            }
        },
{
    if let Some(error) = &probe.error {
        let mut m = "NVIDIA GPU detection skipped (".to_owned();
        push_str(&mut m, error.as_str());
        push_str(&mut m, ").");
        return Err(m);
    }
    if !probe.success {
        let lines = crate::cli::split_lines(probe.stderr.as_str());
        let mut m = "NVIDIA GPU detection failed: ".to_owned();
        if lines.len() == 0 {
            push_str(&mut m, "nvidia-smi exited with an error");
        } else {
            push_str(&mut m, lines[0].as_str());
        }
        return Err(m);
    }
    let lines = crate::cli::split_lines(probe.stdout.as_str());
    if lines.len() == 0 {
        return Err("nvidia-smi returned an empty GPU list.".to_owned());
    }
    let fields = crate::text::split_on(lines[0].as_str(), ',');
    proof {
        crate::text::lemma_split_pieces_len(lines@[0]@, ',');
    }
    let ghost fv = views(fields@);
    let name = trim_str(fields[0].as_str());
    if fields.len() < 2 {
        return Err("Unable to parse GPU memory.".to_owned());
    }
    let memory_raw = trim_str(fields[1].as_str());
    let driver_version = if fields.len() > 2 { Some(trim_str(fields[2].as_str())) } else { None };
    Ok(GpuQuery { name, memory_raw, driver_version })
}


/// The first position where `pat` occurs at or after `i` (the length of
/// `s` when it does not).
pub open spec fn next_match(s: Seq<char>, pat: Seq<char>, i: int) -> int
    decreases s.len() - i,
{
    if i >= s.len() || i < 0 {
        s.len() as int
    } else if matches_at(s, i, pat) {
        i
    } else {
        next_match(s, pat, i + 1)
    }
}

/// The first whitespace-separated word.
pub open spec fn first_word(s: Seq<char>) -> Option<Seq<char>> {
    let start = crate::hf_catalog::space_end(s, 0);
    if start >= s.len() {
        None
    } else {
        Some(s.subrange(start, word_end(s, start)))
    }
}

/// The first whitespace position at or after `i`.
pub open spec fn word_end(s: Seq<char>, i: int) -> int
    decreases s.len() - i,
{
    if 0 <= i < s.len() && !is_ws(s[i]) { word_end(s, i + 1) } else { i }
}

/// The CUDA version `nvidia-smi` reports: on the first line that mentions
/// `CUDA Version:`, the first word after it (before any further mention).
pub open spec fn cuda_in(lines: Seq<Seq<char>>) -> Option<Seq<char>>
    decreases lines.len(),
{
    if lines.len() == 0 {
        None
    } else {
        let l = lines[0];
        let pat = "CUDA Version:"@;
        let m = next_match(l, pat, 0);
        if m < l.len() {
            let start = m + pat.len();
            let stop = next_match(l, pat, start);
            first_word(l.subrange(start, if stop > l.len() { l.len() as int } else { stop }))
        } else {
            cuda_in(lines.drop_first())
        }
    }
}

/// `next_match` finds an occurrence at or after `i`, or gives the length.
pub proof fn lemma_next_match(s: Seq<char>, pat: Seq<char>, i: int)
    requires
        0 <= i <= s.len(),
    ensures
        i <= next_match(s, pat, i) <= s.len(),
        next_match(s, pat, i) < s.len() ==> matches_at(s, next_match(s, pat, i), pat),
    decreases s.len() - i,
{
    if i < s.len() && !matches_at(s, i, pat) {
        lemma_next_match(s, pat, i + 1);
    }
}

fn next_match_exec(s: &Vec<char>, pat: &Vec<char>, i: usize) -> (r: usize)
    requires
        i <= s.len(),
    ensures
        r as int == next_match(s@, pat@, i as int),
        i <= r <= s.len(),
{
    let mut j = i;
    while j < s.len() && !chars_match_at(s, j, pat)
        invariant
            i <= j <= s.len(),
            next_match(s@, pat@, i as int) == next_match(s@, pat@, j as int),
        decreases s.len() - j,
    {
        j = j + 1;
    }
    j
}

fn first_word_exec(s: &Vec<char>) -> (r: Option<String>)
    ensures
        opt_view(r) == first_word(s@),
{
    let mut start: usize = 0;
    while start < s.len() && char_is_ws(s[start])
        invariant
            start <= s.len(),
            crate::hf_catalog::space_end(s@, 0) == crate::hf_catalog::space_end(s@, start as int),
        decreases s.len() - start,
    {
        start = start + 1;
    }
    if start >= s.len() {
        return None;
    }
    let mut end = start;
    while end < s.len() && !char_is_ws(s[end])
        invariant
            start <= end <= s.len(),
            word_end(s@, start as int) == word_end(s@, end as int),
        decreases s.len() - end,
    {
        end = end + 1;
    }
    Some(string_of(&sub_chars(s, start, end)))
}

pub fn cuda_version_from(stdout: &str) -> (r: Option<String>)
    ensures
        opt_view(r) == cuda_in(crate::cli::text_lines(stdout@)),
{
    let lines = crate::cli::split_lines(stdout);
    let ghost lv = views(lines@);
    let pat = chars_of("CUDA Version:");
    let mut i: usize = 0;
    assert(lv.skip(0) =~= lv);
    while i < lines.len()
        invariant
            i <= lines.len(),
            lv == views(lines@),
            lv == crate::cli::text_lines(stdout@),
            pat@ == "CUDA Version:"@,
            cuda_in(lv) == cuda_in(lv.skip(i as int)),
        decreases lines.len() - i,
    {
        let l = chars_of(lines[i].as_str());
        proof {
            assert(lv.skip(i as int)[0] == l@);
            assert(lv.skip(i as int).drop_first() =~= lv.skip(i + 1));
        }
        let m = next_match_exec(&l, &pat, 0);
        if m < l.len() {
            proof {
                reveal_strlit("CUDA Version:");
                lemma_next_match(l@, pat@, 0);
                assert(matches_at(l@, m as int, pat@));
            }
            let start = m + pat.len();
            let stop = next_match_exec(&l, &pat, start);
            let fragment = sub_chars(&l, start, stop);
            return first_word_exec(&fragment);
        }
        i = i + 1;
    }
    assert(lv.skip(i as int) =~= Seq::<Seq<char>>::empty());
    None
}

/// The warnings detection adds: the GPU probe's, then Docker's.
pub fn machine_warnings(gpu_warning: Option<String>, docker: &DockerStatus) -> (r: Vec<String>)
    ensures
        views(r@) == (match gpu_warning { Some(w) => seq![w@], None => Seq::empty() }) + if !docker.installed {
            seq!["Docker is not installed."@]
        } else if !docker.daemon_accessible {
            seq!["Docker daemon is not reachable (run as root or configure docker group)."@]
        } else {
            Seq::empty()
        },
{
    let mut w: Vec<String> = Vec::new();
    if let Some(g) = gpu_warning {
        w.push(g);
    }
    let ghost first = views(w@);
    if !docker.installed {
        w.push("Docker is not installed.".to_owned());
    } else if !docker.daemon_accessible {
        w.push("Docker daemon is not reachable (run as root or configure docker group).".to_owned());
    }
    assert(views(w@) =~= (match gpu_warning { Some(g) => seq![g@], None => Seq::<Seq<char>>::empty() }) + if !docker.installed {
        seq!["Docker is not installed."@]
    } else if !docker.daemon_accessible {
        seq!["Docker daemon is not reachable (run as root or configure docker group)."@]
    } else {
        Seq::<Seq<char>>::empty()
    });
    w
}

/// `HF_TOKEN` counts as present when set and not blank.
pub fn token_present(env_value: &Option<String>) -> (r: bool)
    ensures
        r == match env_value {
            Some(v) => trim(v@).len() > 0,
            None => false,
        },
{
    match env_value {
        Some(v) => !trim_str(v.as_str()).as_str().is_empty(),
        None => false,
    }
}

} // verus!
