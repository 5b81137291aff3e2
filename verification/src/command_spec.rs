//! A description of a process to launch: program, arguments, environment
//! and working directory, with its shell rendering.

use vstd::prelude::*;

use crate::text::{
    char_is_ascii_alnum, chars_of, is_ascii_alnum, join, join_strings, replace_all, replace_str,
    views,
};

verus! {

/// The environment a command carries: later entries override earlier ones.
pub open spec fn env_map(env: Seq<(String, String)>) -> Map<Seq<char>, Seq<char>>
    decreases env.len(),
{
    if env.len() == 0 {
        Map::empty()
    } else {
        env_map(env.drop_last()).insert(env.last().0@, env.last().1@)
    }
}

/// No variable name occurs twice.
pub open spec fn env_keys_unique(env: Seq<(String, String)>) -> bool {
    forall|a: int, b: int| 0 <= a < b < env.len() ==> env[a].0@ != env[b].0@
}

#[derive(Debug, Clone)]
pub struct CommandSpec {
    pub program: String,
    pub args: Vec<String>,
    /// Environment variables, each name at most once.
    pub env: Vec<(String, String)>,
    pub working_dir: Option<String>,
}

impl CommandSpec {
    pub open spec fn well_formed(&self) -> bool {
        env_keys_unique(self.env@)
    }

    pub open spec fn env_view(&self) -> Map<Seq<char>, Seq<char>> {
        env_map(self.env@)
    }

    pub fn new(program: &str) -> (r: Self)
        ensures
            r.well_formed(),
            r.program@ == program@,
            r.args@.len() == 0,
            r.env@.len() == 0,
            r.working_dir is None,
    {
        CommandSpec { program: program.to_owned(), args: Vec::new(), env: Vec::new(), working_dir: None }
    }

    /// Appends one argument.
    pub fn arg(self, arg: &str) -> (r: Self)
        ensures
            r.program@ == self.program@,
            views(r.args@) == views(self.args@).push(arg@),
            r.env@ == self.env@,
            r.working_dir == self.working_dir,
    {
        let mut s = self;
        s.args.push(arg.to_owned());
        proof {
            assert(views(s.args@) =~= views(self.args@).push(arg@));
        }
        s
    }

    /// Appends the given arguments, in order.
    pub fn args(self, args: Vec<String>) -> (r: Self)
        ensures
            r.program@ == self.program@,
            views(r.args@) == views(self.args@) + views(args@),
            r.env@ == self.env@,
            r.working_dir == self.working_dir,
    {
        let mut s = self;
        let mut i: usize = 0;
        while i < args.len()
            invariant
                i <= args.len(),
                s.program == self.program,
                s.env == self.env,
                s.working_dir == self.working_dir,
                views(s.args@) == views(self.args@) + views(args@.subrange(0, i as int)),
            decreases args.len() - i,
        {
            let ghost prev = s.args@;
            s.args.push(args[i].clone());
            i = i + 1;
            proof {
                assert(s.args@ =~= prev.push(args@[i - 1]));
                assert(views(s.args@) =~= views(prev).push(args@[i - 1]@));
                assert(views(args@.subrange(0, i as int)) =~= views(args@.subrange(0, i - 1)).push(args@[i - 1]@));
                assert(views(s.args@) =~= views(self.args@) + views(args@.subrange(0, i as int)));
            }
        }
        assert(args@.subrange(0, args.len() as int) =~= args@);
        s
    }

    /// Sets one environment variable, replacing an earlier value of it.
    pub fn env(self, key: &str, value: &str) -> (r: Self)
        ensures
            r.program == self.program,
            r.args == self.args,
            r.working_dir == self.working_dir,
            r.env_view() == self.env_view().insert(key@, value@),
            self.well_formed() ==> r.well_formed(),
    {
        let k = key.to_owned();
        let mut kept: Vec<(String, String)> = Vec::new();
        let ghost mut origin: Seq<int> = Seq::empty();
        let mut i: usize = 0;
        while i < self.env.len()
            invariant
                i <= self.env.len(),
                k@ == key@,
                env_map(kept@) == env_map(self.env@.subrange(0, i as int)).remove(key@),
                forall|a: int| 0 <= a < kept@.len() ==> #[trigger] kept@[a].0@ != key@,
                origin.len() == kept@.len(),
                forall|a: int| 0 <= a < kept@.len() ==> 0 <= #[trigger] origin[a] < i && kept@[a].0@ == self.env@[origin[a]].0@,
                forall|a: int, b: int| 0 <= a < b < kept@.len() ==> origin[a] < origin[b],
            decreases self.env.len() - i,
        {
            let ghost prefix = self.env@.subrange(0, i as int);
            let ghost kept_old = kept@;
            let entry_key = self.env[i].0.clone();
            if !(entry_key == k) {
                kept.push((entry_key, self.env[i].1.clone()));
                proof {
                    origin = origin.push(i as int);
                }
            }
            i = i + 1;
            proof {
                let next = self.env@.subrange(0, i as int);
                assert(next.drop_last() =~= prefix);
                assert(next.last() == self.env@[i - 1]);
                if kept@.len() > kept_old.len() {
                    assert(kept@.drop_last() =~= kept_old);
                } else {
                    assert(kept@ == kept_old);
                }
                assert(env_map(kept@) =~= env_map(next).remove(key@));
            }
        }
        assert(self.env@.subrange(0, self.env.len() as int) =~= self.env@);
        let ghost before = kept@;
        kept.push((k, value.to_owned()));
        proof {
            assert(kept@.drop_last() =~= before);
            assert(env_map(kept@) =~= env_map(self.env@).insert(key@, value@));
            if self.well_formed() {
                assert forall|a: int, b: int| 0 <= a < b < kept@.len() implies kept@[a].0@ != kept@[b].0@ by {
                    if b < kept@.len() - 1 {
                        assert(origin[a] < origin[b]);
                    }
                }
            }
        }
        CommandSpec { program: self.program, args: self.args, env: kept, working_dir: self.working_dir }
    }

    pub fn working_dir(self, dir: &str) -> (r: Self)
        ensures
            r.program == self.program,
            r.args == self.args,
            r.env == self.env,
            r.working_dir matches Some(d) && d@ == dir@,
    {
        CommandSpec { program: self.program, args: self.args, env: self.env, working_dir: Some(dir.to_owned()) }
    }

    /// The command as one shell line: program and arguments, each quoted
    /// when needed, separated by single spaces.
    pub fn to_shell_string(&self) -> (r: String)
        ensures
            r@ == join(seq![shell_quoted(self.program@)] + views(self.args@).map_values(|a: Seq<char>| shell_quoted(a)), " "@),
    {
        let mut pieces: Vec<String> = Vec::new();
        pieces.push(shell_quote(self.program.as_str()));
        let mut i: usize = 0;
        while i < self.args.len()
            invariant
                i <= self.args.len(),
                views(pieces@) == seq![shell_quoted(self.program@)] + views(self.args@.subrange(0, i as int)).map_values(|a: Seq<char>| shell_quoted(a)),
            decreases self.args.len() - i,
        {
            let ghost prev = pieces@;
            pieces.push(shell_quote(self.args[i].as_str()));
            i = i + 1;
            proof {
                assert(views(pieces@) =~= views(prev).push(shell_quoted(self.args@[i - 1]@)));
                assert(views(self.args@.subrange(0, i as int)) =~= views(self.args@.subrange(0, i - 1)).push(self.args@[i - 1]@));
                assert(views(pieces@) =~= seq![shell_quoted(self.program@)] + views(self.args@.subrange(0, i as int)).map_values(|a: Seq<char>| shell_quoted(a)));
            }
        }
        assert(self.args@.subrange(0, self.args.len() as int) =~= self.args@);
        join_strings(&pieces, " ")
    }
}

/// Characters that need no quoting for a POSIX shell here.
pub open spec fn is_shell_plain(c: char) -> bool {
    is_ascii_alnum(c) || c == '-' || c == '_' || c == '.' || c == '/' || c == '=' || c == ':'
}

/// A value quoted for a POSIX shell: `''` when empty, unchanged when every
/// character is plain, otherwise single-quoted with each `'` written `'\''`.
pub open spec fn shell_quoted(v: Seq<char>) -> Seq<char> {
    if v.len() == 0 {
        "''"@
    } else if forall|i: int| 0 <= i < v.len() ==> is_shell_plain(#[trigger] v[i]) {
        v
    } else {
        "'"@ + replace_all(v, "'"@, "'\\''"@) + "'"@
    }
}

pub fn all_shell_plain(v: &Vec<char>) -> (r: bool)
    ensures
        r == forall|i: int| 0 <= i < v@.len() ==> is_shell_plain(#[trigger] v@[i]),
{
    let mut i: usize = 0;
    while i < v.len()
        invariant
            i <= v.len(),
            forall|k: int| 0 <= k < i ==> is_shell_plain(#[trigger] v@[k]),
        decreases v.len() - i,
    {
        let c = v[i];
        if !(char_is_ascii_alnum(c) || c == '-' || c == '_' || c == '.' || c == '/' || c == '='
            || c == ':') {
            return false;
        }
        i = i + 1;
    }
    true
}

pub fn shell_quote(value: &str) -> (r: String)
    ensures
        r@ == shell_quoted(value@),
{
    let v = chars_of(value);
    if v.len() == 0 {
        return "''".to_owned();
    }
    if all_shell_plain(&v) {
        return value.to_owned();
    }
    proof {
        reveal_strlit("'");
    }
    let mut r = "'".to_owned();
    r.append(replace_str(value, "'", "'\\''").as_str());
    r.append("'");
    r
}

} // verus!
