//! The command a child runs: its words and its environment.

use vstd::prelude::*;
use crate::shell::{shell_words, split_ident};
use crate::text::{chars_of, chars_eq, copy_range, find_char, first_index, lemma_first_index, push_all, string_of};

verus! {

/// The name part of a `KEY=VALUE` entry: what stands before the first `=`.
pub open spec fn env_key(e: Seq<char>) -> Seq<char> {
    e.subrange(0, first_index(e, '=') as int)
}

/// Whether some entry of `entries` sets `key`.
pub open spec fn sets_key(entries: Seq<Seq<char>>, key: Seq<char>) -> bool {
    exists|j: int| 0 <= j < entries.len() && env_key(#[trigger] entries[j]) == key
}

/// The daemon's entries that the configured ones do not override, in
/// order.
pub open spec fn kept_entries(base: Seq<Seq<char>>, extra: Seq<Seq<char>>) -> Seq<Seq<char>>
    decreases base.len(),
{
    if base.len() == 0 {
        Seq::empty()
    } else {
        let prev = kept_entries(base.drop_last(), extra);
        if sets_key(extra, env_key(base.last())) {
            prev
        } else {
            prev.push(base.last())
        }
    }
}

/// The child's environment: the daemon's entries, then the configured
/// ones, which win on a shared key.
pub open spec fn merged_env(base: Seq<Seq<char>>, extra: Seq<Seq<char>>) -> Seq<Seq<char>> {
    kept_entries(base, extra) + extra
}

fn key_part(e: &[char]) -> (r: Vec<char>)
    ensures
        r@ == env_key(e@),
{
    let i = find_char(e, 0, '=');
    proof {
        lemma_first_index(e@, '=', i as nat);
    }
    copy_range(e, 0, i)
}

/// The daemon's environment with the configured entries laid over it.
pub fn merge_env(base: &Vec<String>, extra: &Vec<String>) -> (r: Vec<String>)
    ensures
        r@.map_values(|s: String| s@) == merged_env(
            base@.map_values(|s: String| s@),
            extra@.map_values(|s: String| s@),
        ),
{
    let ghost bv = base@.map_values(|s: String| s@);
    let ghost ev = extra@.map_values(|s: String| s@);
    let mut extra_keys: Vec<Vec<char>> = Vec::new();
    let mut j: usize = 0;
    while j < extra.len()
        invariant
            j <= extra@.len(),
            ev == extra@.map_values(|s: String| s@),
            extra_keys@.len() == j,
            forall|k: int| 0 <= k < j ==> (#[trigger] extra_keys@[k])@ == env_key(ev[k]),
        decreases extra@.len() - j,
    {
        let e = chars_of(extra[j].as_str());
        assert(ev[j as int] == extra@[j as int]@);
        extra_keys.push(key_part(e.as_slice()));
        j = j + 1;
    }
    let mut out: Vec<String> = Vec::new();
    let mut i: usize = 0;
    while i < base.len()
        invariant
            i <= base@.len(),
            bv == base@.map_values(|s: String| s@),
            ev == extra@.map_values(|s: String| s@),
            extra_keys@.len() == ev.len(),
            forall|k: int| 0 <= k < ev.len() ==> (#[trigger] extra_keys@[k])@ == env_key(ev[k]),
            out@.map_values(|s: String| s@) == kept_entries(bv.subrange(0, i as int), ev),
        decreases base@.len() - i,
    {
        assert(bv.subrange(0, i + 1).drop_last() =~= bv.subrange(0, i as int));
        assert(bv[i as int] == base@[i as int]@);
        let e = chars_of(base[i].as_str());
        let key = key_part(e.as_slice());
        let mut hit = false;
        let mut k: usize = 0;
        while k < extra_keys.len()
            invariant
                k <= extra_keys@.len(),
                extra_keys@.len() == ev.len(),
                forall|m: int| 0 <= m < ev.len() ==> (#[trigger] extra_keys@[m])@ == env_key(ev[m]),
                hit == exists|m: int| 0 <= m < k && env_key(#[trigger] ev[m]) == key@,
            decreases extra_keys@.len() - k,
        {
            if chars_eq(extra_keys[k].as_slice(), key.as_slice()) {
                hit = true;
            }
            proof {
                if hit && !(exists|m: int| 0 <= m < k && env_key(#[trigger] ev[m]) == key@) {
                    assert(env_key(ev[k as int]) == key@);
                }
            }
            k = k + 1;
        }
        if !hit {
            let ghost before = out@;
            let s = string_of(e.as_slice());
            out.push(s);
            assert(out@.map_values(|s: String| s@) =~= before.map_values(|s: String| s@).push(s@));
        }
        i = i + 1;
    }
    assert(bv.subrange(0, bv.len() as int) =~= bv);
    let ghost kept = out@.map_values(|s: String| s@);
    let mut t: usize = 0;
    while t < extra.len()
        invariant
            t <= extra@.len(),
            ev == extra@.map_values(|s: String| s@),
            out@.map_values(|s: String| s@) == kept + ev.subrange(0, t as int),
        decreases extra@.len() - t,
    {
        let ghost before = out@;
        let e = chars_of(extra[t].as_str());
        assert(ev[t as int] == extra@[t as int]@);
        let s = string_of(e.as_slice());
        out.push(s);
        assert(out@.map_values(|s: String| s@) =~= before.map_values(|s: String| s@).push(s@));
        t = t + 1;
        assert(out@.map_values(|s: String| s@) =~= kept + ev.subrange(0, t as int));
    }
    assert(ev.subrange(0, ev.len() as int) =~= ev);
    out
}

/// The places `PATH` offers for a bare program name, in order: each
/// directory of the colon-separated list joined with the name. A name
/// holding a `/` is used as it is and gets none.
pub open spec fn path_candidates_spec(path: Seq<char>, name: Seq<char>) -> Seq<Seq<char>> {
    if name.contains('/') {
        Seq::empty()
    } else {
        crate::api::split_on(path, ':').map_values(|d: Seq<char>| d + seq!['/'] + name)
    }
}

/// Where to look for the program `name` along `path`, in order.
pub fn path_candidates(path: &str, name: &str) -> (r: Vec<String>)
    ensures
        r@.map_values(|s: String| s@) == path_candidates_spec(path@, name@),
{
    let n = chars_of(name);
    let slash = find_char(n.as_slice(), 0, '/');
    if slash < n.len() {
        assert(name@.contains('/'));
        let r: Vec<String> = Vec::new();
        assert(r@.map_values(|s: String| s@) =~= Seq::<Seq<char>>::empty());
        return r;
    }
    let p = chars_of(path);
    let dirs = crate::api::split_chars(p.as_slice(), 0, ':');
    assert(p@.subrange(0, p@.len() as int) =~= p@);
    let ghost dv = dirs@.map_values(|v: Vec<char>| v@);
    let ghost want = path_candidates_spec(path@, name@);
    let mut out: Vec<String> = Vec::new();
    let mut i: usize = 0;
    while i < dirs.len()
        invariant
            i <= dirs@.len(),
            dv == dirs@.map_values(|v: Vec<char>| v@),
            want == dv.map_values(|d: Seq<char>| d + seq!['/'] + name@),
            n@ == name@,
            out@.map_values(|s: String| s@) == want.subrange(0, i as int),
        decreases dirs@.len() - i,
    {
        let mut full: Vec<char> = Vec::new();
        push_all(&mut full, dirs[i].as_slice());
        full.push('/');
        push_all(&mut full, n.as_slice());
        assert(dv[i as int] == dirs@[i as int]@);
        assert(full@ =~= want[i as int]);
        let ghost before = out@;
        let s = string_of(full.as_slice());
        out.push(s);
        assert(out@.map_values(|s: String| s@) =~= before.map_values(|s: String| s@).push(s@));
        i = i + 1;
        assert(out@.map_values(|s: String| s@) =~= want.subrange(0, i as int));
    }
    assert(want.subrange(0, want.len() as int) =~= want);
    out
}

/// The command a child runs.
pub struct Command {
    args: Vec<String>,
    env: Vec<String>,
}

impl Command {
    pub closed spec fn spec_args(&self) -> Seq<Seq<char>> {
        self.args@.map_values(|s: String| s@)
    }

    pub closed spec fn spec_env(&self) -> Seq<Seq<char>> {
        self.env@.map_values(|s: String| s@)
    }

    /// The words of `command_str` and the daemon's environment with `envs`
    /// laid over it; `None` when the command has no word.
    pub fn new(command_str: &str, daemon_env: &Vec<String>, envs: &Vec<String>) -> (r: Option<Command>)
        ensures
            r is Some <==> shell_words(command_str@, false).len() > 0,
            r matches Some(c) ==> c.spec_args() == shell_words(command_str@, false) && c.spec_env()
                == merged_env(daemon_env@.map_values(|s: String| s@), envs@.map_values(|s: String| s@)),
    {
        let args = split_ident(command_str);
        if args.len() == 0 {
            return None;
        }
        let env = merge_env(daemon_env, envs);
        Some(Command { args, env })
    }

    /// The program: the first word.
    pub fn program(&self) -> (r: &str)
        requires
            self.spec_args().len() > 0,
        ensures
            r@ == self.spec_args()[0],
    {
        self.args[0].as_str()
    }

    /// All words, the program first.
    pub fn args(&self) -> (r: &Vec<String>)
        ensures
            r@.map_values(|s: String| s@) == self.spec_args(),
    {
        &self.args
    }

    /// The environment, `KEY=VALUE` entries.
    pub fn env(&self) -> (r: &Vec<String>)
        ensures
            r@.map_values(|s: String| s@) == self.spec_env(),
    {
        &self.env
    }
}

} // verus!
