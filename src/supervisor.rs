//! The set of supervised programs and the operations the control server
//! offers on them.

use vstd::prelude::*;
use crate::config::{ProcessConfig, StopSignal};
use crate::process::{Process, ProcessState, lemma_fail_count_bound, state_text};
use crate::text::{chars_of, chars_eq, string_of};

verus! {

/// One line of the status listing: `name state\n`.
pub open spec fn status_line(p: Process) -> Seq<char> {
    p.config().name@ + seq![' '] + state_text(p.state()) + seq!['\n']
}

/// The status listing: one line per program, in order.
pub open spec fn status_text(ps: Seq<Process>) -> Seq<char>
    decreases ps.len(),
{
    if ps.len() == 0 {
        Seq::empty()
    } else {
        status_text(ps.drop_last()) + status_line(ps.last())
    }
}

/// The captured standard output of every program, concatenated in order.
pub open spec fn log_bytes(ps: Seq<Process>) -> Seq<u8>
    decreases ps.len(),
{
    if ps.len() == 0 {
        Seq::empty()
    } else {
        log_bytes(ps.drop_last()) + ps.last().captured().out_bytes()
    }
}

/// Whether a kill naming `targets` reaches program `p`: every program when
/// no target is named.
pub open spec fn targeted(p: Process, targets: Seq<Seq<char>>) -> bool {
    targets.len() == 0 || targets.contains(p.config().name@)
}

/// The signals a kill naming `targets` sends, in program order: one for
/// each targeted program that is Running.
pub open spec fn kill_signals(ps: Seq<Process>, targets: Seq<Seq<char>>) -> Seq<(i32, StopSignal)>
    decreases ps.len(),
{
    if ps.len() == 0 {
        Seq::empty()
    } else {
        let prev = kill_signals(ps.drop_last(), targets);
        let p = ps.last();
        match p.state() {
            ProcessState::Running(pid) => if targeted(p, targets) {
                prev.push((pid, p.config().stop_signal))
            } else {
                prev
            },
            _ => prev,
        }
    }
}

/// The index of the first program named `name`, if any.
pub open spec fn find_spec(ps: Seq<Process>, name: Seq<char>) -> Option<nat> {
    if exists|i: int| 0 <= i < ps.len() && ps[i].config().name@ == name {
        let i = choose|i: int|
            0 <= i < ps.len() && ps[i].config().name@ == name && forall|j: int|
                0 <= j < i ==> ps[j].config().name@ != name;
        Some(i as nat)
    } else {
        None
    }
}

/// What a kill naming `targets` does to one program: a targeted Running
/// program becomes Stopping, nothing else changes.
pub open spec fn kill_effect(o: Process, n: Process, targets: Seq<Seq<char>>) -> bool {
    &&& n.config() == o.config()
    &&& n.pid() == o.pid()
    &&& n.fail_count() == o.fail_count()
    &&& n.captured() == o.captured()
    &&& n.state() == if o.state() is Running && targeted(o, targets) {
        ProcessState::Stopping
    } else {
        o.state()
    }
}

/// Owner of every supervised program.
pub struct Supervisor {
    processes: Vec<Process>,
}

impl View for Supervisor {
    type V = Seq<Process>;

    closed spec fn view(&self) -> Seq<Process> {
        self.processes@
    }
}

impl Supervisor {
    /// Every program's handle is well formed.
    pub open spec fn wf(&self) -> bool {
        forall|i: int| 0 <= i < self@.len() ==> (#[trigger] self@[i]).wf()
    }

    /// One stopped handle per configured program, in order.
    pub fn new(configs: Vec<ProcessConfig>) -> (r: Supervisor)
        ensures
            r.wf(),
            r@.len() == configs@.len(),
            forall|i: int| 0 <= i < r@.len() ==> (#[trigger] r@[i]).config() == configs@[i]
                && r@[i].state() == ProcessState::Stopped && r@[i].fail_count() == 0
                && r@[i].pid() is None && r@[i].captured().out_bytes().len() == 0,
    {
        let mut processes: Vec<Process> = Vec::new();
        let mut rest = configs;
        let ghost all = rest@;
        // Configurations can only be moved out from the back: reverse them
        // first, then build the handles in configuration order.
        let mut backwards: Vec<ProcessConfig> = Vec::new();
        while rest.len() > 0
            invariant
                all.len() == rest@.len() + backwards@.len(),
                forall|k: int| 0 <= k < rest@.len() ==> rest@[k] == all[k],
                forall|k: int| 0 <= k < backwards@.len() ==> backwards@[k] == all[all.len() - 1 - k],
            decreases rest@.len(),
        {
            let c = rest.pop().unwrap();
            backwards.push(c);
        }
        while backwards.len() > 0
            invariant
                all.len() == processes@.len() + backwards@.len(),
                forall|k: int| 0 <= k < backwards@.len() ==> backwards@[k] == all[all.len() - 1 - k],
                forall|i: int| 0 <= i < processes@.len() ==> (#[trigger] processes@[i]).wf()
                    && processes@[i].config() == all[i] && processes@[i].state()
                    == ProcessState::Stopped && processes@[i].fail_count() == 0
                    && processes@[i].pid() is None && processes@[i].captured().out_bytes().len() == 0,
            decreases backwards@.len(),
        {
            let c = backwards.pop().unwrap();
            processes.push(Process::new(c));
        }
        Supervisor { processes }
    }

    /// Number of programs.
    pub fn len(&self) -> (r: usize)
        ensures
            r == self@.len(),
    {
        self.processes.len()
    }

    /// The program at `i`.
    pub fn process(&self, i: usize) -> (r: &Process)
        requires
            i < self@.len(),
        ensures
            *r == self@[i as int],
    {
        &self.processes[i]
    }

    /// The program at `i`, to report what the operating system did with
    /// it; the other programs stay as they are.
    pub fn process_mut(&mut self, i: usize) -> (r: &mut Process)
        requires
            i < old(self)@.len(),
        ensures
            *r == old(self)@[i as int],
            final(self)@ == old(self)@.update(i as int, *final(r)),
    {
        &mut self.processes[i]
    }

    /// The index of the first program named `name`, if any.
    pub fn find(&self, name: &str) -> (r: Option<usize>)
        ensures
            r matches Some(i) ==> find_spec(self@, name@) == Some(i as nat),
            r is None ==> find_spec(self@, name@) is None,
    {
        let want = chars_of(name);
        let mut i: usize = 0;
        while i < self.processes.len()
            invariant
                i <= self@.len(),
                want@ == name@,
                forall|j: int| 0 <= j < i ==> self@[j].config().name@ != name@,
            decreases self@.len() - i,
        {
            let have = chars_of(self.processes[i].proc_name());
            if chars_eq(have.as_slice(), want.as_slice()) {
                proof {
                    let ps = self@;
                    assert(ps[i as int].config().name@ == name@);
                    let k = choose|k: int|
                        0 <= k < ps.len() && ps[k].config().name@ == name@ && forall|j: int|
                            0 <= j < k ==> ps[j].config().name@ != name@;
                    assert(k == i);
                }
                return Some(i);
            }
            i = i + 1;
        }
        None
    }

    /// The status listing, `name state\n` for each program in order.
    pub fn list_status(&self) -> (r: String)
        ensures
            r@ == status_text(self@),
    {
        let mut out: Vec<char> = Vec::new();
        let mut i: usize = 0;
        while i < self.processes.len()
            invariant
                i <= self@.len(),
                out@ == status_text(self@.subrange(0, i as int)),
            decreases self@.len() - i,
        {
            assert(self@.subrange(0, i + 1).drop_last() =~= self@.subrange(0, i as int));
            self.processes[i].write_status(&mut out);
            out.push('\n');
            i = i + 1;
            assert(out@ =~= status_text(self@.subrange(0, i as int)));
        }
        assert(self@.subrange(0, self@.len() as int) =~= self@);
        string_of(out.as_slice())
    }

    /// The captured standard output of every program, concatenated in
    /// order. The captures stay as they are.
    pub fn drain_logs(&self) -> (r: Vec<u8>)
        ensures
            r@ == log_bytes(self@),
    {
        let mut out: Vec<u8> = Vec::new();
        let mut i: usize = 0;
        while i < self.processes.len()
            invariant
                i <= self@.len(),
                out@ == log_bytes(self@.subrange(0, i as int)),
            decreases self@.len() - i,
        {
            assert(self@.subrange(0, i + 1).drop_last() =~= self@.subrange(0, i as int));
            let bytes = self.processes[i].holder().get_stdout();
            let mut k: usize = 0;
            let ghost before = out@;
            while k < bytes.len()
                invariant
                    k <= bytes@.len(),
                    out@ == before + bytes@.subrange(0, k as int),
                decreases bytes@.len() - k,
            {
                out.push(bytes[k]);
                k = k + 1;
                assert(out@ =~= before + bytes@.subrange(0, k as int));
            }
            assert(bytes@.subrange(0, bytes@.len() as int) =~= bytes@);
            i = i + 1;
        }
        assert(self@.subrange(0, self@.len() as int) =~= self@);
        out
    }

    /// Stops the programs named in `targets`, or every program when there
    /// is none: each targeted Running program becomes Stopping, the others
    /// do not change. The result is the signals to send, in program order.
    pub fn kill(&mut self, targets: &Vec<String>) -> (r: Vec<(i32, StopSignal)>)
        requires
            old(self).wf(),
        ensures
            final(self).wf(),
            final(self)@.len() == old(self)@.len(),
            r@ == kill_signals(old(self)@, targets@.map_values(|t: String| t@)),
            forall|i: int| 0 <= i < old(self)@.len() ==> kill_effect(#[trigger] old(self)@[i], final(self)@[i], targets@.map_values(|t: String| t@)),
    {
        let ghost tv = targets@.map_values(|t: String| t@);
        let ghost start = self@;
        let mut names: Vec<Vec<char>> = Vec::new();
        let mut t: usize = 0;
        while t < targets.len()
            invariant
                t <= targets@.len(),
                tv == targets@.map_values(|t: String| t@),
                names@.map_values(|v: Vec<char>| v@) == tv.subrange(0, t as int),
            decreases targets@.len() - t,
        {
            let ghost before = names@;
            names.push(chars_of(targets[t].as_str()));
            assert(names@.map_values(|v: Vec<char>| v@) =~= before.map_values(|v: Vec<char>| v@).push(tv[t as int]));
            t = t + 1;
            assert(names@.map_values(|v: Vec<char>| v@) =~= tv.subrange(0, t as int));
        }
        assert(tv.subrange(0, tv.len() as int) =~= tv);
        let ghost nv = names@.map_values(|v: Vec<char>| v@);
        let mut out: Vec<(i32, StopSignal)> = Vec::new();
        let mut i: usize = 0;
        while i < self.processes.len()
            invariant
                i <= self@.len(),
                self@.len() == start.len(),
                nv == tv,
                nv == names@.map_values(|v: Vec<char>| v@),
                out@ == kill_signals(start.subrange(0, i as int), tv),
                forall|j: int| 0 <= j < self@.len() ==> (#[trigger] self@[j]).wf(),
                forall|j: int| i <= j < self@.len() ==> self@[j] == start[j],
                forall|j: int| 0 <= j < i ==> kill_effect(#[trigger] start[j], self@[j], tv),
            decreases self@.len() - i,
        {
            assert(start.subrange(0, i + 1).drop_last() =~= start.subrange(0, i as int));
            assert(start.subrange(0, i + 1).last() == start[i as int]);
            let hit = self.is_targeted(i, &names);
            let ghost o = start[i as int];
            if hit {
                let ghost before = self@;
                let mut p = self.processes.remove(i);
                let sig = p.kill();
                self.processes.insert(i, p);
                assert(self@ =~= before.update(i as int, p));
                assert(kill_effect(start[i as int], self@[i as int], tv));
                match sig {
                    Some(s) => out.push(s),
                    None => {},
                }
            }
            i = i + 1;
        }
        assert(start.subrange(0, start.len() as int) =~= start);
        out
    }

    fn is_targeted(&self, i: usize, names: &Vec<Vec<char>>) -> (r: bool)
        requires
            i < self@.len(),
        ensures
            r == targeted(self@[i as int], names@.map_values(|v: Vec<char>| v@)),
    {
        let ghost nv = names@.map_values(|v: Vec<char>| v@);
        if names.len() == 0 {
            return true;
        }
        let have = chars_of(self.processes[i].proc_name());
        let mut k: usize = 0;
        while k < names.len()
            invariant
                k <= names@.len(),
                nv == names@.map_values(|v: Vec<char>| v@),
                have@ == self@[i as int].config().name@,
                forall|j: int| 0 <= j < k ==> nv[j] != have@,
            decreases names@.len() - k,
        {
            if chars_eq(names[k].as_slice(), have.as_slice()) {
                assert(nv[k as int] == have@);
                return true;
            }
            k = k + 1;
        }
        false
    }
}

/// For every child of a well-formed supervisor, `fail_count ≤
/// start_retries`, Backoff only below the budget, and a spent non-zero
/// budget means Fatal.
pub proof fn lemma_every_fail_count_bound(sup: &Supervisor)
    requires
        sup.wf(),
    ensures
        forall|i: int| 0 <= i < sup@.len() ==> {
            let p = #[trigger] sup@[i];
            &&& p.fail_count() <= p.start_retries()
            &&& p.state() == ProcessState::Backoff ==> p.fail_count() < p.start_retries()
            &&& p.fail_count() == p.start_retries() && p.start_retries() > 0 ==> p.state()
                == ProcessState::Fatal
        },
{
    assert forall|i: int| 0 <= i < sup@.len() implies {
        let p = #[trigger] sup@[i];
        &&& p.fail_count() <= p.start_retries()
        &&& p.state() == ProcessState::Backoff ==> p.fail_count() < p.start_retries()
        &&& p.fail_count() == p.start_retries() && p.start_retries() > 0 ==> p.state()
            == ProcessState::Fatal
    } by {
        lemma_fail_count_bound(&sup@[i]);
    }
}

} // verus!
