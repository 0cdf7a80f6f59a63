//! One supervised program: its state machine, restart policy and captured
//! output. The operating-system work (fork, exec, wait, kill) is done by the
//! caller, which reports each outcome here and carries out what comes back.

use vstd::prelude::*;
use crate::config::{AutoRestartCondition, ProcessConfig, StopSignal};
use crate::text::{chars_of, push_all, push_int, int_text};

verus! {

/// State of a supervised program.
#[derive(Debug, Clone, Copy, PartialEq, Eq, Structural)]
pub enum ProcessState {
    /// Forked, not yet up for `start_secs`
    Starting,
    /// Up; the pid of the child
    Running(i32),
    /// A start failed; another attempt is due
    Backoff,
    /// The stop signal was sent
    Stopping,
    /// Not running
    Stopped,
    /// Exited on its own with this code
    Exited(u8),
    /// Too many failed starts
    Fatal,
}

/// How a child ended, as `wait` reported it.
#[derive(Debug, Clone, Copy, PartialEq, Eq, Structural)]
pub enum ExitStatus {
    /// Exited with this code (the low eight bits of the status)
    Exited(u8),
    /// Killed by this signal
    Signaled(i32),
    /// `wait` failed
    Failed,
}

/// The status text of a state, as the `status` verb shows it.
pub open spec fn state_text(s: ProcessState) -> Seq<char> {
    match s {
        ProcessState::Starting => seq!['S', 't', 'a', 'r', 't', 'i', 'n', 'g'],
        ProcessState::Running(pid) => seq!['R', 'u', 'n', 'n', 'i', 'n', 'g', '('] + int_text(
            pid as int,
        ) + seq![')'],
        ProcessState::Backoff => seq!['B', 'a', 'c', 'k', 'o', 'f', 'f'],
        ProcessState::Stopping => seq!['S', 't', 'o', 'p', 'p', 'i', 'n', 'g'],
        ProcessState::Stopped => seq!['S', 't', 'o', 'p', 'p', 'e', 'd'],
        ProcessState::Exited(c) => seq!['E', 'x', 'i', 't', 'e', 'd', '('] + int_text(c as int)
            + seq![')'],
        ProcessState::Fatal => seq!['F', 'a', 't', 'a', 'l'],
    }
}

impl ProcessState {
    /// Appends the status text of this state.
    pub fn write_to(&self, out: &mut Vec<char>)
        ensures
            final(out)@ == old(out)@ + state_text(*self),
    {
        let word = match self {
            ProcessState::Starting => vec!['S', 't', 'a', 'r', 't', 'i', 'n', 'g'],
            ProcessState::Running(_) => vec!['R', 'u', 'n', 'n', 'i', 'n', 'g', '('],
            ProcessState::Backoff => vec!['B', 'a', 'c', 'k', 'o', 'f', 'f'],
            ProcessState::Stopping => vec!['S', 't', 'o', 'p', 'p', 'i', 'n', 'g'],
            ProcessState::Stopped => vec!['S', 't', 'o', 'p', 'p', 'e', 'd'],
            ProcessState::Exited(_) => vec!['E', 'x', 'i', 't', 'e', 'd', '('],
            ProcessState::Fatal => vec!['F', 'a', 't', 'a', 'l'],
        };
        push_all(out, word.as_slice());
        match self {
            ProcessState::Running(pid) => {
                push_int(out, *pid as i64);
                out.push(')');
            },
            ProcessState::Exited(c) => {
                push_int(out, *c as i64);
                out.push(')');
            },
            _ => {},
        }
        assert(final(out)@ =~= old(out)@ + state_text(*self));
    }
}

/// Whether a program that exited on its own with `code` is started again.
pub open spec fn restart_wanted(policy: AutoRestartCondition, expected: Seq<i32>, code: u8) -> bool {
    match policy {
        AutoRestartCondition::True => true,
        AutoRestartCondition::False => false,
        AutoRestartCondition::Unexpected => !expected.contains(code as i32),
    }
}

/// The parent's ends of a child's pipes, and the output read from them.
pub struct ProcessHolder {
    stdin: Option<i32>,
    stdout: Option<i32>,
    stderr: Option<i32>,
    stdout_readed: Vec<u8>,
    stderr_readed: Vec<u8>,
}

impl ProcessHolder {
    pub closed spec fn stdin_fd(&self) -> Option<i32> {
        self.stdin
    }

    pub closed spec fn stdout_fd(&self) -> Option<i32> {
        self.stdout
    }

    pub closed spec fn stderr_fd(&self) -> Option<i32> {
        self.stderr
    }

    /// Everything read from the child's standard output.
    pub closed spec fn out_bytes(&self) -> Seq<u8> {
        self.stdout_readed@
    }

    /// Everything read from the child's standard error.
    pub closed spec fn err_bytes(&self) -> Seq<u8> {
        self.stderr_readed@
    }

    /// No pipe and no output yet.
    pub fn new() -> (r: ProcessHolder)
        ensures
            r.stdin_fd() is None,
            r.stdout_fd() is None,
            r.stderr_fd() is None,
            r.out_bytes().len() == 0,
            r.err_bytes().len() == 0,
    {
        ProcessHolder {
            stdin: None,
            stdout: None,
            stderr: None,
            stdout_readed: Vec::new(),
            stderr_readed: Vec::new(),
        }
    }

    /// Sets the pipe that feeds the child's standard input.
    pub fn stdin(self, fd: i32) -> (r: ProcessHolder)
        ensures
            r.stdin_fd() == Some(fd),
            r.stdout_fd() == self.stdout_fd(),
            r.stderr_fd() == self.stderr_fd(),
            r.out_bytes() == self.out_bytes(),
            r.err_bytes() == self.err_bytes(),
    {
        let mut s = self;
        s.stdin = Some(fd);
        s
    }

    /// Sets the pipe that carries the child's standard output.
    pub fn stdout(self, fd: i32) -> (r: ProcessHolder)
        ensures
            r.stdout_fd() == Some(fd),
            r.stdin_fd() == self.stdin_fd(),
            r.stderr_fd() == self.stderr_fd(),
            r.out_bytes() == self.out_bytes(),
            r.err_bytes() == self.err_bytes(),
    {
        let mut s = self;
        s.stdout = Some(fd);
        s
    }

    /// Sets the pipe that carries the child's standard error.
    pub fn stderr(self, fd: i32) -> (r: ProcessHolder)
        ensures
            r.stderr_fd() == Some(fd),
            r.stdin_fd() == self.stdin_fd(),
            r.stdout_fd() == self.stdout_fd(),
            r.out_bytes() == self.out_bytes(),
            r.err_bytes() == self.err_bytes(),
    {
        let mut s = self;
        s.stderr = Some(fd);
        s
    }

    /// The pipe to the child's standard input, if any.
    pub fn get_stdin(&self) -> (r: Option<i32>)
        ensures
            r == self.stdin_fd(),
    {
        self.stdin
    }

    /// The pipe from the child's standard output, if any.
    pub fn get_stdout_fd(&self) -> (r: Option<i32>)
        ensures
            r == self.stdout_fd(),
    {
        self.stdout
    }

    /// The pipe from the child's standard error, if any.
    pub fn get_stderr_fd(&self) -> (r: Option<i32>)
        ensures
            r == self.stderr_fd(),
    {
        self.stderr
    }

    /// Everything read from the child's standard output.
    pub fn get_stdout(&self) -> (r: &Vec<u8>)
        ensures
            r@ == self.out_bytes(),
    {
        &self.stdout_readed
    }

    /// Everything read from the child's standard error.
    pub fn get_stderr(&self) -> (r: &Vec<u8>)
        ensures
            r@ == self.err_bytes(),
    {
        &self.stderr_readed
    }

    /// Records bytes read from the child's standard output; returns the new
    /// total. The capture only grows.
    pub fn read_stdout(&mut self, bytes: &[u8]) -> (r: usize)
        ensures
            final(self).out_bytes() == old(self).out_bytes() + bytes@,
            final(self).err_bytes() == old(self).err_bytes(),
            final(self).stdin_fd() == old(self).stdin_fd(),
            final(self).stdout_fd() == old(self).stdout_fd(),
            final(self).stderr_fd() == old(self).stderr_fd(),
            r == final(self).out_bytes().len(),
    {
        let mut i: usize = 0;
        while i < bytes.len()
            invariant
                i <= bytes@.len(),
                self.stdout_readed@ == old(self).stdout_readed@ + bytes@.subrange(0, i as int),
                self.stderr_readed@ == old(self).stderr_readed@,
                self.stdin == old(self).stdin,
                self.stdout == old(self).stdout,
                self.stderr == old(self).stderr,
            decreases bytes@.len() - i,
        {
            self.stdout_readed.push(bytes[i]);
            i = i + 1;
            assert(self.stdout_readed@ =~= old(self).stdout_readed@ + bytes@.subrange(0, i as int));
        }
        assert(bytes@.subrange(0, bytes@.len() as int) =~= bytes@);
        self.stdout_readed.len()
    }

    /// Records bytes read from the child's standard error; returns the new
    /// total. The capture only grows.
    pub fn read_stderr(&mut self, bytes: &[u8]) -> (r: usize)
        ensures
            final(self).err_bytes() == old(self).err_bytes() + bytes@,
            final(self).out_bytes() == old(self).out_bytes(),
            final(self).stdin_fd() == old(self).stdin_fd(),
            final(self).stdout_fd() == old(self).stdout_fd(),
            final(self).stderr_fd() == old(self).stderr_fd(),
            r == final(self).err_bytes().len(),
    {
        let mut i: usize = 0;
        while i < bytes.len()
            invariant
                i <= bytes@.len(),
                self.stderr_readed@ == old(self).stderr_readed@ + bytes@.subrange(0, i as int),
                self.stdout_readed@ == old(self).stdout_readed@,
                self.stdin == old(self).stdin,
                self.stdout == old(self).stdout,
                self.stderr == old(self).stderr,
            decreases bytes@.len() - i,
        {
            self.stderr_readed.push(bytes[i]);
            i = i + 1;
            assert(self.stderr_readed@ =~= old(self).stderr_readed@ + bytes@.subrange(0, i as int));
        }
        assert(bytes@.subrange(0, bytes@.len() as int) =~= bytes@);
        self.stderr_readed.len()
    }

    /// Forgets the pipes and returns those that were open, for the caller
    /// to close. The captured output stays.
    pub fn take_fds(&mut self) -> (r: Vec<i32>)
        ensures
            final(self).stdin_fd() is None,
            final(self).stdout_fd() is None,
            final(self).stderr_fd() is None,
            final(self).out_bytes() == old(self).out_bytes(),
            final(self).err_bytes() == old(self).err_bytes(),
            forall|fd: i32| r@.contains(fd) <==> (old(self).stdin_fd() == Some(fd)
                || old(self).stdout_fd() == Some(fd) || old(self).stderr_fd() == Some(fd)),
    {
        let mut r: Vec<i32> = Vec::new();
        if let Some(fd) = self.stdin {
            r.push(fd);
        }
        if let Some(fd) = self.stdout {
            r.push(fd);
        }
        if let Some(fd) = self.stderr {
            r.push(fd);
        }
        let ghost o = *old(self);
        assert forall|fd: i32| r@.contains(fd) <==> (o.stdin == Some(fd) || o.stdout == Some(fd)
            || o.stderr == Some(fd)) by {
            if o.stdin == Some(fd) {
                assert(r@[0] == fd);
            }
            if o.stdout == Some(fd) {
                let k: int = if o.stdin is Some { 1 } else { 0 };
                assert(r@[k] == fd);
            }
            if o.stderr == Some(fd) {
                let k: int = (if o.stdin is Some { 1int } else { 0 }) + (if o.stdout is Some { 1int } else { 0 });
                assert(r@[k] == fd);
            }
        }
        self.stdin = None;
        self.stdout = None;
        self.stderr = None;
        r
    }
}

/// What the caller must do after a child was reaped.
pub struct Reaped {
    /// Start the program again
    pub respawn: bool,
    /// Pipe ends to close
    pub close: Vec<i32>,
}

/// A supervised program.
pub struct Process {
    config: ProcessConfig,
    state: ProcessState,
    pid: Option<i32>,
    count_fail: u8,
    holder: ProcessHolder,
}

impl Process {
    pub closed spec fn state(&self) -> ProcessState {
        self.state
    }

    /// The pid of the current child, if one is alive.
    pub closed spec fn pid(&self) -> Option<i32> {
        self.pid
    }

    /// Failed starts since the program last ran.
    pub closed spec fn fail_count(&self) -> nat {
        self.count_fail as nat
    }

    pub closed spec fn config(&self) -> ProcessConfig {
        self.config
    }

    pub closed spec fn captured(&self) -> ProcessHolder {
        self.holder
    }

    pub open spec fn start_retries(&self) -> nat {
        self.config().start_retries as nat
    }

    /// The handle's invariant.
    pub closed spec fn wf(&self) -> bool {
        &&& self.count_fail <= self.config.start_retries
        &&& (self.count_fail == self.config.start_retries && self.config.start_retries > 0)
            ==> self.state == ProcessState::Fatal
        &&& self.state == ProcessState::Backoff ==> self.count_fail < self.config.start_retries
        &&& self.state matches ProcessState::Running(p) ==> self.pid == Some(p)
        &&& self.state == ProcessState::Stopping ==> self.pid is Some
        &&& (self.state == ProcessState::Stopped || self.state == ProcessState::Backoff
            || self.state is Exited || self.state == ProcessState::Fatal) ==> self.pid is None
    }

    /// A stopped handle for the program `config` describes.
    pub fn new(config: ProcessConfig) -> (r: Process)
        ensures
            r.wf(),
            r.state() == ProcessState::Stopped,
            r.pid() is None,
            r.fail_count() == 0,
            r.config() == config,
            r.captured().out_bytes().len() == 0,
            r.captured().err_bytes().len() == 0,
    {
        Process {
            config,
            state: ProcessState::Stopped,
            pid: None,
            count_fail: 0,
            holder: ProcessHolder::new(),
        }
    }

    /// The program's name.
    pub fn proc_name(&self) -> (r: &str)
        ensures
            r@ == self.config().name@,
    {
        self.config.name.as_str()
    }

    /// The program's configuration.
    pub fn get_config(&self) -> (r: &ProcessConfig)
        ensures
            *r == self.config(),
    {
        &self.config
    }

    /// The current state.
    pub fn get_state(&self) -> (r: ProcessState)
        ensures
            r == self.state(),
    {
        self.state
    }

    /// The pid of the current child, if one is alive.
    pub fn get_pid(&self) -> (r: Option<i32>)
        ensures
            r == self.pid(),
    {
        self.pid
    }

    /// Failed starts since the program last ran.
    pub fn get_fail_count(&self) -> (r: u8)
        ensures
            r as nat == self.fail_count(),
    {
        self.count_fail
    }

    /// The pipes and the captured output.
    pub fn holder(&self) -> (r: &ProcessHolder)
        ensures
            *r == self.captured(),
    {
        &self.holder
    }

    /// Records bytes read from the child's standard output; returns the new
    /// total.
    pub fn read_stdout(&mut self, bytes: &[u8]) -> (r: usize)
        requires
            old(self).wf(),
        ensures
            final(self).wf(),
            final(self).state() == old(self).state(),
            final(self).pid() == old(self).pid(),
            final(self).fail_count() == old(self).fail_count(),
            final(self).config() == old(self).config(),
            final(self).captured().out_bytes() == old(self).captured().out_bytes() + bytes@,
            final(self).captured().err_bytes() == old(self).captured().err_bytes(),
            final(self).captured().stdin_fd() == old(self).captured().stdin_fd(),
            r == final(self).captured().out_bytes().len(),
    {
        self.holder.read_stdout(bytes)
    }

    /// Records bytes read from the child's standard error; returns the new
    /// total.
    pub fn read_stderr(&mut self, bytes: &[u8]) -> (r: usize)
        requires
            old(self).wf(),
        ensures
            final(self).wf(),
            final(self).state() == old(self).state(),
            final(self).pid() == old(self).pid(),
            final(self).fail_count() == old(self).fail_count(),
            final(self).config() == old(self).config(),
            final(self).captured().err_bytes() == old(self).captured().err_bytes() + bytes@,
            final(self).captured().out_bytes() == old(self).captured().out_bytes(),
            final(self).captured().stdin_fd() == old(self).captured().stdin_fd(),
            r == final(self).captured().err_bytes().len(),
    {
        self.holder.read_stderr(bytes)
    }

    /// The words of the program's command.
    pub fn argv(&self) -> (r: Vec<String>)
        ensures
            r@.map_values(|w: String| w@) == crate::shell::shell_words(self.config().command@, false),
    {
        crate::shell::split_ident(self.config.command.as_str())
    }

    /// Begins a start: from Stopped, Backoff or Exited the handle becomes
    /// Starting (the failure count restarts from Stopped) and `true` tells
    /// the caller to create the pipes and fork. From any other state
    /// nothing changes and the result is `false`.
    pub fn spawn(&mut self) -> (r: bool)
        requires
            old(self).wf(),
        ensures
            final(self).wf(),
            final(self).config() == old(self).config(),
            final(self).captured() == old(self).captured(),
            r == (old(self).state() == ProcessState::Stopped || old(self).state() == ProcessState::Backoff
                || old(self).state() is Exited),
            r ==> final(self).state() == ProcessState::Starting && final(self).pid() is None,
            r ==> final(self).fail_count() == if old(self).state() == ProcessState::Stopped {
                0
            } else {
                old(self).fail_count()
            },
            !r ==> final(self).state() == old(self).state() && final(self).pid() == old(self).pid()
                && final(self).fail_count() == old(self).fail_count(),
    {
        match self.state {
            ProcessState::Stopped => {
                self.count_fail = 0;
            },
            ProcessState::Backoff | ProcessState::Exited(_) => {},
            _ => {
                return false;
            },
        }
        self.state = ProcessState::Starting;
        self.pid = None;
        true
    }

    fn handle_fail(&mut self)
        requires
            old(self).wf(),
            old(self).state() == ProcessState::Starting,
        ensures
            final(self).wf(),
            final(self).config() == old(self).config(),
            final(self).captured() == old(self).captured(),
            final(self).pid() is None,
            old(self).fail_count() + 1 < old(self).start_retries() ==> final(self).state()
                == ProcessState::Backoff && final(self).fail_count() == old(self).fail_count() + 1,
            old(self).fail_count() + 1 >= old(self).start_retries() ==> final(self).state()
                == ProcessState::Fatal && final(self).fail_count() == old(self).start_retries(),
    {
        if (self.count_fail as u16) + 1 < self.config.start_retries as u16 {
            self.count_fail = self.count_fail + 1;
            self.state = ProcessState::Backoff;
        } else {
            self.count_fail = self.config.start_retries;
            self.state = ProcessState::Fatal;
        }
        self.pid = None;
    }

    /// Pipe creation or fork failed: the start counts as failed. The handle
    /// goes to Backoff while failures stay under `start_retries`, else to
    /// Fatal; `true` asks for another attempt. Outside Starting nothing
    /// changes and the result is `false`.
    pub fn spawn_failed(&mut self) -> (r: bool)
        requires
            old(self).wf(),
        ensures
            final(self).wf(),
            final(self).config() == old(self).config(),
            final(self).captured() == old(self).captured(),
            old(self).state() != ProcessState::Starting ==> final(self).state() == old(self).state()
                && final(self).pid() == old(self).pid() && final(self).fail_count()
                == old(self).fail_count() && !r,
            old(self).state() == ProcessState::Starting ==> final(self).pid() is None
                && final(self).state() == (if old(self).fail_count() + 1 < old(self).start_retries() {
                    ProcessState::Backoff
                } else {
                    ProcessState::Fatal
                }) && r == (final(self).state() == ProcessState::Backoff),
    {
        if self.state != ProcessState::Starting {
            return false;
        }
        self.handle_fail();
        self.state == ProcessState::Backoff
    }

    /// The fork succeeded with child `pid` and these pipe ends. With
    /// `start_secs = 0` the program is Running at once (and its failure
    /// count restarts); otherwise it stays Starting until `confirm_running`.
    /// Outside Starting, or when a child is already recorded, nothing
    /// changes and the result is `false`.
    pub fn forked(&mut self, pid: i32, stdin: i32, stdout: i32, stderr: i32) -> (r: bool)
        requires
            old(self).wf(),
        ensures
            final(self).wf(),
            final(self).config() == old(self).config(),
            r == (old(self).state() == ProcessState::Starting && old(self).pid() is None),
            !r ==> final(self).state() == old(self).state() && final(self).pid() == old(self).pid()
                && final(self).fail_count() == old(self).fail_count() && final(self).captured()
                == old(self).captured(),
            r ==> final(self).pid() == Some(pid),
            r ==> final(self).state() == if old(self).config().start_secs == 0 {
                ProcessState::Running(pid)
            } else {
                ProcessState::Starting
            },
            r ==> final(self).fail_count() == if old(self).config().start_secs == 0 {
                0
            } else {
                old(self).fail_count()
            },
            r ==> final(self).captured().stdin_fd() == Some(stdin) && final(self).captured().stdout_fd()
                == Some(stdout) && final(self).captured().stderr_fd() == Some(stderr),
            final(self).captured().out_bytes() == old(self).captured().out_bytes(),
            final(self).captured().err_bytes() == old(self).captured().err_bytes(),
    {
        if self.state != ProcessState::Starting || self.pid.is_some() {
            return false;
        }
        let mut h = ProcessHolder::new();
        std::mem::swap(&mut h, &mut self.holder);
        self.holder = h.stdin(stdin).stdout(stdout).stderr(stderr);
        self.pid = Some(pid);
        if self.config.start_secs == 0 {
            self.state = ProcessState::Running(pid);
            self.count_fail = 0;
        }
        true
    }

    /// The child `pid` stayed up for `start_secs`: a Starting handle with
    /// that child becomes Running and its failure count restarts. Otherwise
    /// nothing changes.
    pub fn confirm_running(&mut self, pid: i32) -> (r: bool)
        requires
            old(self).wf(),
        ensures
            final(self).wf(),
            final(self).config() == old(self).config(),
            final(self).captured() == old(self).captured(),
            final(self).pid() == old(self).pid(),
            r == (old(self).state() == ProcessState::Starting && old(self).pid() == Some(pid)),
            r ==> final(self).state() == ProcessState::Running(pid) && final(self).fail_count() == 0,
            !r ==> final(self).state() == old(self).state() && final(self).fail_count()
                == old(self).fail_count(),
    {
        if self.state == ProcessState::Starting && self.pid == Some(pid) {
            self.state = ProcessState::Running(pid);
            self.count_fail = 0;
            true
        } else {
            false
        }
    }

    /// Asks a Running program to stop: the handle becomes Stopping and the
    /// result is the pid and signal the caller must send. In any other
    /// state nothing changes and the result is `None`.
    pub fn kill(&mut self) -> (r: Option<(i32, StopSignal)>)
        requires
            old(self).wf(),
        ensures
            final(self).wf(),
            final(self).config() == old(self).config(),
            final(self).captured() == old(self).captured(),
            final(self).pid() == old(self).pid(),
            final(self).fail_count() == old(self).fail_count(),
            !(final(self).state() is Running),
            old(self).state() matches ProcessState::Running(p) ==> final(self).state()
                == ProcessState::Stopping && r == Some((p, old(self).config().stop_signal)),
            !(old(self).state() is Running) ==> final(self).state() == old(self).state() && r is None,
    {
        match self.state {
            ProcessState::Running(pid) => {
                self.state = ProcessState::Stopping;
                Some((pid, self.config.stop_signal))
            },
            _ => None,
        }
    }

    /// The explicit start of a Fatal program: the handle becomes Stopped
    /// with no failure counted, ready for `spawn`. Otherwise nothing
    /// changes.
    pub fn reset(&mut self) -> (r: bool)
        requires
            old(self).wf(),
        ensures
            final(self).wf(),
            final(self).config() == old(self).config(),
            final(self).captured() == old(self).captured(),
            final(self).pid() == old(self).pid(),
            r == (old(self).state() == ProcessState::Fatal),
            r ==> final(self).state() == ProcessState::Stopped && final(self).fail_count() == 0,
            !r ==> final(self).state() == old(self).state() && final(self).fail_count()
                == old(self).fail_count(),
    {
        if self.state == ProcessState::Fatal {
            self.state = ProcessState::Stopped;
            self.count_fail = 0;
            true
        } else {
            false
        }
    }

    /// Records that child `pid` ended with `status`. Only the handle's own
    /// current child is taken; any other pid changes nothing, so a child is
    /// never accounted for twice. The pipes go back to the caller to close.
    /// - Starting: an exit before `start_secs` is a failed start (Backoff or
    ///   Fatal, as in `spawn_failed`).
    /// - Running: an exit with a code becomes `Exited(code)` when the
    ///   restart policy asks for a new start, else Stopped; a death by
    ///   signal gives Stopped, restarted unless the policy is `False`; a
    ///   failed wait gives Stopped.
    /// - Stopping: Stopped, never restarted.
    pub fn track_state(&mut self, pid: i32, status: ExitStatus) -> (r: Reaped)
        requires
            old(self).wf(),
        ensures
            final(self).wf(),
            final(self).config() == old(self).config(),
            final(self).captured().out_bytes() == old(self).captured().out_bytes(),
            final(self).captured().err_bytes() == old(self).captured().err_bytes(),
            old(self).pid() != Some(pid) ==> final(self).state() == old(self).state()
                && final(self).pid() == old(self).pid() && final(self).fail_count()
                == old(self).fail_count() && final(self).captured() == old(self).captured()
                && !r.respawn && r.close@.len() == 0,
            old(self).pid() == Some(pid) ==> final(self).pid() is None
                && final(self).captured().stdin_fd() is None
                && final(self).captured().stdout_fd() is None
                && final(self).captured().stderr_fd() is None
                && (forall|fd: i32| r.close@.contains(fd) <==> (old(self).captured().stdin_fd()
                    == Some(fd) || old(self).captured().stdout_fd() == Some(fd)
                    || old(self).captured().stderr_fd() == Some(fd))),
            old(self).pid() == Some(pid) && old(self).state() == ProcessState::Starting ==> {
                &&& final(self).state() == (if old(self).fail_count() + 1 < old(self).start_retries() {
                    ProcessState::Backoff
                } else {
                    ProcessState::Fatal
                })
                &&& r.respawn == (final(self).state() == ProcessState::Backoff)
            },
            old(self).pid() == Some(pid) && old(self).state() is Running ==> {
                &&& final(self).fail_count() == old(self).fail_count()
                &&& match status {
                    ExitStatus::Exited(code) => {
                        &&& r.respawn == restart_wanted(
                            old(self).config().auto_restart,
                            old(self).config().exit_codes@,
                            code,
                        )
                        &&& final(self).state() == if r.respawn {
                            ProcessState::Exited(code)
                        } else {
                            ProcessState::Stopped
                        }
                    },
                    ExitStatus::Signaled(_) => {
                        &&& final(self).state() == ProcessState::Stopped
                        &&& r.respawn == (old(self).config().auto_restart
                            != AutoRestartCondition::False)
                    },
                    ExitStatus::Failed => final(self).state() == ProcessState::Stopped && !r.respawn,
                }
            },
            old(self).pid() == Some(pid) && old(self).state() == ProcessState::Stopping
                ==> final(self).state() == ProcessState::Stopped && final(self).fail_count() == old(self).fail_count()
                && !r.respawn,
    {
        if self.pid != Some(pid) {
            return Reaped { respawn: false, close: Vec::new() };
        }
        let close = self.holder.take_fds();
        let respawn = match self.state {
            ProcessState::Starting => {
                self.handle_fail();
                self.state == ProcessState::Backoff
            },
            ProcessState::Running(_) => {
                match status {
                    ExitStatus::Exited(code) => {
                        let again = self.restart_wanted(code);
                        if again {
                            self.state = ProcessState::Exited(code);
                        } else {
                            self.state = ProcessState::Stopped;
                        }
                        again
                    },
                    ExitStatus::Signaled(_) => {
                        self.state = ProcessState::Stopped;
                        self.config.auto_restart != AutoRestartCondition::False
                    },
                    ExitStatus::Failed => {
                        self.state = ProcessState::Stopped;
                        false
                    },
                }
            },
            _ => {
                self.state = ProcessState::Stopped;
                false
            },
        };
        self.pid = None;
        Reaped { respawn, close }
    }

    fn restart_wanted(&self, code: u8) -> (r: bool)
        ensures
            r == restart_wanted(self.config.auto_restart, self.config.exit_codes@, code),
    {
        match self.config.auto_restart {
            AutoRestartCondition::True => true,
            AutoRestartCondition::False => false,
            AutoRestartCondition::Unexpected => {
                let mut i: usize = 0;
                while i < self.config.exit_codes.len()
                    invariant
                        i <= self.config.exit_codes@.len(),
                        self.config.auto_restart == AutoRestartCondition::Unexpected,
                        forall|j: int| 0 <= j < i ==> self.config.exit_codes@[j] != code as i32,
                    decreases self.config.exit_codes@.len() - i,
                {
                    if self.config.exit_codes[i] == code as i32 {
                        assert(self.config.exit_codes@[i as int] == code as i32);
                        assert(self.config.exit_codes@.contains(code as i32));
                        return false;
                    }
                    i = i + 1;
                }
                true
            },
        }
    }

    /// Appends `name state` for the status listing.
    pub fn write_status(&self, out: &mut Vec<char>)
        ensures
            final(out)@ == old(out)@ + self.config().name@ + seq![' '] + state_text(self.state()),
    {
        let name = chars_of(self.config.name.as_str());
        push_all(out, name.as_slice());
        out.push(' ');
        self.state.write_to(out);
        assert(final(out)@ =~= old(out)@ + self.config().name@ + seq![' '] + state_text(self.state()));
    }
}

/// Every handle keeps `fail_count ≤ start_retries`, never sits in Backoff
/// with the budget spent, and once a non-zero budget is spent it is Fatal.
pub proof fn lemma_fail_count_bound(p: &Process)
    requires
        p.wf(),
    ensures
        p.fail_count() <= p.start_retries(),
        p.state() == ProcessState::Backoff ==> p.fail_count() < p.start_retries(),
        p.fail_count() == p.start_retries() && p.start_retries() > 0 ==> p.state()
            == ProcessState::Fatal,
{
}

/// Only Starting, Running and Stopping handles own a child.
pub proof fn lemma_child_owned(p: &Process)
    requires
        p.wf(),
    ensures
        p.pid() is Some ==> (p.state() == ProcessState::Starting || p.state() is Running
            || p.state() == ProcessState::Stopping),
        p.state() matches ProcessState::Running(q) ==> p.pid() == Some(q),
{
}

} // verus!
