//! Configuration model: the options of each program, of the daemon and of
//! the client.

use vstd::prelude::*;
use crate::log::Level;

verus! {

/// When a program that exited on its own is started again.
#[derive(Debug, Clone, Copy, PartialEq, Eq, Structural)]
pub enum AutoRestartCondition {
    /// When its exit code is not one of the expected codes
    Unexpected,
    /// Always
    True,
    /// Never
    False,
}

impl AutoRestartCondition {
    /// Restart on unexpected exit codes.
    pub fn default() -> (r: AutoRestartCondition)
        ensures
            r == AutoRestartCondition::Unexpected,
    {
        AutoRestartCondition::Unexpected
    }
}

/// Signal sent to stop a program gracefully.
#[derive(Debug, Clone, Copy, PartialEq, Eq, Structural)]
pub enum StopSignal {
    /// SIGTERM
    Term,
    /// SIGHUP
    Hup,
    /// SIGINT
    Int,
    /// SIGQUIT
    Quit,
    /// SIGKILL
    Kill,
    /// SIGUSR1
    Usr1,
    /// SIGUSR2
    Usr2,
}

impl StopSignal {
    /// SIGTERM.
    pub fn default() -> (r: StopSignal)
        ensures
            r == StopSignal::Term,
    {
        StopSignal::Term
    }
}

/// Where a program's captured output goes.
#[derive(Debug, PartialEq, Eq)]
pub enum OutputLog {
    /// Nowhere
    Off,
    /// To the file at this path
    File(String),
    /// To a path the daemon picks
    Auto,
}

impl OutputLog {
    /// A path the daemon picks.
    pub fn default() -> (r: OutputLog)
        ensures
            r is Auto,
    {
        OutputLog::Auto
    }
}

/// Configuration of one program.
#[derive(Debug)]
pub struct ProcessConfig {
    /// Name, unique among programs
    pub name: String,
    /// Command line: the program and its arguments
    pub command: String,
    /// Number of replicas
    pub num_procs: u16,
    /// Number of replicas started at boot
    pub num_procs_start: u16,
    /// Start and stop order, lower first
    pub priority: u16,
    /// Start when the daemon boots
    pub auto_start: bool,
    /// Seconds a child must stay up to count as running
    pub start_secs: u64,
    /// Failed starts allowed before the program is fatal
    pub start_retries: u8,
    /// Restart policy on exit
    pub auto_restart: AutoRestartCondition,
    /// Exit codes that count as expected
    pub exit_codes: Vec<i32>,
    /// Signal for a graceful stop
    pub stop_signal: StopSignal,
    /// Grace period after the stop signal
    pub stop_wait_secs: u64,
    /// Stop the whole process group
    pub stop_as_group: Option<String>,
    /// Kill the whole process group
    pub kill_as_group: Option<String>,
    /// User to run as
    pub user: Option<String>,
    /// Where standard error is redirected
    pub redirect_stderr: Option<String>,
    /// Sink of standard output
    pub stdout_logfile: OutputLog,
    /// Size at which the standard output log rotates
    pub stdout_logfile_maxbytes: usize,
    /// Rotated standard output logs kept
    pub stdout_logfile_backups: u32,
    /// Standard output bytes kept in memory
    pub stdout_capture_maxbytes: usize,
    /// Emit events on standard output
    pub stdout_events_enabled: bool,
    /// Sink of standard error
    pub stderr_logfile: OutputLog,
    /// Size at which the standard error log rotates
    pub stderr_logfile_maxbytes: usize,
    /// Rotated standard error logs kept
    pub stderr_logfile_backups: u32,
    /// Standard error bytes kept in memory
    pub stderr_capture_maxbytes: usize,
    /// Emit events on standard error
    pub stderr_events_enabled: bool,
    /// `KEY=VALUE` entries laid over the daemon's environment
    pub envs: Option<Vec<String>>,
    /// Working directory of the child
    pub directory: Option<String>,
    /// File mode mask of the child
    pub umask: Option<u16>,
}

/// Default number of replicas.
pub const DEFAULT_NUM_PROCS: u16 = 1;
/// Default priority.
pub const DEFAULT_PRIORITY: u16 = 999;
/// Default seconds before a child counts as running.
pub const DEFAULT_START_SECS: u64 = 1;
/// Default failed starts allowed.
pub const DEFAULT_START_RETRIES: u8 = 3;
/// Default grace period after the stop signal.
pub const DEFAULT_STOP_WAIT_SECS: u64 = 10;
/// Default log size before rotation.
pub const DEFAULT_LOGFILE_MAXBYTES: usize = 50000;
/// Default rotated logs kept.
pub const DEFAULT_LOGFILE_BACKUPS: u32 = 10;

impl ProcessConfig {
    /// The options a program has when its section sets none.
    pub fn default() -> (r: ProcessConfig)
        ensures
            r.name@.len() == 0,
            r.command@.len() == 0,
            r.num_procs == DEFAULT_NUM_PROCS,
            r.num_procs_start == 0,
            r.priority == DEFAULT_PRIORITY,
            r.auto_start,
            r.start_secs == DEFAULT_START_SECS,
            r.start_retries == DEFAULT_START_RETRIES,
            r.auto_restart == AutoRestartCondition::Unexpected,
            r.exit_codes@ == seq![0i32, 2i32],
            r.stop_signal == StopSignal::Term,
            r.stop_wait_secs == DEFAULT_STOP_WAIT_SECS,
            r.stop_as_group is None,
            r.kill_as_group is None,
            r.user is None,
            r.redirect_stderr is None,
            r.stdout_logfile is Auto,
            r.stdout_logfile_maxbytes == DEFAULT_LOGFILE_MAXBYTES,
            r.stdout_logfile_backups == DEFAULT_LOGFILE_BACKUPS,
            r.stdout_capture_maxbytes == 0,
            !r.stdout_events_enabled,
            r.stderr_logfile is Auto,
            r.stderr_logfile_maxbytes == DEFAULT_LOGFILE_MAXBYTES,
            r.stderr_logfile_backups == DEFAULT_LOGFILE_BACKUPS,
            r.stderr_capture_maxbytes == 0,
            !r.stderr_events_enabled,
            r.envs is None,
            r.directory is None,
            r.umask is None,
    {
        let exit_codes = vec![0i32, 2i32];
        assert(exit_codes@ =~= seq![0i32, 2i32]);
        ProcessConfig {
            name: String::new(),
            command: String::new(),
            num_procs: DEFAULT_NUM_PROCS,
            num_procs_start: 0,
            priority: DEFAULT_PRIORITY,
            auto_start: true,
            start_secs: DEFAULT_START_SECS,
            start_retries: DEFAULT_START_RETRIES,
            auto_restart: AutoRestartCondition::default(),
            exit_codes,
            stop_signal: StopSignal::default(),
            stop_wait_secs: DEFAULT_STOP_WAIT_SECS,
            stop_as_group: None,
            kill_as_group: None,
            user: None,
            redirect_stderr: None,
            stdout_logfile: OutputLog::default(),
            stdout_logfile_maxbytes: DEFAULT_LOGFILE_MAXBYTES,
            stdout_logfile_backups: DEFAULT_LOGFILE_BACKUPS,
            stdout_capture_maxbytes: 0,
            stdout_events_enabled: false,
            stderr_logfile: OutputLog::default(),
            stderr_logfile_maxbytes: DEFAULT_LOGFILE_MAXBYTES,
            stderr_logfile_backups: DEFAULT_LOGFILE_BACKUPS,
            stderr_capture_maxbytes: 0,
            stderr_events_enabled: false,
            envs: None,
            directory: None,
            umask: None,
        }
    }
}

/// Configuration of the daemon.
#[derive(Debug)]
pub struct DaemonConfig {
    /// Daemon log file
    pub logfile: String,
    /// Daemon log size before rotation
    pub logfile_maxbytes: usize,
    /// Rotated daemon logs kept
    pub logfile_backups: u16,
    /// Most detailed level written
    pub loglevel: Level,
    /// PID file
    pub pidfile: String,
    /// File mode mask of the daemon
    pub umask: u16,
    /// Stay in the foreground
    pub nodaemon: bool,
    /// Descriptors the daemon needs
    pub minfds: i32,
    /// Keep child logs at exit
    pub nocleanup: bool,
    /// Directory of the children's logs
    pub child_log_dir: String,
}

/// `dir` joined with `file` by a slash.
pub open spec fn join_path(dir: Seq<char>, file: Seq<char>) -> Seq<char> {
    dir + seq!['/'] + file
}

fn path_in(dir: &str, file: &str) -> (r: String)
    ensures
        r@ == join_path(dir@, file@),
{
    let mut s = String::from_str(dir);
    s.append("/");
    proof {
        reveal_strlit("/");
    }
    s.append(file);
    assert(s@ =~= join_path(dir@, file@));
    s
}

impl DaemonConfig {
    /// The daemon's options when its section sets none, with files placed
    /// in `cwd`.
    pub fn default_in(cwd: &str) -> (r: DaemonConfig)
        ensures
            r.logfile@ == join_path(cwd@, "taskmasterd.log"@),
            r.logfile_maxbytes == DEFAULT_LOGFILE_MAXBYTES,
            r.logfile_backups == 10,
            r.loglevel == Level::Info,
            r.pidfile@ == join_path(cwd@, "taskmasterd.pid"@),
            r.umask == 0o022,
            !r.nodaemon,
            r.minfds == 1024,
            !r.nocleanup,
            r.child_log_dir@ == join_path(cwd@, "tmp.5321"@),
    {
        DaemonConfig {
            logfile: path_in(cwd, "taskmasterd.log"),
            logfile_maxbytes: DEFAULT_LOGFILE_MAXBYTES,
            logfile_backups: 10,
            loglevel: Level::Info,
            pidfile: path_in(cwd, "taskmasterd.pid"),
            umask: 0o022,
            nodaemon: false,
            minfds: 1024,
            nocleanup: false,
            child_log_dir: path_in(cwd, "tmp.5321"),
        }
    }
}

/// Configuration of the client.
#[derive(Debug)]
pub struct CtlConfig {
    /// Address of the daemon, `host:port`
    pub server_ip: String,
    /// Prompt shown before each line
    pub prompt: String,
    /// File that keeps the line history
    pub history_file: Option<String>,
}

impl CtlConfig {
    /// The client's options when its section sets none.
    pub fn default() -> (r: CtlConfig)
        ensures
            r.server_ip@ == "127.0.0.1:9450"@,
            r.prompt@ == "taskmaster> "@,
            r.history_file is None,
    {
        CtlConfig {
            server_ip: String::from_str("127.0.0.1:9450"),
            prompt: String::from_str("taskmaster> "),
            history_file: None,
        }
    }
}

/// Whole configuration.
#[derive(Debug)]
pub struct Config {
    /// Daemon section, if present
    pub daemon: Option<DaemonConfig>,
    /// Client section, if present
    pub ctl: Option<CtlConfig>,
    /// Program sections
    pub processes: Vec<ProcessConfig>,
}

impl Config {
    /// No section at all.
    pub fn default() -> (r: Config)
        ensures
            r.daemon is None,
            r.ctl is None,
            r.processes@.len() == 0,
    {
        Config { daemon: None, ctl: None, processes: Vec::new() }
    }

    /// The daemon section.
    pub fn daemon(&self) -> (r: Option<&DaemonConfig>)
        ensures
            r is Some <==> self.daemon is Some,
            r matches Some(d) ==> self.daemon == Some(*d),
    {
        match &self.daemon {
            Some(d) => Some(d),
            None => None,
        }
    }

    /// The client section.
    pub fn ctl(&self) -> (r: Option<&CtlConfig>)
        ensures
            r is Some <==> self.ctl is Some,
            r matches Some(c) ==> self.ctl == Some(*c),
    {
        match &self.ctl {
            Some(c) => Some(c),
            None => None,
        }
    }

    /// The program sections.
    pub fn processes(&self) -> (r: &Vec<ProcessConfig>)
        ensures
            *r == self.processes,
    {
        &self.processes
    }
}

} // verus!
