//! Reading the configuration from INI text: `[taskmasterd]`,
//! `[taskmasterctl]` and one `[program:NAME]` section per program.

use vstd::prelude::*;
use crate::api::{split_on, split_chars};
use crate::config::{
    AutoRestartCondition, Config, CtlConfig, DaemonConfig, OutputLog, ProcessConfig, StopSignal,
    join_path,
};
use crate::log::{Level, level_of_text};
use crate::number::{parse_bounded, parse_int_in, parse_i32, parse_max};
use crate::parser::{IniParser, IniValue};
use crate::text::{chars_of, chars_eq, string_of, first_index, find_char, copy_range, lemma_first_index};

verus! {

/// The lower-case form of a text, as `str::to_lowercase` gives it.
pub uninterp spec fn lower_of(s: Seq<char>) -> Seq<char>;

/// Relies on `str::to_lowercase`: the result depends on the characters alone.
#[verifier::external_body]
fn lowercase(s: &str) -> (r: String)
    ensures
        r@ == lower_of(s@),
{
    s.to_lowercase()
}

fn is_word(a: &[char], lit: &str) -> (r: bool)
    ensures
        r == (a@ == lit@),
{
    let b = chars_of(lit);
    chars_eq(a, b.as_slice())
}

/// Where a capture goes, as the options describe it.
pub enum LogTarget {
    Off,
    File(Seq<char>),
    Auto,
}

pub open spec fn log_view(o: OutputLog) -> LogTarget {
    match o {
        OutputLog::Off => LogTarget::Off,
        OutputLog::File(p) => LogTarget::File(p@),
        OutputLog::Auto => LogTarget::Auto,
    }
}

pub open spec fn opt_view(o: Option<String>) -> Option<Seq<char>> {
    match o {
        Some(s) => Some(s@),
        None => None,
    }
}

pub open spec fn envs_view(o: Option<Vec<String>>) -> Option<Seq<Seq<char>>> {
    match o {
        Some(v) => Some(v@.map_values(|s: String| s@)),
        None => None,
    }
}

/// The options of one program, as values.
pub struct ProcessOptions {
    pub name: Seq<char>,
    pub command: Seq<char>,
    pub num_procs: u16,
    pub num_procs_start: u16,
    pub priority: u16,
    pub auto_start: bool,
    pub start_secs: u64,
    pub start_retries: u8,
    pub auto_restart: AutoRestartCondition,
    pub exit_codes: Seq<i32>,
    pub stop_signal: StopSignal,
    pub stop_wait_secs: u64,
    pub stop_as_group: Option<Seq<char>>,
    pub kill_as_group: Option<Seq<char>>,
    pub user: Option<Seq<char>>,
    pub redirect_stderr: Option<Seq<char>>,
    pub stdout_logfile: LogTarget,
    pub stdout_logfile_maxbytes: usize,
    pub stdout_logfile_backups: u32,
    pub stdout_capture_maxbytes: usize,
    pub stdout_events_enabled: bool,
    pub stderr_logfile: LogTarget,
    pub stderr_logfile_maxbytes: usize,
    pub stderr_logfile_backups: u32,
    pub stderr_capture_maxbytes: usize,
    pub stderr_events_enabled: bool,
    pub envs: Option<Seq<Seq<char>>>,
    pub directory: Option<Seq<char>>,
    pub umask: Option<u16>,
}

impl View for ProcessConfig {
    type V = ProcessOptions;

    open spec fn view(&self) -> ProcessOptions {
        ProcessOptions {
            name: self.name@,
            command: self.command@,
            num_procs: self.num_procs,
            num_procs_start: self.num_procs_start,
            priority: self.priority,
            auto_start: self.auto_start,
            start_secs: self.start_secs,
            start_retries: self.start_retries,
            auto_restart: self.auto_restart,
            exit_codes: self.exit_codes@,
            stop_signal: self.stop_signal,
            stop_wait_secs: self.stop_wait_secs,
            stop_as_group: opt_view(self.stop_as_group),
            kill_as_group: opt_view(self.kill_as_group),
            user: opt_view(self.user),
            redirect_stderr: opt_view(self.redirect_stderr),
            stdout_logfile: log_view(self.stdout_logfile),
            stdout_logfile_maxbytes: self.stdout_logfile_maxbytes,
            stdout_logfile_backups: self.stdout_logfile_backups,
            stdout_capture_maxbytes: self.stdout_capture_maxbytes,
            stdout_events_enabled: self.stdout_events_enabled,
            stderr_logfile: log_view(self.stderr_logfile),
            stderr_logfile_maxbytes: self.stderr_logfile_maxbytes,
            stderr_logfile_backups: self.stderr_logfile_backups,
            stderr_capture_maxbytes: self.stderr_capture_maxbytes,
            stderr_events_enabled: self.stderr_events_enabled,
            envs: envs_view(self.envs),
            directory: opt_view(self.directory),
            umask: self.umask,
        }
    }
}

/// The options a program has before its section is read.
pub open spec fn default_process_options(name: Seq<char>) -> ProcessOptions {
    ProcessOptions {
        name,
        command: Seq::empty(),
        num_procs: 1,
        num_procs_start: 0,
        priority: 999,
        auto_start: true,
        start_secs: 1,
        start_retries: 3,
        auto_restart: AutoRestartCondition::Unexpected,
        exit_codes: seq![0i32, 2i32],
        stop_signal: StopSignal::Term,
        stop_wait_secs: 10,
        stop_as_group: None,
        kill_as_group: None,
        user: None,
        redirect_stderr: None,
        stdout_logfile: LogTarget::Auto,
        stdout_logfile_maxbytes: 50000,
        stdout_logfile_backups: 10,
        stdout_capture_maxbytes: 0,
        stdout_events_enabled: false,
        stderr_logfile: LogTarget::Auto,
        stderr_logfile_maxbytes: 50000,
        stderr_logfile_backups: 10,
        stderr_capture_maxbytes: 0,
        stderr_events_enabled: false,
        envs: None,
        directory: None,
        umask: None,
    }
}

/// A number option: the value read when it is a number within `max`, else
/// the previous value.
pub open spec fn nat_or(v: Seq<char>, max: nat, prev: nat) -> nat {
    match parse_bounded(v, max) {
        Some(n) => n,
        None => prev,
    }
}

/// A flag option: `true` or `false`, else the previous value.
pub open spec fn bool_or(v: Seq<char>, prev: bool) -> bool {
    if v == "true"@ {
        true
    } else if v == "false"@ {
        false
    } else {
        prev
    }
}

/// The restart policy option: `unexpected`, `true` or `false`, else the
/// previous value.
pub open spec fn restart_or(v: Seq<char>, prev: AutoRestartCondition) -> AutoRestartCondition {
    if v == "unexpected"@ {
        AutoRestartCondition::Unexpected
    } else if v == "true"@ {
        AutoRestartCondition::True
    } else if v == "false"@ {
        AutoRestartCondition::False
    } else {
        prev
    }
}

/// The numbers among space-separated words, in order.
pub open spec fn codes_of(words: Seq<Seq<char>>) -> Seq<i32>
    decreases words.len(),
{
    if words.len() == 0 {
        Seq::empty()
    } else {
        let prev = codes_of(words.drop_last());
        match parse_int_in(words.last(), i32::MIN as int, i32::MAX as int) {
            Some(n) => prev.push(n as i32),
            None => prev,
        }
    }
}

/// The exit codes option: the numbers it lists, or the previous codes when
/// it lists none.
pub open spec fn codes_or(v: Seq<char>, prev: Seq<i32>) -> Seq<i32> {
    let codes = codes_of(split_on(v, ' '));
    if codes.len() == 0 {
        prev
    } else {
        codes
    }
}

/// The signal named by a lower-case text, with or without `sig`.
pub open spec fn signal_of_text(s: Seq<char>) -> Option<StopSignal> {
    if s == "sigterm"@ || s == "term"@ {
        Some(StopSignal::Term)
    } else if s == "sighup"@ || s == "hup"@ {
        Some(StopSignal::Hup)
    } else if s == "sigint"@ || s == "int"@ {
        Some(StopSignal::Int)
    } else if s == "sigquit"@ || s == "quit"@ {
        Some(StopSignal::Quit)
    } else if s == "sigkill"@ || s == "kill"@ {
        Some(StopSignal::Kill)
    } else if s == "sigusr1"@ || s == "usr1"@ {
        Some(StopSignal::Usr1)
    } else if s == "sigusr2"@ || s == "usr2"@ {
        Some(StopSignal::Usr2)
    } else {
        None
    }
}

/// A text option where `none` means unset.
pub open spec fn opt_text(v: Seq<char>) -> Option<Seq<char>> {
    if v == "none"@ {
        None
    } else {
        Some(v)
    }
}

/// A capture option: `none`, `auto`, or a path.
pub open spec fn log_target_of(v: Seq<char>) -> LogTarget {
    if v == "none"@ {
        LogTarget::Off
    } else if v == "auto"@ {
        LogTarget::Auto
    } else {
        LogTarget::File(v)
    }
}

/// The non-empty words, in order.
pub open spec fn non_empty(words: Seq<Seq<char>>) -> Seq<Seq<char>>
    decreases words.len(),
{
    if words.len() == 0 {
        Seq::empty()
    } else if words.last().len() == 0 {
        non_empty(words.drop_last())
    } else {
        non_empty(words.drop_last()).push(words.last())
    }
}

/// The environment option: `none`, or comma-separated `KEY=VALUE` entries.
pub open spec fn envs_of(v: Seq<char>) -> Option<Seq<Seq<char>>> {
    if v == "none"@ {
        None
    } else {
        Some(non_empty(split_on(v, ',')))
    }
}

/// The mask option: `none`, or a number (kept unchanged when invalid).
pub open spec fn umask_or(v: Seq<char>, prev: Option<u16>) -> Option<u16> {
    if v == "none"@ {
        None
    } else {
        match parse_bounded(v, u16::MAX as nat) {
            Some(n) => Some(n as u16),
            None => prev,
        }
    }
}

/// What the pair `k = v` does to a program's options.
pub open spec fn with_process_option(o: ProcessOptions, k: Seq<char>, v: Seq<char>) -> ProcessOptions {
    if k == "command"@ {
        ProcessOptions { command: v, ..o }
    } else if k == "num_procs"@ {
        ProcessOptions { num_procs: nat_or(v, u16::MAX as nat, o.num_procs as nat) as u16, ..o }
    } else if k == "num_procs_start"@ {
        ProcessOptions { num_procs_start: nat_or(v, u16::MAX as nat, o.num_procs_start as nat) as u16, ..o }
    } else if k == "priority"@ {
        ProcessOptions { priority: nat_or(v, u16::MAX as nat, o.priority as nat) as u16, ..o }
    } else if k == "auto_start"@ {
        ProcessOptions { auto_start: bool_or(v, o.auto_start), ..o }
    } else if k == "start_secs"@ {
        ProcessOptions { start_secs: nat_or(v, u64::MAX as nat, o.start_secs as nat) as u64, ..o }
    } else if k == "start_retries"@ {
        ProcessOptions { start_retries: nat_or(v, u8::MAX as nat, o.start_retries as nat) as u8, ..o }
    } else if k == "auto_restart"@ {
        ProcessOptions { auto_restart: restart_or(v, o.auto_restart), ..o }
    } else if k == "exit_codes"@ {
        ProcessOptions { exit_codes: codes_or(v, o.exit_codes), ..o }
    } else if k == "stop_signal"@ {
        ProcessOptions { stop_signal: match signal_of_text(lower_of(v)) {
            Some(s) => s,
            None => o.stop_signal,
        }, ..o }
    } else if k == "stop_wait_secs"@ {
        ProcessOptions { stop_wait_secs: nat_or(v, u64::MAX as nat, o.stop_wait_secs as nat) as u64, ..o }
    } else if k == "stop_as_group"@ {
        ProcessOptions { stop_as_group: opt_text(v), ..o }
    } else if k == "kill_as_group"@ {
        ProcessOptions { kill_as_group: opt_text(v), ..o }
    } else if k == "user"@ {
        ProcessOptions { user: opt_text(v), ..o }
    } else if k == "redirect_stderr"@ {
        ProcessOptions { redirect_stderr: opt_text(v), ..o }
    } else if k == "stdout_logfile"@ {
        ProcessOptions { stdout_logfile: log_target_of(v), ..o }
    } else if k == "stdout_logfile_maxbytes"@ {
        ProcessOptions { stdout_logfile_maxbytes: nat_or(v, usize::MAX as nat, o.stdout_logfile_maxbytes as nat) as usize, ..o }
    } else if k == "stdout_logfile_backups"@ {
        ProcessOptions { stdout_logfile_backups: nat_or(v, u32::MAX as nat, o.stdout_logfile_backups as nat) as u32, ..o }
    } else if k == "stdout_capture_maxbytes"@ {
        ProcessOptions { stdout_capture_maxbytes: nat_or(v, usize::MAX as nat, o.stdout_capture_maxbytes as nat) as usize, ..o }
    } else if k == "stdout_events_enabled"@ {
        ProcessOptions { stdout_events_enabled: bool_or(v, o.stdout_events_enabled), ..o }
    } else if k == "stderr_logfile"@ {
        ProcessOptions { stderr_logfile: log_target_of(v), ..o }
    } else if k == "stderr_logfile_maxbytes"@ {
        ProcessOptions { stderr_logfile_maxbytes: nat_or(v, usize::MAX as nat, o.stderr_logfile_maxbytes as nat) as usize, ..o }
    } else if k == "stderr_logfile_backups"@ {
        ProcessOptions { stderr_logfile_backups: nat_or(v, u32::MAX as nat, o.stderr_logfile_backups as nat) as u32, ..o }
    } else if k == "stderr_capture_maxbytes"@ {
        ProcessOptions { stderr_capture_maxbytes: nat_or(v, usize::MAX as nat, o.stderr_capture_maxbytes as nat) as usize, ..o }
    } else if k == "stderr_events_enabled"@ {
        ProcessOptions { stderr_events_enabled: bool_or(v, o.stderr_events_enabled), ..o }
    } else if k == "envs"@ {
        ProcessOptions { envs: envs_of(v), ..o }
    } else if k == "directory"@ {
        ProcessOptions { directory: opt_text(v), ..o }
    } else if k == "umask"@ {
        ProcessOptions { umask: umask_or(v, o.umask), ..o }
    } else {
        o
    }
}

/// Whether `k` names a program option.
pub open spec fn is_process_key(k: Seq<char>) -> bool {
    k == "command"@ ||
    k == "num_procs"@ ||
    k == "num_procs_start"@ ||
    k == "priority"@ ||
    k == "auto_start"@ ||
    k == "start_secs"@ ||
    k == "start_retries"@ ||
    k == "auto_restart"@ ||
    k == "exit_codes"@ ||
    k == "stop_signal"@ ||
    k == "stop_wait_secs"@ ||
    k == "stop_as_group"@ ||
    k == "kill_as_group"@ ||
    k == "user"@ ||
    k == "redirect_stderr"@ ||
    k == "stdout_logfile"@ ||
    k == "stdout_logfile_maxbytes"@ ||
    k == "stdout_logfile_backups"@ ||
    k == "stdout_capture_maxbytes"@ ||
    k == "stdout_events_enabled"@ ||
    k == "stderr_logfile"@ ||
    k == "stderr_logfile_maxbytes"@ ||
    k == "stderr_logfile_backups"@ ||
    k == "stderr_capture_maxbytes"@ ||
    k == "stderr_events_enabled"@ ||
    k == "envs"@ ||
    k == "directory"@ ||
    k == "umask"@
}

/// The pairs of a section applied to `o`, from the last one to the first
/// (so the first occurrence of a key decides).
pub open spec fn process_fold(o: ProcessOptions, vals: Seq<IniValue>) -> ProcessOptions
    decreases vals.len(),
{
    if vals.len() == 0 {
        o
    } else {
        let next = match vals.last() {
            IniValue::Key(k, v) => with_process_option(o, k@, v@),
            _ => o,
        };
        process_fold(next, vals.drop_last())
    }
}

fn read_nat(v: &[char], max: u64, prev: u64) -> (r: u64)
    ensures
        r as nat == nat_or(v@, max as nat, prev as nat),
{
    match parse_max(v, max) {
        Some(n) => n,
        None => prev,
    }
}

fn read_bool(v: &[char], prev: bool) -> (r: bool)
    ensures
        r == bool_or(v@, prev),
{
    if is_word(v, "true") {
        true
    } else if is_word(v, "false") {
        false
    } else {
        prev
    }
}

fn read_restart(v: &[char], prev: AutoRestartCondition) -> (r: AutoRestartCondition)
    ensures
        r == restart_or(v@, prev),
{
    if is_word(v, "unexpected") {
        AutoRestartCondition::Unexpected
    } else if is_word(v, "true") {
        AutoRestartCondition::True
    } else if is_word(v, "false") {
        AutoRestartCondition::False
    } else {
        prev
    }
}

fn read_codes(v: &[char], codes: &mut Vec<i32>)
    ensures
        final(codes)@ == codes_or(v@, old(codes)@),
{
    let words = split_chars(v, 0, ' ');
    assert(v@.subrange(0, v@.len() as int) =~= v@);
    let ghost wv = words@.map_values(|w: Vec<char>| w@);
    let mut found: Vec<i32> = Vec::new();
    let mut i: usize = 0;
    while i < words.len()
        invariant
            i <= words@.len(),
            wv == words@.map_values(|w: Vec<char>| w@),
            found@ == codes_of(wv.subrange(0, i as int)),
        decreases words@.len() - i,
    {
        assert(wv.subrange(0, i + 1).drop_last() =~= wv.subrange(0, i as int));
        assert(wv[i as int] == words@[i as int]@);
        match parse_i32(words[i].as_slice()) {
            Some(n) => found.push(n),
            None => {},
        }
        i = i + 1;
    }
    assert(wv.subrange(0, wv.len() as int) =~= wv);
    if found.len() > 0 {
        *codes = found;
    }
}

/// The signal named by `name` in any case, with or without `sig`.
pub fn signal_of_name(name: &str) -> (r: Option<StopSignal>)
    ensures
        r == signal_of_text(lower_of(name@)),
{
    let low = lowercase(name);
    signal_of_lower(low.as_str())
}

/// The signal named by a lower-case `name`, with or without `sig`.
pub fn signal_of_lower(name: &str) -> (r: Option<StopSignal>)
    ensures
        r == signal_of_text(name@),
{
    let cs = chars_of(name);
    let s = cs.as_slice();
    if is_word(s, "sigterm") || is_word(s, "term") {
        Some(StopSignal::Term)
    } else if is_word(s, "sighup") || is_word(s, "hup") {
        Some(StopSignal::Hup)
    } else if is_word(s, "sigint") || is_word(s, "int") {
        Some(StopSignal::Int)
    } else if is_word(s, "sigquit") || is_word(s, "quit") {
        Some(StopSignal::Quit)
    } else if is_word(s, "sigkill") || is_word(s, "kill") {
        Some(StopSignal::Kill)
    } else if is_word(s, "sigusr1") || is_word(s, "usr1") {
        Some(StopSignal::Usr1)
    } else if is_word(s, "sigusr2") || is_word(s, "usr2") {
        Some(StopSignal::Usr2)
    } else {
        None
    }
}

fn read_signal(v: &[char], prev: StopSignal) -> (r: StopSignal)
    ensures
        r == match signal_of_text(lower_of(v@)) {
            Some(s) => s,
            None => prev,
        },
{
    let text = string_of(v);
    match signal_of_name(text.as_str()) {
        Some(s) => s,
        None => prev,
    }
}

fn read_opt(v: &[char]) -> (r: Option<String>)
    ensures
        opt_view(r) == opt_text(v@),
{
    if is_word(v, "none") {
        None
    } else {
        Some(string_of(v))
    }
}

fn read_log_target(v: &[char]) -> (r: OutputLog)
    ensures
        log_view(r) == log_target_of(v@),
{
    if is_word(v, "none") {
        OutputLog::Off
    } else if is_word(v, "auto") {
        OutputLog::Auto
    } else {
        OutputLog::File(string_of(v))
    }
}

fn read_envs(v: &[char]) -> (r: Option<Vec<String>>)
    ensures
        envs_view(r) == envs_of(v@),
{
    if is_word(v, "none") {
        return None;
    }
    let words = split_chars(v, 0, ',');
    assert(v@.subrange(0, v@.len() as int) =~= v@);
    let ghost wv = words@.map_values(|w: Vec<char>| w@);
    let mut out: Vec<String> = Vec::new();
    let mut i: usize = 0;
    while i < words.len()
        invariant
            i <= words@.len(),
            wv == words@.map_values(|w: Vec<char>| w@),
            out@.map_values(|s: String| s@) == non_empty(wv.subrange(0, i as int)),
        decreases words@.len() - i,
    {
        assert(wv.subrange(0, i + 1).drop_last() =~= wv.subrange(0, i as int));
        assert(wv[i as int] == words@[i as int]@);
        if words[i].len() > 0 {
            let ghost before = out@;
            let s = string_of(words[i].as_slice());
            out.push(s);
            assert(out@.map_values(|s: String| s@) =~= before.map_values(|s: String| s@).push(s@));
        }
        i = i + 1;
    }
    assert(wv.subrange(0, wv.len() as int) =~= wv);
    Some(out)
}

fn read_umask(v: &[char], prev: Option<u16>) -> (r: Option<u16>)
    ensures
        r == umask_or(v@, prev),
{
    if is_word(v, "none") {
        return None;
    }
    match parse_max(v, u16::MAX as u64) {
        Some(n) => Some(n as u16),
        None => prev,
    }
}

/// Applies the pair `k = v` to a program's options; `false` when `k` is
/// not a program option (nothing changes then).
pub fn apply_process_option(cfg: &mut ProcessConfig, k: &[char], v: &[char]) -> (r: bool)
    ensures
        final(cfg)@ == with_process_option(old(cfg)@, k@, v@),
        r == is_process_key(k@),
{
    if is_word(k, "command") {
        cfg.command = string_of(v);
    } else if is_word(k, "num_procs") {
        cfg.num_procs = read_nat(v, u16::MAX as u64, cfg.num_procs as u64) as u16;
    } else if is_word(k, "num_procs_start") {
        cfg.num_procs_start = read_nat(v, u16::MAX as u64, cfg.num_procs_start as u64) as u16;
    } else if is_word(k, "priority") {
        cfg.priority = read_nat(v, u16::MAX as u64, cfg.priority as u64) as u16;
    } else if is_word(k, "auto_start") {
        cfg.auto_start = read_bool(v, cfg.auto_start);
    } else if is_word(k, "start_secs") {
        cfg.start_secs = read_nat(v, u64::MAX, cfg.start_secs as u64) as u64;
    } else if is_word(k, "start_retries") {
        cfg.start_retries = read_nat(v, u8::MAX as u64, cfg.start_retries as u64) as u8;
    } else if is_word(k, "auto_restart") {
        cfg.auto_restart = read_restart(v, cfg.auto_restart);
    } else if is_word(k, "exit_codes") {
        read_codes(v, &mut cfg.exit_codes);
    } else if is_word(k, "stop_signal") {
        cfg.stop_signal = read_signal(v, cfg.stop_signal);
    } else if is_word(k, "stop_wait_secs") {
        cfg.stop_wait_secs = read_nat(v, u64::MAX, cfg.stop_wait_secs as u64) as u64;
    } else if is_word(k, "stop_as_group") {
        cfg.stop_as_group = read_opt(v);
    } else if is_word(k, "kill_as_group") {
        cfg.kill_as_group = read_opt(v);
    } else if is_word(k, "user") {
        cfg.user = read_opt(v);
    } else if is_word(k, "redirect_stderr") {
        cfg.redirect_stderr = read_opt(v);
    } else if is_word(k, "stdout_logfile") {
        cfg.stdout_logfile = read_log_target(v);
    } else if is_word(k, "stdout_logfile_maxbytes") {
        cfg.stdout_logfile_maxbytes = read_nat(v, usize::MAX as u64, cfg.stdout_logfile_maxbytes as u64) as usize;
    } else if is_word(k, "stdout_logfile_backups") {
        cfg.stdout_logfile_backups = read_nat(v, u32::MAX as u64, cfg.stdout_logfile_backups as u64) as u32;
    } else if is_word(k, "stdout_capture_maxbytes") {
        cfg.stdout_capture_maxbytes = read_nat(v, usize::MAX as u64, cfg.stdout_capture_maxbytes as u64) as usize;
    } else if is_word(k, "stdout_events_enabled") {
        cfg.stdout_events_enabled = read_bool(v, cfg.stdout_events_enabled);
    } else if is_word(k, "stderr_logfile") {
        cfg.stderr_logfile = read_log_target(v);
    } else if is_word(k, "stderr_logfile_maxbytes") {
        cfg.stderr_logfile_maxbytes = read_nat(v, usize::MAX as u64, cfg.stderr_logfile_maxbytes as u64) as usize;
    } else if is_word(k, "stderr_logfile_backups") {
        cfg.stderr_logfile_backups = read_nat(v, u32::MAX as u64, cfg.stderr_logfile_backups as u64) as u32;
    } else if is_word(k, "stderr_capture_maxbytes") {
        cfg.stderr_capture_maxbytes = read_nat(v, usize::MAX as u64, cfg.stderr_capture_maxbytes as u64) as usize;
    } else if is_word(k, "stderr_events_enabled") {
        cfg.stderr_events_enabled = read_bool(v, cfg.stderr_events_enabled);
    } else if is_word(k, "envs") {
        cfg.envs = read_envs(v);
    } else if is_word(k, "directory") {
        cfg.directory = read_opt(v);
    } else if is_word(k, "umask") {
        cfg.umask = read_umask(v, cfg.umask);
    } else {
        return false;
    }
    true
}

} // verus!

verus! {

/// The daemon's options, as values.
pub struct DaemonOptions {
    pub logfile: Seq<char>,
    pub logfile_maxbytes: usize,
    pub logfile_backups: u16,
    pub loglevel: Level,
    pub pidfile: Seq<char>,
    pub umask: u16,
    pub nodaemon: bool,
    pub minfds: i32,
    pub nocleanup: bool,
    pub child_log_dir: Seq<char>,
}

impl View for DaemonConfig {
    type V = DaemonOptions;

    open spec fn view(&self) -> DaemonOptions {
        DaemonOptions {
            logfile: self.logfile@,
            logfile_maxbytes: self.logfile_maxbytes,
            logfile_backups: self.logfile_backups,
            loglevel: self.loglevel,
            pidfile: self.pidfile@,
            umask: self.umask,
            nodaemon: self.nodaemon,
            minfds: self.minfds,
            nocleanup: self.nocleanup,
            child_log_dir: self.child_log_dir@,
        }
    }
}

/// The daemon's options before its section is read, with files in `cwd`.
pub open spec fn default_daemon_options(cwd: Seq<char>) -> DaemonOptions {
    DaemonOptions {
        logfile: join_path(cwd, "taskmasterd.log"@),
        logfile_maxbytes: 50000,
        logfile_backups: 10,
        loglevel: Level::Info,
        pidfile: join_path(cwd, "taskmasterd.pid"@),
        umask: 0o022,
        nodaemon: false,
        minfds: 1024,
        nocleanup: false,
        child_log_dir: join_path(cwd, "tmp.5321"@),
    }
}

/// What the pair `k = v` does to the daemon's options.
pub open spec fn with_daemon_option(o: DaemonOptions, k: Seq<char>, v: Seq<char>) -> DaemonOptions {
    if k == "logfile"@ {
        DaemonOptions { logfile: v, ..o }
    } else if k == "logfile_maxbytes"@ {
        DaemonOptions { logfile_maxbytes: nat_or(v, usize::MAX as nat, o.logfile_maxbytes as nat) as usize, ..o }
    } else if k == "logfile_backups"@ {
        DaemonOptions { logfile_backups: nat_or(v, u16::MAX as nat, o.logfile_backups as nat) as u16, ..o }
    } else if k == "loglevel"@ {
        DaemonOptions {
            loglevel: match level_of_text(v) {
                Some(l) => l,
                None => o.loglevel,
            },
            ..o
        }
    } else if k == "pidfile"@ {
        DaemonOptions { pidfile: v, ..o }
    } else if k == "umask"@ {
        DaemonOptions { umask: nat_or(v, u16::MAX as nat, o.umask as nat) as u16, ..o }
    } else if k == "nodaemon"@ {
        DaemonOptions { nodaemon: bool_or(v, o.nodaemon), ..o }
    } else if k == "minfds"@ {
        DaemonOptions {
            minfds: match parse_int_in(v, i32::MIN as int, i32::MAX as int) {
                Some(n) => n as i32,
                None => o.minfds,
            },
            ..o
        }
    } else if k == "nocleanup"@ {
        DaemonOptions { nocleanup: bool_or(v, o.nocleanup), ..o }
    } else if k == "child_log_dir"@ {
        DaemonOptions { child_log_dir: v, ..o }
    } else {
        o
    }
}

/// The pairs of the daemon's section applied from the last to the first.
pub open spec fn daemon_fold(o: DaemonOptions, vals: Seq<IniValue>) -> DaemonOptions
    decreases vals.len(),
{
    if vals.len() == 0 {
        o
    } else {
        let next = match vals.last() {
            IniValue::Key(k, v) => with_daemon_option(o, k@, v@),
            _ => o,
        };
        daemon_fold(next, vals.drop_last())
    }
}

/// The client's options, as values.
pub struct CtlOptions {
    pub server_ip: Seq<char>,
    pub prompt: Seq<char>,
    pub history_file: Option<Seq<char>>,
}

impl View for CtlConfig {
    type V = CtlOptions;

    open spec fn view(&self) -> CtlOptions {
        CtlOptions {
            server_ip: self.server_ip@,
            prompt: self.prompt@,
            history_file: opt_view(self.history_file),
        }
    }
}

pub open spec fn default_ctl_options() -> CtlOptions {
    CtlOptions { server_ip: "127.0.0.1:9450"@, prompt: "taskmaster> "@, history_file: None }
}

/// What the pair `k = v` does to the client's options.
pub open spec fn with_ctl_option(o: CtlOptions, k: Seq<char>, v: Seq<char>) -> CtlOptions {
    if k == "server_ip"@ {
        CtlOptions { server_ip: v, ..o }
    } else if k == "prompt"@ {
        CtlOptions { prompt: v, ..o }
    } else if k == "history_file"@ {
        CtlOptions { history_file: opt_text(v), ..o }
    } else {
        o
    }
}

/// The pairs of the client's section applied from the last to the first.
pub open spec fn ctl_fold(o: CtlOptions, vals: Seq<IniValue>) -> CtlOptions
    decreases vals.len(),
{
    if vals.len() == 0 {
        o
    } else {
        let next = match vals.last() {
            IniValue::Key(k, v) => with_ctl_option(o, k@, v@),
            _ => o,
        };
        ctl_fold(next, vals.drop_last())
    }
}

/// The whole configuration, as values.
pub struct ConfigView {
    pub daemon: Option<DaemonOptions>,
    pub ctl: Option<CtlOptions>,
    pub processes: Seq<ProcessOptions>,
}

impl View for Config {
    type V = ConfigView;

    open spec fn view(&self) -> ConfigView {
        ConfigView {
            daemon: match self.daemon {
                Some(d) => Some(d@),
                None => None,
            },
            ctl: match self.ctl {
                Some(c) => Some(c@),
                None => None,
            },
            processes: self.processes@.map_values(|p: ProcessConfig| p@),
        }
    }
}

/// Whether a section name opens a program section.
pub open spec fn program_section(s: Seq<char>) -> bool {
    s.len() >= 7 && (s.subrange(0, 7) == "program"@ || s.subrange(0, 7) == "process"@)
}

/// What one top-level value does to the configuration: the daemon and
/// client sections replace their options; a program section with a name
/// after its first `:` adds a program; anything else is ignored.
pub open spec fn config_step(c: ConfigView, v: IniValue, cwd: Seq<char>) -> ConfigView {
    match v {
        IniValue::Section(s, keys) => if s@ == "taskmasterd"@ {
            ConfigView { daemon: Some(daemon_fold(default_daemon_options(cwd), keys@)), ..c }
        } else if s@ == "taskmasterctl"@ {
            ConfigView { ctl: Some(ctl_fold(default_ctl_options(), keys@)), ..c }
        } else if program_section(s@) && first_index(s@, ':') < s@.len() {
            ConfigView {
                processes: c.processes.push(
                    process_fold(
                        default_process_options(s@.subrange(first_index(s@, ':') as int + 1, s@.len() as int)),
                        keys@,
                    ),
                ),
                ..c
            }
        } else {
            c
        },
        _ => c,
    }
}

/// The top-level values applied from the last to the first.
pub open spec fn config_fold(c: ConfigView, vals: Seq<IniValue>, cwd: Seq<char>) -> ConfigView
    decreases vals.len(),
{
    if vals.len() == 0 {
        c
    } else {
        config_fold(config_step(c, vals.last(), cwd), vals.drop_last(), cwd)
    }
}

/// Builds the configuration from INI text.
pub struct ConfigParser {
    config: Config,
    values: Vec<IniValue>,
    cwd: String,
}

impl ConfigParser {
    pub closed spec fn values(&self) -> Seq<IniValue> {
        self.values@
    }

    pub closed spec fn start(&self) -> ConfigView {
        self.config@
    }

    pub closed spec fn dir(&self) -> Seq<char> {
        self.cwd@
    }

    /// Reads the values of `buf`; default daemon files go in `cwd`.
    pub fn new(buf: &str, cwd: &str) -> (r: ConfigParser)
        ensures
            r.start().daemon is None,
            r.start().ctl is None,
            r.start().processes.len() == 0,
            r.dir() == cwd@,
    {
        let p = IniParser::new(buf);
        ConfigParser {
            config: Config::default(),
            values: p.parse(),
            cwd: string_of(chars_of(cwd).as_slice()),
        }
    }

    /// The configuration the text describes, its values taken from the
    /// last to the first.
    pub fn parse(self) -> (r: Config)
        ensures
            r@ == config_fold(self.start(), self.values(), self.dir()),
    {
        let mut me = self;
        let ghost target = config_fold(me.config@, me.values@, me.cwd@);
        while me.values.len() > 0
            invariant
                config_fold(me.config@, me.values@, me.cwd@) == target,
                me.cwd@ == self.dir(),
            decreases me.values@.len(),
        {
            let ghost vals = me.values@;
            let ini = me.values.pop().unwrap();
            assert(me.values@ =~= vals.drop_last());
            let ghost before = me.config@;
            match ini {
                IniValue::Section(s, keys) => {
                    let ghost kv = keys@;
                    let mut keys = keys;
                    let sc = chars_of(s.as_str());
                    if is_word(sc.as_slice(), "taskmasterd") {
                        let d = me.parse_daemon(&mut keys);
                        me.config.daemon = Some(d);
                    } else if is_word(sc.as_slice(), "taskmasterctl") {
                        let c = me.parse_ctl(&mut keys);
                        me.config.ctl = Some(c);
                    } else if me.is_program_section(sc.as_slice()) {
                        let colon = find_char(sc.as_slice(), 0, ':');
                        proof {
                            lemma_first_index(sc@, ':', colon as nat);
                        }
                        if colon < sc.len() {
                            let name = copy_range(sc.as_slice(), colon + 1, sc.len());
                            let pc = me.parse_process(string_of(name.as_slice()), &mut keys);
                            let ghost pv = me.config.processes@;
                            me.config.processes.push(pc);
                            assert(me.config.processes@.map_values(|p: ProcessConfig| p@) =~= pv.map_values(
                                |p: ProcessConfig| p@,
                            ).push(pc@));
                        }
                    }
                },
                IniValue::Key(_, _) => {},
            }
        }
        me.config
    }

    fn is_program_section(&self, s: &[char]) -> (r: bool)
        ensures
            r == program_section(s@),
    {
        if s.len() < 7 {
            return false;
        }
        let head = copy_range(s, 0, 7);
        is_word(head.as_slice(), "program") || is_word(head.as_slice(), "process")
    }

    /// The daemon's options from the pairs of its section, taken from the
    /// last to the first; the pairs are consumed.
    pub fn parse_daemon(&mut self, values: &mut Vec<IniValue>) -> (r: DaemonConfig)
        ensures
            r@ == daemon_fold(default_daemon_options(old(self).dir()), old(values)@),
            final(values)@.len() == 0,
            final(self).dir() == old(self).dir(),
            final(self).values() == old(self).values(),
            final(self).start() == old(self).start(),
    {
        let mut config = DaemonConfig::default_in(self.cwd.as_str());
        while values.len() > 0
            invariant
                daemon_fold(config@, values@) == daemon_fold(default_daemon_options(old(self).dir()), old(values)@),
            decreases values@.len(),
        {
            let ghost vals = values@;
            let value = values.pop().unwrap();
            assert(values@ =~= vals.drop_last());
            if let IniValue::Key(k, v) = value {
                let kc = chars_of(k.as_str());
                let vc = chars_of(v.as_str());
                let kk = kc.as_slice();
                let vv = vc.as_slice();
                if is_word(kk, "logfile") {
                    config.logfile = string_of(vv);
                } else if is_word(kk, "logfile_maxbytes") {
                    config.logfile_maxbytes = read_nat(vv, usize::MAX as u64, config.logfile_maxbytes as u64) as usize;
                } else if is_word(kk, "logfile_backups") {
                    config.logfile_backups = read_nat(vv, u16::MAX as u64, config.logfile_backups as u64) as u16;
                } else if is_word(kk, "loglevel") {
                    match Level::from_str(v.as_str()) {
                        Ok(l) => config.loglevel = l,
                        Err(_) => {},
                    }
                } else if is_word(kk, "pidfile") {
                    config.pidfile = string_of(vv);
                } else if is_word(kk, "umask") {
                    config.umask = read_nat(vv, u16::MAX as u64, config.umask as u64) as u16;
                } else if is_word(kk, "nodaemon") {
                    config.nodaemon = read_bool(vv, config.nodaemon);
                } else if is_word(kk, "minfds") {
                    match parse_i32(vv) {
                        Some(n) => config.minfds = n,
                        None => {},
                    }
                } else if is_word(kk, "nocleanup") {
                    config.nocleanup = read_bool(vv, config.nocleanup);
                } else if is_word(kk, "child_log_dir") {
                    config.child_log_dir = string_of(vv);
                }
            }
        }
        config
    }

    /// The client's options from the pairs of its section, taken from the
    /// last to the first; the pairs are consumed.
    pub fn parse_ctl(&mut self, values: &mut Vec<IniValue>) -> (r: CtlConfig)
        ensures
            r@ == ctl_fold(default_ctl_options(), old(values)@),
            final(values)@.len() == 0,
            final(self).dir() == old(self).dir(),
            final(self).values() == old(self).values(),
            final(self).start() == old(self).start(),
    {
        let mut config = CtlConfig::default();
        while values.len() > 0
            invariant
                ctl_fold(config@, values@) == ctl_fold(default_ctl_options(), old(values)@),
            decreases values@.len(),
        {
            let ghost vals = values@;
            let value = values.pop().unwrap();
            assert(values@ =~= vals.drop_last());
            if let IniValue::Key(k, v) = value {
                let kc = chars_of(k.as_str());
                let vc = chars_of(v.as_str());
                let kk = kc.as_slice();
                if is_word(kk, "server_ip") {
                    config.server_ip = v;
                } else if is_word(kk, "prompt") {
                    config.prompt = v;
                } else if is_word(kk, "history_file") {
                    config.history_file = read_opt(vc.as_slice());
                }
            }
        }
        config
    }

    /// The options of the program `name` from the pairs of its section,
    /// taken from the last to the first; the pairs are consumed.
    pub fn parse_process(&mut self, name: String, values: &mut Vec<IniValue>) -> (r: ProcessConfig)
        ensures
            r@ == process_fold(default_process_options(name@), old(values)@),
            final(values)@.len() == 0,
            final(self).dir() == old(self).dir(),
            final(self).values() == old(self).values(),
            final(self).start() == old(self).start(),
    {
        let mut config = ProcessConfig::default();
        config.name = name;
        assert(config.command@ =~= Seq::<char>::empty());
        assert(config@ == default_process_options(name@));
        while values.len() > 0
            invariant
                process_fold(config@, values@) == process_fold(default_process_options(name@), old(values)@),
            decreases values@.len(),
        {
            let ghost vals = values@;
            let value = values.pop().unwrap();
            assert(values@ =~= vals.drop_last());
            if let IniValue::Key(k, v) = value {
                let kc = chars_of(k.as_str());
                let vc = chars_of(v.as_str());
                apply_process_option(&mut config, kc.as_slice(), vc.as_slice());
            }
        }
        config
    }
}

} // verus!
