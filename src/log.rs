//! Log levels, log records, and which outputs a record goes to. Writing to
//! the outputs is the caller's part.

use vstd::prelude::*;
use crate::text::{chars_of, chars_eq};

verus! {

/// Level of a message, from most to least urgent.
#[derive(Debug, Clone, Copy, PartialEq, Eq, Structural)]
pub enum Level {
    /// Requires the user's attention
    Critical,
    /// Potentially dangerous error
    Error,
    /// Something is abnormal
    Warn,
    /// Information
    Info,
    /// Debugging information
    Debug,
    /// Tracing of the code
    Trace,
    /// Chatter
    Blather,
}

/// Rank of a level: 1 for Critical up to 7 for Blather.
pub open spec fn level_rank(l: Level) -> nat {
    match l {
        Level::Critical => 1,
        Level::Error => 2,
        Level::Warn => 3,
        Level::Info => 4,
        Level::Debug => 5,
        Level::Trace => 6,
        Level::Blather => 7,
    }
}

/// The name of a level.
pub open spec fn level_text(l: Level) -> Seq<char> {
    match l {
        Level::Critical => "critical"@,
        Level::Error => "error"@,
        Level::Warn => "warn"@,
        Level::Info => "info"@,
        Level::Debug => "debug"@,
        Level::Trace => "trace"@,
        Level::Blather => "blather"@,
    }
}

/// The level named `s`, if any.
pub open spec fn level_of_text(s: Seq<char>) -> Option<Level> {
    if s == "critical"@ {
        Some(Level::Critical)
    } else if s == "error"@ {
        Some(Level::Error)
    } else if s == "warn"@ {
        Some(Level::Warn)
    } else if s == "info"@ {
        Some(Level::Info)
    } else if s == "debug"@ {
        Some(Level::Debug)
    } else if s == "trace"@ {
        Some(Level::Trace)
    } else if s == "blather"@ {
        Some(Level::Blather)
    } else {
        None
    }
}

fn is_word(a: &[char], lit: &str) -> (r: bool)
    ensures
        r == (a@ == lit@),
{
    let b = chars_of(lit);
    chars_eq(a, b.as_slice())
}

impl Level {
    /// Info.
    pub fn default() -> (r: Level)
        ensures
            r == Level::Info,
    {
        Level::Info
    }

    /// Rank of the level: 1 for Critical up to 7 for Blather.
    pub fn rank(&self) -> (r: u8)
        ensures
            r as nat == level_rank(*self),
    {
        match self {
            Level::Critical => 1,
            Level::Error => 2,
            Level::Warn => 3,
            Level::Info => 4,
            Level::Debug => 5,
            Level::Trace => 6,
            Level::Blather => 7,
        }
    }

    /// The name of the level.
    pub fn name(&self) -> (r: &'static str)
        ensures
            r@ == level_text(*self),
    {
        match self {
            Level::Critical => "critical",
            Level::Error => "error",
            Level::Warn => "warn",
            Level::Info => "info",
            Level::Debug => "debug",
            Level::Trace => "trace",
            Level::Blather => "blather",
        }
    }

    /// The level named `s`.
    pub fn from_str(s: &str) -> (r: Result<Level, ()>)
        ensures
            r matches Ok(l) ==> level_of_text(s@) == Some(l),
            r is Err ==> level_of_text(s@) is None,
    {
        let cs = chars_of(s);
        let a = cs.as_slice();
        if is_word(a, "critical") {
            Ok(Level::Critical)
        } else if is_word(a, "error") {
            Ok(Level::Error)
        } else if is_word(a, "warn") {
            Ok(Level::Warn)
        } else if is_word(a, "info") {
            Ok(Level::Info)
        } else if is_word(a, "debug") {
            Ok(Level::Debug)
        } else if is_word(a, "trace") {
            Ok(Level::Trace)
        } else if is_word(a, "blather") {
            Ok(Level::Blather)
        } else {
            Err(())
        }
    }
}

/// The most detailed level an output or a logger lets through.
#[derive(Debug, Clone, Copy, PartialEq, Eq, Structural)]
pub enum LevelFilter {
    /// Nothing
    Off,
    /// Critical only
    Critical,
    /// Error and above
    Error,
    /// Warn and above
    Warn,
    /// Info and above
    Info,
    /// Debug and above
    Debug,
    /// Trace and above
    Trace,
    /// Everything
    Blather,
}

/// Rank of a filter: 0 for Off up to 7 for Blather.
pub open spec fn filter_rank(f: LevelFilter) -> nat {
    match f {
        LevelFilter::Off => 0,
        LevelFilter::Critical => 1,
        LevelFilter::Error => 2,
        LevelFilter::Warn => 3,
        LevelFilter::Info => 4,
        LevelFilter::Debug => 5,
        LevelFilter::Trace => 6,
        LevelFilter::Blather => 7,
    }
}

/// Whether a filter lets a level through.
pub open spec fn lets_through(f: LevelFilter, l: Level) -> bool {
    level_rank(l) <= filter_rank(f)
}

impl LevelFilter {
    /// Info.
    pub fn default() -> (r: LevelFilter)
        ensures
            r == LevelFilter::Info,
    {
        LevelFilter::Info
    }

    /// Rank of the filter: 0 for Off up to 7 for Blather.
    pub fn rank(&self) -> (r: u8)
        ensures
            r as nat == filter_rank(*self),
    {
        match self {
            LevelFilter::Off => 0,
            LevelFilter::Critical => 1,
            LevelFilter::Error => 2,
            LevelFilter::Warn => 3,
            LevelFilter::Info => 4,
            LevelFilter::Debug => 5,
            LevelFilter::Trace => 6,
            LevelFilter::Blather => 7,
        }
    }

    /// Whether this filter lets `lvl` through.
    pub fn allows(&self, lvl: Level) -> (r: bool)
        ensures
            r == lets_through(*self, lvl),
    {
        lvl.rank() <= self.rank()
    }
}

/// Where a log record comes from.
pub struct Metadata {
    level: Level,
    module: String,
    file: String,
    line: u32,
}

impl Metadata {
    pub closed spec fn spec_level(&self) -> Level {
        self.level
    }

    pub closed spec fn spec_module(&self) -> Seq<char> {
        self.module@
    }

    pub closed spec fn spec_file(&self) -> Seq<char> {
        self.file@
    }

    pub closed spec fn spec_line(&self) -> u32 {
        self.line
    }

    /// Info level, no place.
    pub fn default() -> (r: Metadata)
        ensures
            r.spec_level() == Level::Info,
            r.spec_module().len() == 0,
            r.spec_file().len() == 0,
            r.spec_line() == 0,
    {
        Metadata { level: Level::Info, module: String::new(), file: String::new(), line: 0 }
    }

    /// The level.
    pub fn level(&self) -> (r: Level)
        ensures
            r == self.spec_level(),
    {
        self.level
    }

    /// The module path.
    pub fn module(&self) -> (r: &str)
        ensures
            r@ == self.spec_module(),
    {
        self.module.as_str()
    }

    /// The file name.
    pub fn file(&self) -> (r: &str)
        ensures
            r@ == self.spec_file(),
    {
        self.file.as_str()
    }

    /// The line.
    pub fn line(&self) -> (r: u32)
        ensures
            r == self.spec_line(),
    {
        self.line
    }
}

/// Builder of `Metadata`.
pub struct MetadataBuilder(Metadata);

impl MetadataBuilder {
    pub closed spec fn meta(&self) -> Metadata {
        self.0
    }

    /// Starts from `Metadata::default()`.
    pub fn new() -> (r: MetadataBuilder)
        ensures
            r.meta().spec_level() == Level::Info,
            r.meta().spec_module().len() == 0,
            r.meta().spec_file().len() == 0,
            r.meta().spec_line() == 0,
    {
        MetadataBuilder(Metadata::default())
    }

    /// Sets the level.
    pub fn level(self, lvl: Level) -> (r: MetadataBuilder)
        ensures
            r.meta().spec_level() == lvl,
            r.meta().spec_module() == self.meta().spec_module(),
            r.meta().spec_file() == self.meta().spec_file(),
            r.meta().spec_line() == self.meta().spec_line(),
    {
        let mut s = self;
        s.0.level = lvl;
        s
    }

    /// Sets the module path.
    pub fn module(self, module: String) -> (r: MetadataBuilder)
        ensures
            r.meta().spec_module() == module@,
            r.meta().spec_level() == self.meta().spec_level(),
            r.meta().spec_file() == self.meta().spec_file(),
            r.meta().spec_line() == self.meta().spec_line(),
    {
        let mut s = self;
        s.0.module = module;
        s
    }

    /// Sets the file name.
    pub fn file(self, file: String) -> (r: MetadataBuilder)
        ensures
            r.meta().spec_file() == file@,
            r.meta().spec_level() == self.meta().spec_level(),
            r.meta().spec_module() == self.meta().spec_module(),
            r.meta().spec_line() == self.meta().spec_line(),
    {
        let mut s = self;
        s.0.file = file;
        s
    }

    /// Sets the line.
    pub fn line(self, line: u32) -> (r: MetadataBuilder)
        ensures
            r.meta().spec_line() == line,
            r.meta().spec_level() == self.meta().spec_level(),
            r.meta().spec_module() == self.meta().spec_module(),
            r.meta().spec_file() == self.meta().spec_file(),
    {
        let mut s = self;
        s.0.line = line;
        s
    }

    /// The metadata built.
    pub fn build(self) -> (r: Metadata)
        ensures
            r == self.meta(),
    {
        self.0
    }
}

/// A log record: a message and where it comes from.
pub struct Log {
    msg: String,
    meta: Metadata,
}

impl Log {
    pub closed spec fn spec_message(&self) -> Seq<char> {
        self.msg@
    }

    pub closed spec fn spec_meta(&self) -> Metadata {
        self.meta
    }

    /// An empty Info record.
    pub fn default() -> (r: Log)
        ensures
            r.spec_message().len() == 0,
            r.spec_meta().spec_level() == Level::Info,
    {
        Log { msg: String::new(), meta: Metadata::default() }
    }

    /// The message.
    pub fn message(&self) -> (r: &str)
        ensures
            r@ == self.spec_message(),
    {
        self.msg.as_str()
    }

    /// Where the record comes from.
    pub fn meta(&self) -> (r: &Metadata)
        ensures
            *r == self.spec_meta(),
    {
        &self.meta
    }

    /// The level.
    pub fn level(&self) -> (r: Level)
        ensures
            r == self.spec_meta().spec_level(),
    {
        self.meta.level
    }

    /// The module path.
    pub fn module(&self) -> (r: &str)
        ensures
            r@ == self.spec_meta().spec_module(),
    {
        self.meta.module.as_str()
    }

    /// The file name.
    pub fn file(&self) -> (r: &str)
        ensures
            r@ == self.spec_meta().spec_file(),
    {
        self.meta.file.as_str()
    }

    /// The line.
    pub fn line(&self) -> (r: u32)
        ensures
            r == self.spec_meta().spec_line(),
    {
        self.meta.line
    }
}

/// Builder of `Log`.
pub struct LogBuilder(Log);

impl LogBuilder {
    pub closed spec fn record(&self) -> Log {
        self.0
    }

    /// Starts from `Log::default()`.
    pub fn new() -> (r: LogBuilder)
        ensures
            r.record().spec_message().len() == 0,
            r.record().spec_meta().spec_level() == Level::Info,
    {
        LogBuilder(Log::default())
    }

    /// Sets the message.
    pub fn message(self, msg: String) -> (r: LogBuilder)
        ensures
            r.record().spec_message() == msg@,
            r.record().spec_meta() == self.record().spec_meta(),
    {
        let mut s = self;
        s.0.msg = msg;
        s
    }

    /// Sets the metadata.
    pub fn meta(self, meta: Metadata) -> (r: LogBuilder)
        ensures
            r.record().spec_meta() == meta,
            r.record().spec_message() == self.record().spec_message(),
    {
        let mut s = self;
        s.0.meta = meta;
        s
    }

    /// Sets the level.
    pub fn level(self, lvl: Level) -> (r: LogBuilder)
        ensures
            r.record().spec_meta().spec_level() == lvl,
            r.record().spec_message() == self.record().spec_message(),
    {
        let mut s = self;
        s.0.meta.level = lvl;
        s
    }

    /// Sets the module path.
    pub fn module(self, module: String) -> (r: LogBuilder)
        ensures
            r.record().spec_meta().spec_module() == module@,
            r.record().spec_meta().spec_level() == self.record().spec_meta().spec_level(),
            r.record().spec_message() == self.record().spec_message(),
    {
        let mut s = self;
        s.0.meta.module = module;
        s
    }

    /// Sets the file name.
    pub fn file(self, file: String) -> (r: LogBuilder)
        ensures
            r.record().spec_meta().spec_file() == file@,
            r.record().spec_meta().spec_level() == self.record().spec_meta().spec_level(),
            r.record().spec_message() == self.record().spec_message(),
    {
        let mut s = self;
        s.0.meta.file = file;
        s
    }

    /// Sets the line.
    pub fn line(self, line: u32) -> (r: LogBuilder)
        ensures
            r.record().spec_meta().spec_line() == line,
            r.record().spec_meta().spec_level() == self.record().spec_meta().spec_level(),
            r.record().spec_message() == self.record().spec_message(),
    {
        let mut s = self;
        s.0.meta.line = line;
        s
    }

    /// The record built.
    pub fn build(self) -> (r: Log)
        ensures
            r == self.record(),
    {
        self.0
    }
}

/// The sink of an output.
#[derive(Debug, PartialEq, Eq)]
pub enum OutputKind {
    /// Standard output
    Stdout,
    /// Standard error
    Stderr,
    /// The file at this path
    File(String),
}

/// An output: a sink and the most detailed level it takes.
pub struct Output {
    kind: OutputKind,
    lvl: LevelFilter,
}

impl Output {
    pub closed spec fn spec_kind(&self) -> OutputKind {
        self.kind
    }

    pub closed spec fn spec_filter(&self) -> LevelFilter {
        self.lvl
    }

    /// Standard output, taking levels up to `lvl`.
    pub fn stdout(lvl: LevelFilter) -> (r: Output)
        ensures
            r.spec_kind() == OutputKind::Stdout,
            r.spec_filter() == lvl,
    {
        Output { kind: OutputKind::Stdout, lvl }
    }

    /// Standard error, taking levels up to `lvl`.
    pub fn stderr(lvl: LevelFilter) -> (r: Output)
        ensures
            r.spec_kind() == OutputKind::Stderr,
            r.spec_filter() == lvl,
    {
        Output { kind: OutputKind::Stderr, lvl }
    }

    /// The file at `path`, taking levels up to `lvl`.
    pub fn file(path: String, lvl: LevelFilter) -> (r: Output)
        ensures
            r.spec_kind() == OutputKind::File(path),
            r.spec_filter() == lvl,
    {
        Output { kind: OutputKind::File(path), lvl }
    }

    /// The sink.
    pub fn kind(&self) -> (r: &OutputKind)
        ensures
            *r == self.spec_kind(),
    {
        &self.kind
    }

    /// Whether this output takes `log`.
    pub fn log(&self, log: &Log) -> (r: bool)
        ensures
            r == lets_through(self.spec_filter(), log.spec_meta().spec_level()),
    {
        self.lvl.allows(log.level())
    }
}

/// A set of outputs behind a global level filter.
pub struct Logger {
    outputs: Option<Vec<Output>>,
    max_lvl: LevelFilter,
}

impl Logger {
    /// The outputs, in the order they were added.
    pub closed spec fn spec_outputs(&self) -> Seq<Output> {
        match self.outputs {
            Some(v) => v@,
            None => Seq::empty(),
        }
    }

    pub closed spec fn spec_max(&self) -> LevelFilter {
        self.max_lvl
    }

    /// No output, every level let through.
    pub fn new() -> (r: Logger)
        ensures
            r.spec_outputs().len() == 0,
            r.spec_max() == LevelFilter::Blather,
    {
        Logger { outputs: None, max_lvl: LevelFilter::Blather }
    }

    /// Adds an output at the end.
    pub fn add_output(&mut self, out: Output)
        ensures
            final(self).spec_outputs() == old(self).spec_outputs().push(out),
            final(self).spec_max() == old(self).spec_max(),
    {
        match &mut self.outputs {
            Some(outs) => outs.push(out),
            None => {
                let mut outputs: Vec<Output> = Vec::new();
                outputs.push(out);
                assert(outputs@ =~= Seq::<Output>::empty().push(out));
                self.outputs = Some(outputs);
            },
        }
    }

    /// Removes every output.
    pub fn clear_outputs(&mut self)
        ensures
            final(self).spec_outputs().len() == 0,
            final(self).spec_max() == old(self).spec_max(),
    {
        if let Some(outs) = &mut self.outputs {
            outs.clear();
        }
    }

    /// Sets the global filter.
    pub fn set_max_level(&mut self, lvl: LevelFilter)
        ensures
            final(self).spec_outputs() == old(self).spec_outputs(),
            final(self).spec_max() == lvl,
    {
        self.max_lvl = lvl;
    }

    /// The outputs `log` goes to: those whose filter takes its level, in
    /// order, when the global filter lets it through; none otherwise.
    pub fn log(&self, log: &Log) -> (r: Vec<usize>)
        ensures
            forall|i: int| 0 <= i < r@.len() ==> r@[i] < self.spec_outputs().len(),
            forall|k: usize| r@.contains(k) <==> (k < self.spec_outputs().len() && lets_through(
                self.spec_max(),
                log.spec_meta().spec_level(),
            ) && lets_through(self.spec_outputs()[k as int].spec_filter(), log.spec_meta().spec_level())),
            forall|i: int, j: int| 0 <= i < j < r@.len() ==> r@[i] < r@[j],
    {
        let mut r: Vec<usize> = Vec::new();
        let outs = match &self.outputs {
            Some(o) => o,
            None => {
                return r;
            },
        };
        if !self.max_lvl.allows(log.level()) {
            return r;
        }
        let mut i: usize = 0;
        while i < outs.len()
            invariant
                i <= outs@.len(),
                outs@ == self.spec_outputs(),
                lets_through(self.spec_max(), log.spec_meta().spec_level()),
                forall|j: int| 0 <= j < r@.len() ==> r@[j] < i,
                forall|k: usize| r@.contains(k) <==> (k < i && lets_through(
                    outs@[k as int].spec_filter(),
                    log.spec_meta().spec_level(),
                )),
                forall|a: int, b: int| 0 <= a < b < r@.len() ==> r@[a] < r@[b],
            decreases outs@.len() - i,
        {
            if outs[i].log(log) {
                let ghost before = r@;
                r.push(i);
                assert forall|k: usize| r@.contains(k) <==> (k < i + 1 && lets_through(
                    outs@[k as int].spec_filter(),
                    log.spec_meta().spec_level(),
                )) by {
                    if k == i {
                        assert(r@[r@.len() - 1] == k);
                        assert(r@.contains(k));
                        assert(lets_through(outs@[i as int].spec_filter(), log.spec_meta().spec_level()));
                    }
                    if r@.contains(k) && k != i {
                        let w = choose|w: int| 0 <= w < r@.len() && r@[w] == k;
                        assert(w < before.len());
                        assert(before[w] == k);
                        assert(before.contains(k));
                    }
                    if k < i && lets_through(outs@[k as int].spec_filter(), log.spec_meta().spec_level()) {
                        assert(before.contains(k));
                        let w = choose|w: int| 0 <= w < before.len() && before[w] == k;
                        assert(r@[w] == k);
                    }
                }
            } else {
                assert forall|k: usize| r@.contains(k) <==> (k < i + 1 && lets_through(
                    outs@[k as int].spec_filter(),
                    log.spec_meta().spec_level(),
                )) by {
                    if r@.contains(k) {
                        let w = choose|w: int| 0 <= w < r@.len() && r@[w] == k;
                        assert(r@[w] < i);
                    }
                    if k == i {
                        assert(!lets_through(outs@[i as int].spec_filter(), log.spec_meta().spec_level()));
                    } else if k < i {
                        assert(r@.contains(k) <==> lets_through(
                            outs@[k as int].spec_filter(),
                            log.spec_meta().spec_level(),
                        ));
                    }
                }
            }
            i = i + 1;
        }
        r
    }
}

} // verus!
