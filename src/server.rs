//! What the control server does with each request, and the foreground
//! bridge between a client's tunnels and a child's pipes. The sockets are
//! the caller's; these functions decide.

use vstd::prelude::*;
use crate::api::{ApiKind, ApiRequest, ArgView, RequestError};
use crate::config::StopSignal;
use crate::supervisor::{Supervisor, find_spec, kill_signals, kill_effect, log_bytes, status_text};
use crate::process::ProcessState;
use crate::text::{chars_of, string_of};

verus! {

/// What the server does after a request.
pub enum Reply {
    /// Send this text back
    Text(String),
    /// Send these bytes back
    Data(Vec<u8>),
    /// Send these signals to these pids; nothing goes back
    Signal(Vec<(i32, StopSignal)>),
    /// Close the listener and stop accepting
    Shutdown,
    /// Start a foreground session with the program at this index
    Foreground(usize),
}

/// The values of the request's arguments, in order.
pub open spec fn target_values(args: Seq<ArgView>) -> Seq<Seq<char>> {
    args.map_values(|a: ArgView| a.1)
}

/// The text sent back when a foreground target does not exist.
pub open spec fn no_target_text(name: Seq<char>) -> Seq<char> {
    "target "@ + name + " does not exists"@
}

fn reply_text(s: &str) -> (r: Reply)
    ensures
        r matches Reply::Text(t) && t@ == s@,
{
    Reply::Text(String::from_str(s))
}

/// Handles one request read from a client connection (or the error from
/// reading it):
/// - unreadable text: `invalid request`, or `unimplemented` for an unknown verb;
/// - `shutdown`: stop accepting;
/// - `status`: one `name state` line per program;
/// - `kill`: the targeted Running programs become Stopping and their
///   signals are sent (every program when no target is given);
/// - `log`: the captured standard output of every program;
/// - `foreground`: a session with the last target named, or a message when
///   there is no target or no such program;
/// - any other verb: `unimplemented`.
pub fn handle_client(sup: &mut Supervisor, req: &Result<ApiRequest, RequestError>) -> (r: Reply)
    requires
        old(sup).wf(),
    ensures
        final(sup).wf(),
        final(sup)@.len() == old(sup)@.len(),
        !(req matches Ok(q) && q@.0 == ApiKind::Kill) ==> final(sup)@ == old(sup)@,
        req matches Err(e) ==> (r matches Reply::Text(t) && t@ == if e == RequestError::UnknownVerb {
            "unimplemented"@
        } else {
            "invalid request"@
        }),
        req matches Ok(q) ==> match q@.0 {
            ApiKind::Shutdown => r is Shutdown,
            ApiKind::Status => r matches Reply::Text(t) && t@ == status_text(old(sup)@),
            ApiKind::Log => r matches Reply::Data(d) && d@ == log_bytes(old(sup)@),
            ApiKind::Kill => {
                &&& r matches Reply::Signal(s) && s@ == kill_signals(old(sup)@, target_values(q@.1))
                &&& forall|i: int| 0 <= i < old(sup)@.len() ==> kill_effect(
                    #[trigger] old(sup)@[i],
                    final(sup)@[i],
                    target_values(q@.1),
                )
            },
            ApiKind::Foreground => if q@.1.len() == 0 {
                r matches Reply::Text(t) && t@ == "missing target option"@
            } else {
                match find_spec(old(sup)@, q@.1.last().1) {
                    Some(i) => r == Reply::Foreground(i as usize),
                    None => r matches Reply::Text(t) && t@ == no_target_text(q@.1.last().1),
                }
            },
            _ => r matches Reply::Text(t) && t@ == "unimplemented"@,
        },
{
    let q = match req {
        Err(e) => {
            if *e == RequestError::UnknownVerb {
                return reply_text("unimplemented");
            }
            return reply_text("invalid request");
        },
        Ok(q) => q,
    };
    let ghost av = q@.1;
    match q.kind() {
        ApiKind::Shutdown => Reply::Shutdown,
        ApiKind::Status => Reply::Text(sup.list_status()),
        ApiKind::Log => Reply::Data(sup.drain_logs()),
        ApiKind::Kill => {
            let args = q.args();
            let mut targets: Vec<String> = Vec::new();
            let mut i: usize = 0;
            while i < args.len()
                invariant
                    i <= args@.len(),
                    args@.map_values(|a: crate::api::ApiArg| a@) == av,
                    targets@.map_values(|t: String| t@) == target_values(av).subrange(0, i as int),
                decreases args@.len() - i,
            {
                let ghost before = targets@;
                let v = chars_of(args[i].value());
                targets.push(string_of(v.as_slice()));
                assert(av[i as int] == args@[i as int]@);
                assert(targets@.map_values(|t: String| t@) =~= before.map_values(|t: String| t@).push(
                    av[i as int].1,
                ));
                i = i + 1;
                assert(targets@.map_values(|t: String| t@) =~= target_values(av).subrange(0, i as int));
            }
            assert(target_values(av).subrange(0, av.len() as int) =~= target_values(av));
            Reply::Signal(sup.kill(&targets))
        },
        ApiKind::Foreground => {
            let args = q.args();
            if args.len() == 0 {
                return reply_text("missing target option");
            }
            let last = &args[args.len() - 1];
            assert(av.last() == args@[args@.len() - 1]@);
            let name = last.value();
            match sup.find(name) {
                Some(i) => Reply::Foreground(i),
                None => {
                    let mut t = String::from_str("target ");
                    t.append(name);
                    t.append(" does not exists");
                    Reply::Text(t)
                },
            }
        },
        _ => reply_text("unimplemented"),
    }
}

/// What the client's input tunnel gave in one poll.
pub enum TunnelInput {
    /// These bytes arrived
    Data(Vec<u8>),
    /// Nothing yet
    Idle,
    /// The tunnel closed or failed
    Closed,
}

/// One round of a foreground session: bytes for the child's standard input,
/// bytes for the client's output tunnel, and whether the session ends.
pub struct BridgeStep {
    /// Write these to the child's standard input
    pub to_child: Vec<u8>,
    /// Send these to the client's output tunnel
    pub to_client: Vec<u8>,
    /// The session is over
    pub finished: bool,
}

/// A foreground session with one program: remembers how much of its
/// captured output the client has been sent.
pub struct Bridge {
    index: usize,
    sent: usize,
}

impl Bridge {
    /// The program the session is attached to.
    pub closed spec fn target(&self) -> nat {
        self.index as nat
    }

    /// Bytes of captured output already sent to the client.
    pub closed spec fn sent(&self) -> nat {
        self.sent as nat
    }

    /// A session with the program at `index`; all of its captured output
    /// is still to be sent.
    pub fn new(index: usize) -> (r: Bridge)
        ensures
            r.target() == index,
            r.sent() == 0,
    {
        Bridge { index, sent: 0 }
    }

    /// The program the session is attached to.
    pub fn index(&self) -> (r: usize)
        ensures
            r == self.target(),
    {
        self.index
    }

    /// One round: input bytes go to the child while it is Running; the
    /// captured output not yet sent goes to the client; the session ends
    /// when the input tunnel closes or the child is no longer Running.
    pub fn step(&mut self, sup: &Supervisor, input: TunnelInput) -> (r: BridgeStep)
        ensures
            final(self).target() == old(self).target(),
            old(self).target() >= sup@.len() ==> r.finished && r.to_child@.len() == 0
                && r.to_client@.len() == 0 && final(self).sent() == old(self).sent(),
            old(self).target() < sup@.len() ==> {
                let p = sup@[old(self).target() as int];
                let out = p.captured().out_bytes();
                &&& r.finished == (input is Closed || !(p.state() is Running))
                &&& r.to_child@ == match input {
                    TunnelInput::Data(d) => if p.state() is Running {
                        d@
                    } else {
                        Seq::empty()
                    },
                    _ => Seq::empty(),
                }
                &&& r.to_client@ == if old(self).sent() <= out.len() {
                    out.subrange(old(self).sent() as int, out.len() as int)
                } else {
                    Seq::empty()
                }
                &&& final(self).sent() == out.len()
            },
    {
        if self.index >= sup.len() {
            return BridgeStep { to_child: Vec::new(), to_client: Vec::new(), finished: true };
        }
        let p = sup.process(self.index);
        let running = match p.get_state() {
            ProcessState::Running(_) => true,
            _ => false,
        };
        let closed = match input {
            TunnelInput::Closed => true,
            _ => false,
        };
        let to_child = match input {
            TunnelInput::Data(d) => if running {
                d
            } else {
                Vec::new()
            },
            _ => Vec::new(),
        };
        let out = p.holder().get_stdout();
        let mut to_client: Vec<u8> = Vec::new();
        if self.sent <= out.len() {
            let mut k: usize = self.sent;
            while k < out.len()
                invariant
                    self.sent <= k <= out@.len(),
                    to_client@ == out@.subrange(self.sent as int, k as int),
                decreases out@.len() - k,
            {
                to_client.push(out[k]);
                k = k + 1;
                assert(to_client@ =~= out@.subrange(self.sent as int, k as int));
            }
        }
        self.sent = out.len();
        BridgeStep { to_child, to_client, finished: closed || !running }
    }
}

/// Whether the server still takes connections, and how many foreground
/// sessions are open.
pub struct Acceptor {
    open: bool,
    bridges: u64,
}

impl Acceptor {
    pub closed spec fn is_open(&self) -> bool {
        self.open
    }

    /// Foreground sessions open.
    pub closed spec fn sessions(&self) -> nat {
        self.bridges as nat
    }

    /// Open, with no session.
    pub fn new() -> (r: Acceptor)
        ensures
            r.is_open(),
            r.sessions() == 0,
    {
        Acceptor { open: true, bridges: 0 }
    }

    /// Whether a new connection is served; once shut down, none is.
    pub fn accept(&self) -> (r: bool)
        ensures
            r == self.is_open(),
    {
        self.open
    }

    /// Whether open foreground sessions must go on; they end once the
    /// server is shut down.
    pub fn bridges_may_run(&self) -> (r: bool)
        ensures
            r == self.is_open(),
    {
        self.open
    }

    /// A foreground session starts, if the server is still open.
    pub fn bridge_opened(&mut self) -> (r: bool)
        ensures
            final(self).is_open() == old(self).is_open(),
            r == (old(self).is_open() && old(self).sessions() < u64::MAX),
            r ==> final(self).sessions() == old(self).sessions() + 1,
            !r ==> final(self).sessions() == old(self).sessions(),
    {
        if self.open && self.bridges < u64::MAX {
            self.bridges = self.bridges + 1;
            true
        } else {
            false
        }
    }

    /// A foreground session ended.
    pub fn bridge_closed(&mut self)
        ensures
            final(self).is_open() == old(self).is_open(),
            final(self).sessions() == if old(self).sessions() > 0 {
                (old(self).sessions() - 1) as nat
            } else {
                0
            },
    {
        if self.bridges > 0 {
            self.bridges = self.bridges - 1;
        }
    }

    /// Shuts the server down: no connection is served after this, and the
    /// result is the number of open sessions that must be torn down.
    pub fn shutdown(&mut self) -> (r: u64)
        ensures
            !final(self).is_open(),
            r == old(self).sessions(),
    {
        self.open = false;
        self.bridges
    }
}

} // verus!
