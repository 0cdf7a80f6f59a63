//! Control protocol: requests are rendered as `[verb]kind=value,...`.

use vstd::prelude::*;
use crate::text::{chars_of, string_of, copy_range, chars_eq, push_all, find_char, first_index, lemma_first_index};

verus! {

/// Verb of a control request.
#[derive(Debug, Clone, Copy, PartialEq, Eq, Structural)]
pub enum ApiKind {
    /// Request the daemon's own log
    DaemonLog,
    /// Request the captured output of the programs
    Log,
    /// Request the state of every program
    Status,
    /// Request that programs be stopped
    Kill,
    /// Request a foreground session with one program
    Foreground,
    /// Request that a program be started
    Start,
    /// Request that a program be restarted
    Restart,
    /// Request that the daemon shut down
    Shutdown,
    /// Request the daemon's version
    Version,
}

/// The wire text of a verb.
pub open spec fn kind_text(k: ApiKind) -> Seq<char> {
    match k {
        ApiKind::DaemonLog => seq!['d', 'a', 'e', 'm', 'o', 'n', '_', 'l', 'o', 'g'],
        ApiKind::Log => seq!['l', 'o', 'g'],
        ApiKind::Status => seq!['s', 't', 'a', 't', 'u', 's'],
        ApiKind::Kill => seq!['k', 'i', 'l', 'l'],
        ApiKind::Foreground => seq!['f', 'o', 'r', 'e', 'g', 'r', 'o', 'u', 'n', 'd'],
        ApiKind::Start => seq!['s', 't', 'a', 'r', 't'],
        ApiKind::Restart => seq!['r', 'e', 's', 't', 'a', 'r', 't'],
        ApiKind::Shutdown => seq!['s', 'h', 'u', 't', 'd', 'o', 'w', 'n'],
        ApiKind::Version => seq!['v', 'e', 'r', 's', 'i', 'o', 'n'],
    }
}

/// The verb whose wire text is `s`, if any.
pub open spec fn kind_of_text(s: Seq<char>) -> Option<ApiKind> {
    if s == kind_text(ApiKind::DaemonLog) {
        Some(ApiKind::DaemonLog)
    } else if s == kind_text(ApiKind::Log) {
        Some(ApiKind::Log)
    } else if s == kind_text(ApiKind::Status) {
        Some(ApiKind::Status)
    } else if s == kind_text(ApiKind::Kill) {
        Some(ApiKind::Kill)
    } else if s == kind_text(ApiKind::Foreground) {
        Some(ApiKind::Foreground)
    } else if s == kind_text(ApiKind::Start) {
        Some(ApiKind::Start)
    } else if s == kind_text(ApiKind::Restart) {
        Some(ApiKind::Restart)
    } else if s == kind_text(ApiKind::Shutdown) {
        Some(ApiKind::Shutdown)
    } else if s == kind_text(ApiKind::Version) {
        Some(ApiKind::Version)
    } else {
        None
    }
}

/// Every verb is read back from its own text.
pub proof fn lemma_kind_text(k: ApiKind)
    ensures
        kind_of_text(kind_text(k)) == Some(k),
{
}

impl ApiKind {
    /// The wire text of this verb.
    pub fn name(&self) -> (r: Vec<char>)
        ensures
            r@ == kind_text(*self),
    {
        let r = match self {
            ApiKind::DaemonLog => vec!['d', 'a', 'e', 'm', 'o', 'n', '_', 'l', 'o', 'g'],
            ApiKind::Log => vec!['l', 'o', 'g'],
            ApiKind::Status => vec!['s', 't', 'a', 't', 'u', 's'],
            ApiKind::Kill => vec!['k', 'i', 'l', 'l'],
            ApiKind::Foreground => vec!['f', 'o', 'r', 'e', 'g', 'r', 'o', 'u', 'n', 'd'],
            ApiKind::Start => vec!['s', 't', 'a', 'r', 't'],
            ApiKind::Restart => vec!['r', 'e', 's', 't', 'a', 'r', 't'],
            ApiKind::Shutdown => vec!['s', 'h', 'u', 't', 'd', 'o', 'w', 'n'],
            ApiKind::Version => vec!['v', 'e', 'r', 's', 'i', 'o', 'n'],
        };
        assert(r@ =~= kind_text(*self));
        r
    }

    /// The verb spelled by `s`, if any.
    pub fn from_chars(s: &[char]) -> (r: Option<ApiKind>)
        ensures
            r == kind_of_text(s@),
    {
        if chars_eq(s, ApiKind::DaemonLog.name().as_slice()) {
            return Some(ApiKind::DaemonLog);
        }
        if chars_eq(s, ApiKind::Log.name().as_slice()) {
            return Some(ApiKind::Log);
        }
        if chars_eq(s, ApiKind::Status.name().as_slice()) {
            return Some(ApiKind::Status);
        }
        if chars_eq(s, ApiKind::Kill.name().as_slice()) {
            return Some(ApiKind::Kill);
        }
        if chars_eq(s, ApiKind::Foreground.name().as_slice()) {
            return Some(ApiKind::Foreground);
        }
        if chars_eq(s, ApiKind::Start.name().as_slice()) {
            return Some(ApiKind::Start);
        }
        if chars_eq(s, ApiKind::Restart.name().as_slice()) {
            return Some(ApiKind::Restart);
        }
        if chars_eq(s, ApiKind::Shutdown.name().as_slice()) {
            return Some(ApiKind::Shutdown);
        }
        if chars_eq(s, ApiKind::Version.name().as_slice()) {
            return Some(ApiKind::Version);
        }
        None
    }

    /// The verb spelled by `s`; the error hands `s` back.
    pub fn from_str(s: &str) -> (r: Result<ApiKind, String>)
        ensures
            r matches Ok(k) ==> kind_of_text(s@) == Some(k),
            r matches Err(e) ==> kind_of_text(s@) is None && e@ == s@,
    {
        let cs = chars_of(s);
        match ApiKind::from_chars(cs.as_slice()) {
            Some(k) => Ok(k),
            None => Err(string_of(cs.as_slice())),
        }
    }

    /// The wire text of this verb.
    pub fn to_string(&self) -> (r: String)
        ensures
            r@ == kind_text(*self),
    {
        let v = self.name();
        string_of(v.as_slice())
    }
}

/// Kind of a request argument.
#[derive(Debug, Clone, Copy, PartialEq, Eq, Structural)]
pub enum ApiArgKind {
    /// The program a request is aimed at
    Target,
}

/// The wire text of an argument kind.
pub open spec fn arg_kind_text(k: ApiArgKind) -> Seq<char> {
    match k {
        ApiArgKind::Target => seq!['t', 'a', 'r', 'g', 'e', 't'],
    }
}

/// The argument kind whose wire text is `s`, if any.
pub open spec fn arg_kind_of_text(s: Seq<char>) -> Option<ApiArgKind> {
    if s == arg_kind_text(ApiArgKind::Target) {
        Some(ApiArgKind::Target)
    } else {
        None
    }
}

impl ApiArgKind {
    /// The wire text of this argument kind.
    pub fn name(&self) -> (r: Vec<char>)
        ensures
            r@ == arg_kind_text(*self),
    {
        let r = match self {
            ApiArgKind::Target => vec!['t', 'a', 'r', 'g', 'e', 't'],
        };
        assert(r@ =~= arg_kind_text(*self));
        r
    }

    /// The argument kind spelled by `s`, if any.
    pub fn from_chars(s: &[char]) -> (r: Option<ApiArgKind>)
        ensures
            r == arg_kind_of_text(s@),
    {
        if chars_eq(s, ApiArgKind::Target.name().as_slice()) {
            return Some(ApiArgKind::Target);
        }
        None
    }
}

/// Why request text could not be read.
#[derive(Debug, Clone, Copy, PartialEq, Eq, Structural)]
pub enum RequestError {
    /// The text does not start with `[` or has no `]`
    MissingBracket,
    /// The verb is not one of the protocol's verbs
    UnknownVerb,
    /// A non-empty argument has no `=`
    MissingEqualSign,
    /// An argument's kind is not one of the protocol's kinds
    UnknownArgument,
}

impl RequestError {
    /// A short description of the error.
    pub fn message(&self) -> (r: &'static str)
        ensures
            r@ == match self {
                RequestError::MissingBracket => "missing bracket"@,
                RequestError::UnknownVerb => "unexpected verb"@,
                RequestError::MissingEqualSign => "no equal sign"@,
                RequestError::UnknownArgument => "unexpected argument"@,
            },
    {
        match self {
            RequestError::MissingBracket => "missing bracket",
            RequestError::UnknownVerb => "unexpected verb",
            RequestError::MissingEqualSign => "no equal sign",
            RequestError::UnknownArgument => "unexpected argument",
        }
    }
}

/// An argument as the protocol sees it: its kind and its value.
pub type ArgView = (ApiArgKind, Seq<char>);

/// The wire text of one argument, `kind=value`.
pub open spec fn arg_text(a: ArgView) -> Seq<char> {
    arg_kind_text(a.0) + seq!['='] + a.1
}

/// How one comma-separated segment is read.
pub open spec fn parse_arg(seg: Seq<char>) -> Result<ArgView, RequestError> {
    let e = first_index(seg, '=');
    if e >= seg.len() {
        Err(RequestError::MissingEqualSign)
    } else {
        match arg_kind_of_text(seg.subrange(0, e as int)) {
            Some(k) => Ok((k, seg.subrange(e as int + 1, seg.len() as int))),
            None => Err(RequestError::UnknownArgument),
        }
    }
}

/// Request argument.
#[derive(Debug)]
pub struct ApiArg {
    kind: ApiArgKind,
    val: String,
}

impl View for ApiArg {
    type V = ArgView;

    closed spec fn view(&self) -> ArgView {
        (self.kind, self.val@)
    }
}

impl ApiArg {
    /// Creates an argument.
    pub fn new(kind: ApiArgKind, val: String) -> (r: ApiArg)
        ensures
            r@ == (kind, val@),
    {
        ApiArg { kind, val }
    }

    /// The argument's kind.
    pub fn kind(&self) -> (r: &ApiArgKind)
        ensures
            *r == self@.0,
    {
        &self.kind
    }

    /// The argument's value.
    pub fn value(&self) -> (r: &str)
        ensures
            r@ == self@.1,
    {
        self.val.as_str()
    }

    /// Reads `kind=value`: the kind is what stands before the first `=`.
    pub fn from_chars(s: &[char]) -> (r: Result<ApiArg, RequestError>)
        ensures
            r matches Ok(a) ==> parse_arg(s@) == Ok::<ArgView, RequestError>(a@),
            r matches Err(e) ==> parse_arg(s@) == Err::<ArgView, RequestError>(e),
    {
        let e = find_char(s, 0, '=');
        proof {
            lemma_first_index(s@, '=', e as nat);
        }
        if e == s.len() {
            return Err(RequestError::MissingEqualSign);
        }
        let name = copy_range(s, 0, e);
        match ApiArgKind::from_chars(name.as_slice()) {
            Some(kind) => {
                let v = copy_range(s, e + 1, s.len());
                Ok(ApiArg { kind, val: string_of(v.as_slice()) })
            },
            None => Err(RequestError::UnknownArgument),
        }
    }

    /// Reads `kind=value`.
    pub fn from_str(s: &str) -> (r: Result<ApiArg, RequestError>)
        ensures
            r matches Ok(a) ==> parse_arg(s@) == Ok::<ArgView, RequestError>(a@),
            r matches Err(e) ==> parse_arg(s@) == Err::<ArgView, RequestError>(e),
    {
        let cs = chars_of(s);
        ApiArg::from_chars(cs.as_slice())
    }

    /// Appends `kind=value` to `out`.
    pub fn write_to(&self, out: &mut Vec<char>)
        ensures
            final(out)@ == old(out)@ + arg_text(self@),
    {
        let k = self.kind.name();
        push_all(out, k.as_slice());
        out.push('=');
        let v = chars_of(self.val.as_str());
        push_all(out, v.as_slice());
        assert(final(out)@ =~= old(out)@ + arg_text(self@));
    }

    /// The wire text `kind=value`.
    pub fn to_string(&self) -> (r: String)
        ensures
            r@ == arg_text(self@),
    {
        let mut out: Vec<char> = Vec::new();
        self.write_to(&mut out);
        assert(out@ =~= arg_text(self@));
        string_of(out.as_slice())
    }

    /// A copy of this argument.
    pub fn duplicate(&self) -> (r: ApiArg)
        ensures
            r@ == self@,
    {
        let v = chars_of(self.val.as_str());
        ApiArg { kind: self.kind, val: string_of(v.as_slice()) }
    }
}

impl PartialEq for ApiArg {
    fn eq(&self, other: &ApiArg) -> (r: bool)
        ensures
            r == (self@ == other@),
    {
        let a = chars_of(self.val.as_str());
        let b = chars_of(other.val.as_str());
        self.kind == other.kind && chars_eq(a.as_slice(), b.as_slice())
    }
}

impl vstd::std_specs::cmp::PartialEqSpecImpl for ApiArg {
    open spec fn obeys_eq_spec() -> bool {
        true
    }

    open spec fn eq_spec(&self, other: &ApiArg) -> bool {
        self@ == other@
    }
}

/// The pieces of `s` between occurrences of `sep`, left to right; there is
/// always at least one piece.
pub open spec fn split_on(s: Seq<char>, sep: char) -> Seq<Seq<char>>
    decreases s.len(),
{
    if s.len() == 0 {
        seq![Seq::<char>::empty()]
    } else {
        let init = split_on(s.drop_last(), sep);
        if s.last() == sep {
            init.push(Seq::<char>::empty())
        } else {
            init.update(init.len() - 1, init.last().push(s.last()))
        }
    }
}

/// Splitting always gives at least one piece.
pub proof fn lemma_split_on_len(s: Seq<char>, sep: char)
    ensures
        split_on(s, sep).len() >= 1,
    decreases s.len(),
{
    if s.len() > 0 {
        lemma_split_on_len(s.drop_last(), sep);
    }
}

/// The arguments read from the segments, in order; empty segments are
/// skipped and the first bad segment decides the error.
pub open spec fn parse_args(segs: Seq<Seq<char>>) -> Result<Seq<ArgView>, RequestError>
    decreases segs.len(),
{
    if segs.len() == 0 {
        Ok(Seq::empty())
    } else {
        match parse_args(segs.drop_last()) {
            Err(e) => Err(e),
            Ok(acc) => if segs.last().len() == 0 {
                Ok(acc)
            } else {
                match parse_arg(segs.last()) {
                    Ok(a) => Ok(acc.push(a)),
                    Err(e) => Err(e),
                }
            },
        }
    }
}

/// A request as the protocol sees it: its verb and its arguments.
pub type RequestView = (ApiKind, Seq<ArgView>);

/// How request text is read: `[`, a verb up to the first `]`, then
/// comma-separated arguments.
pub open spec fn decode_request(s: Seq<char>) -> Result<RequestView, RequestError> {
    if s.len() == 0 || s[0] != '[' {
        Err(RequestError::MissingBracket)
    } else {
        let body = s.drop_first();
        let idx = first_index(body, ']');
        if idx >= body.len() {
            Err(RequestError::MissingBracket)
        } else {
            match kind_of_text(body.subrange(0, idx as int)) {
                None => Err(RequestError::UnknownVerb),
                Some(k) => match parse_args(split_on(body.subrange(idx as int + 1, body.len() as int), ',')) {
                    Ok(args) => Ok((k, args)),
                    Err(e) => Err(e),
                },
            }
        }
    }
}

/// The arguments' texts joined by commas.
pub open spec fn join_args(args: Seq<ArgView>) -> Seq<char>
    decreases args.len(),
{
    if args.len() == 0 {
        Seq::empty()
    } else if args.len() == 1 {
        arg_text(args[0])
    } else {
        join_args(args.drop_last()) + seq![','] + arg_text(args.last())
    }
}

/// The wire text of a request.
pub open spec fn request_text(r: RequestView) -> Seq<char> {
    seq!['['] + kind_text(r.0) + seq![']'] + join_args(r.1)
}

/// A request that can go over the wire unchanged: no value holds a comma.
pub open spec fn request_encodable(r: RequestView) -> bool {
    forall|i: int| 0 <= i < r.1.len() ==> !(#[trigger] r.1[i]).1.contains(',')
}

/// API request.
#[derive(Debug)]
pub struct ApiRequest {
    kind: ApiKind,
    args: Vec<ApiArg>,
}

impl View for ApiRequest {
    type V = RequestView;

    closed spec fn view(&self) -> RequestView {
        (self.kind, self.args@.map_values(|a: ApiArg| a@))
    }
}

impl ApiRequest {
    /// The request's verb.
    pub fn kind(&self) -> (r: &ApiKind)
        ensures
            *r == self@.0,
    {
        &self.kind
    }

    /// The request's arguments.
    pub fn args(&self) -> (r: &Vec<ApiArg>)
        ensures
            r@.map_values(|a: ApiArg| a@) == self@.1,
    {
        &self.args
    }

    /// Reads request text.
    pub fn from_chars(cs: &[char]) -> (r: Result<ApiRequest, RequestError>)
        ensures
            r matches Ok(q) ==> decode_request(cs@) == Ok::<RequestView, RequestError>(q@),
            r matches Err(e) ==> decode_request(cs@) == Err::<RequestView, RequestError>(e),
    {
        if cs.len() == 0 || cs[0] != '[' {
            return Err(RequestError::MissingBracket);
        }
        let ghost body = cs@.drop_first();
        let idx = find_char(cs, 1, ']');
        proof {
            assert forall|j: int| 0 <= j < idx - 1 implies body[j] != ']' by {
                assert(body[j] == cs@[j + 1]);
            }
            lemma_first_index(body, ']', (idx - 1) as nat);
        }
        if idx == cs.len() {
            return Err(RequestError::MissingBracket);
        }
        let verb = copy_range(cs, 1, idx);
        assert(verb@ =~= body.subrange(0, idx - 1));
        let kind = match ApiKind::from_chars(verb.as_slice()) {
            Some(k) => k,
            None => {
                return Err(RequestError::UnknownVerb);
            },
        };
        let ghost rest = body.subrange(idx as int, body.len() as int);
        assert(rest =~= cs@.subrange(idx + 1, cs@.len() as int));
        let segs = split_chars(cs, idx + 1, ',');
        let ghost sv = segs@.map_values(|v: Vec<char>| v@);
        let mut args: Vec<ApiArg> = Vec::new();
        let mut j: usize = 0;
        assert(sv.subrange(0, 0) =~= Seq::<Seq<char>>::empty());
        assert(decode_request(cs@) == match parse_args(sv) {
            Ok(a) => Ok::<RequestView, RequestError>((kind, a)),
            Err(e) => Err(e),
        });
        assert(args@.map_values(|a: ApiArg| a@) =~= Seq::<ArgView>::empty());
        while j < segs.len()
            invariant
                j <= segs@.len(),
                sv == segs@.map_values(|v: Vec<char>| v@),
                decode_request(cs@) == match parse_args(sv) {
                    Ok(a) => Ok::<RequestView, RequestError>((kind, a)),
                    Err(e) => Err(e),
                },
                parse_args(sv.subrange(0, j as int)) == Ok::<Seq<ArgView>, RequestError>(
                    args@.map_values(|a: ApiArg| a@),
                ),
            decreases segs@.len() - j,
        {
            let ghost pre = sv.subrange(0, j as int);
            let ghost post = sv.subrange(0, j + 1);
            assert(post.drop_last() =~= pre);
            assert(post.last() == sv[j as int]);
            assert(sv[j as int] == segs@[j as int]@);
            if segs[j].len() > 0 {
                match ApiArg::from_chars(segs[j].as_slice()) {
                    Ok(a) => {
                        let ghost before = args@;
                        args.push(a);
                        assert(args@.map_values(|a: ApiArg| a@) =~= before.map_values(
                            |a: ApiArg| a@,
                        ).push(a@));
                    },
                    Err(e) => {
                        proof {
                            assert(parse_args(post) == Err::<Seq<ArgView>, RequestError>(e));
                            lemma_parse_args_err(sv, (j + 1) as nat, e);
                            assert(sv.subrange(0, sv.len() as int) =~= sv);
                        }
                        return Err(e);
                    },
                }
            }
            j = j + 1;
        }
        assert(sv.subrange(0, sv.len() as int) =~= sv);
        Ok(ApiRequest { kind, args })
    }

    /// Reads request text such as `[kill]target=web`.
    pub fn from_str(s: &str) -> (r: Result<ApiRequest, RequestError>)
        ensures
            r matches Ok(q) ==> decode_request(s@) == Ok::<RequestView, RequestError>(q@),
            r matches Err(e) ==> decode_request(s@) == Err::<RequestView, RequestError>(e),
    {
        let cs = chars_of(s);
        ApiRequest::from_chars(cs.as_slice())
    }

    /// The wire text of this request, as characters.
    pub fn to_chars(&self) -> (r: Vec<char>)
        ensures
            r@ == request_text(self@),
    {
        let mut out: Vec<char> = vec!['['];
        let k = self.kind.name();
        push_all(&mut out, k.as_slice());
        out.push(']');
        let ghost head = out@;
        let ghost av = self.args@.map_values(|a: ApiArg| a@);
        let mut i: usize = 0;
        while i < self.args.len()
            invariant
                i <= self.args@.len(),
                av == self.args@.map_values(|a: ApiArg| a@),
                out@ == head + join_args(av.subrange(0, i as int)),
            decreases self.args@.len() - i,
        {
            let ghost pre = av.subrange(0, i as int);
            let ghost post = av.subrange(0, i + 1);
            assert(post.drop_last() =~= pre);
            if i > 0 {
                out.push(',');
            }
            self.args[i].write_to(&mut out);
            i = i + 1;
            if i == 1 {
                assert(post =~= seq![av[0]]);
                assert(out@ =~= head + join_args(post));
            } else {
                assert(out@ =~= head + join_args(post));
            }
        }
        assert(av.subrange(0, av.len() as int) =~= av);
        assert(out@ =~= request_text(self@));
        out
    }

    /// The wire text of this request.
    pub fn to_string(&self) -> (r: String)
        ensures
            r@ == request_text(self@),
    {
        let v = self.to_chars();
        string_of(v.as_slice())
    }
}

impl PartialEq for ApiRequest {
    fn eq(&self, other: &ApiRequest) -> (r: bool)
        ensures
            r == (self@ == other@),
    {
        if self.kind != other.kind || self.args.len() != other.args.len() {
            proof {
                if self@ == other@ {
                    assert(self@.1.len() == other@.1.len());
                }
            }
            return false;
        }
        let ghost a = self@.1;
        let ghost b = other@.1;
        let mut i: usize = 0;
        while i < self.args.len()
            invariant
                i <= self.args@.len(),
                self.args@.len() == other.args@.len(),
                a == self@.1,
                b == other@.1,
                a.subrange(0, i as int) == b.subrange(0, i as int),
            decreases self.args@.len() - i,
        {
            if !(self.args[i] == other.args[i]) {
                proof {
                    assert(a[i as int] != b[i as int]);
                }
                return false;
            }
            i = i + 1;
            assert(a.subrange(0, i as int) =~= a.subrange(0, i - 1).push(a[i - 1]));
            assert(b.subrange(0, i as int) =~= b.subrange(0, i - 1).push(b[i - 1]));
        }
        assert(a =~= a.subrange(0, i as int));
        assert(b =~= b.subrange(0, i as int));
        true
    }
}

impl vstd::std_specs::cmp::PartialEqSpecImpl for ApiRequest {
    open spec fn obeys_eq_spec() -> bool {
        true
    }

    open spec fn eq_spec(&self, other: &ApiRequest) -> bool {
        self@ == other@
    }
}

proof fn lemma_parse_args_err(segs: Seq<Seq<char>>, j: nat, e: RequestError)
    requires
        j <= segs.len(),
        parse_args(segs.subrange(0, j as int)) == Err::<Seq<ArgView>, RequestError>(e),
    ensures
        parse_args(segs) == Err::<Seq<ArgView>, RequestError>(e),
    decreases segs.len() - j,
{
    if j < segs.len() {
        assert(segs.subrange(0, j as int + 1).drop_last() =~= segs.subrange(0, j as int));
        lemma_parse_args_err(segs, j + 1, e);
    } else {
        assert(segs.subrange(0, j as int) =~= segs);
    }
}

/// The pieces of `s[from..]` between occurrences of `sep`.
pub fn split_chars(s: &[char], from: usize, sep: char) -> (r: Vec<Vec<char>>)
    requires
        from <= s@.len(),
    ensures
        r@.map_values(|v: Vec<char>| v@) == split_on(s@.subrange(from as int, s@.len() as int), sep),
{
    let mut done: Vec<Vec<char>> = Vec::new();
    let mut cur: Vec<char> = Vec::new();
    let mut i: usize = from;
    assert(s@.subrange(from as int, from as int) =~= Seq::<char>::empty());
    assert(done@.map_values(|v: Vec<char>| v@).push(cur@) =~= seq![Seq::<char>::empty()]);
    while i < s.len()
        invariant
            from <= i <= s@.len(),
            done@.map_values(|v: Vec<char>| v@).push(cur@) == split_on(
                s@.subrange(from as int, i as int),
                sep,
            ),
        decreases s@.len() - i,
    {
        let ghost pre = s@.subrange(from as int, i as int);
        let ghost post = s@.subrange(from as int, i + 1);
        assert(post.drop_last() =~= pre);
        assert(post.last() == s@[i as int]);
        let ghost dv = done@.map_values(|v: Vec<char>| v@);
        if s[i] == sep {
            let mut piece: Vec<char> = Vec::new();
            std::mem::swap(&mut piece, &mut cur);
            done.push(piece);
            assert(done@.map_values(|v: Vec<char>| v@) =~= dv.push(piece@));
            assert(cur@ =~= Seq::<char>::empty());
        } else {
            cur.push(s[i]);
            let ghost last = split_on(pre, sep).last();
            assert(dv.push(cur@) =~= dv.push(last).update(dv.len() as int, last.push(s@[i as int])));
        }
        i = i + 1;
    }
    let mut out = done;
    let ghost dv = out@.map_values(|v: Vec<char>| v@);
    out.push(cur);
    assert(out@.map_values(|v: Vec<char>| v@) =~= dv.push(cur@));
    out
}

spec fn free_of(s: Seq<char>, c: char) -> bool {
    forall|i: int| 0 <= i < s.len() ==> s[i] != c
}

proof fn lemma_kind_text_chars(k: ApiKind)
    ensures
        free_of(kind_text(k), ']'),
{
    lemma_kind_text(k);
}

proof fn lemma_arg_kind_text_chars(k: ApiArgKind)
    ensures
        free_of(arg_kind_text(k), '='),
        free_of(arg_kind_text(k), ','),
        arg_kind_text(k).len() == 6,
{
}

proof fn lemma_split_free_suffix(x: Seq<char>, y: Seq<char>, sep: char)
    requires
        free_of(y, sep),
    ensures
        split_on(x + y, sep) == split_on(x, sep).update(
            split_on(x, sep).len() - 1,
            split_on(x, sep).last() + y,
        ),
    decreases y.len(),
{
    lemma_split_on_len(x, sep);
    let sx = split_on(x, sep);
    if y.len() == 0 {
        assert(x + y =~= x);
        assert(sx.last() + y =~= sx.last());
        assert(sx.update(sx.len() - 1, sx.last() + y) =~= sx);
    } else {
        let y0 = y.drop_last();
        assert((x + y).drop_last() =~= x + y0);
        assert((x + y).last() == y.last());
        lemma_split_free_suffix(x, y0, sep);
        assert((sx.last() + y0).push(y.last()) =~= sx.last() + y);
        assert(sx.update(sx.len() - 1, sx.last() + y0).update(sx.len() - 1, sx.last() + y)
            =~= sx.update(sx.len() - 1, sx.last() + y));
    }
}

proof fn lemma_arg_text_free(a: ArgView)
    requires
        !a.1.contains(','),
    ensures
        free_of(arg_text(a), ','),
        arg_text(a).len() > 0,
{
    lemma_arg_kind_text_chars(a.0);
    let t = arg_text(a);
    assert forall|i: int| 0 <= i < t.len() implies t[i] != ',' by {
        if i >= 7 {
            assert(t[i] == a.1[i - 7]);
        }
    }
}

proof fn lemma_split_join(args: Seq<ArgView>)
    requires
        args.len() >= 1,
        forall|i: int| 0 <= i < args.len() ==> !(#[trigger] args[i]).1.contains(','),
    ensures
        split_on(join_args(args), ',') == args.map_values(|a: ArgView| arg_text(a)),
    decreases args.len(),
{
    let t = arg_text(args.last());
    lemma_arg_text_free(args.last());
    if args.len() == 1 {
        let e = Seq::<char>::empty();
        lemma_split_free_suffix(e, t, ',');
        assert(e + t =~= t);
        assert(split_on(t, ',') =~= seq![t]);
        assert(args.map_values(|a: ArgView| arg_text(a)) =~= seq![t]);
    } else {
        let init = args.drop_last();
        assert forall|i: int| 0 <= i < init.len() implies !(#[trigger] init[i]).1.contains(',') by {
            assert(init[i] == args[i]);
        }
        lemma_split_join(init);
        let j0 = join_args(init);
        let j1 = j0 + seq![','];
        assert(j1.drop_last() =~= j0);
        lemma_split_on_len(j1, ',');
        lemma_split_free_suffix(j1, t, ',');
        assert(j1 + t =~= join_args(args));
        let sj = split_on(j0, ',').push(Seq::<char>::empty());
        assert(sj.last() + t =~= t);
        assert(sj.update(sj.len() - 1, t) =~= split_on(j0, ',').push(t));
        assert(args.map_values(|a: ArgView| arg_text(a)) =~= init.map_values(
            |a: ArgView| arg_text(a),
        ).push(t));
    }
}

proof fn lemma_parse_arg_text(a: ArgView)
    ensures
        parse_arg(arg_text(a)) == Ok::<ArgView, RequestError>(a),
{
    lemma_arg_kind_text_chars(a.0);
    let t = arg_text(a);
    assert forall|j: int| 0 <= j < 6 implies t[j] != '=' by {
        assert(t[j] == arg_kind_text(a.0)[j]);
    }
    lemma_first_index(t, '=', 6);
    assert(t.subrange(0, 6) =~= arg_kind_text(a.0));
    assert(t.subrange(7, t.len() as int) =~= a.1);
}

proof fn lemma_parse_texts(args: Seq<ArgView>)
    ensures
        parse_args(args.map_values(|a: ArgView| arg_text(a))) == Ok::<Seq<ArgView>, RequestError>(args),
    decreases args.len(),
{
    let segs = args.map_values(|a: ArgView| arg_text(a));
    if args.len() == 0 {
        assert(segs =~= Seq::<Seq<char>>::empty());
        assert(args =~= Seq::<ArgView>::empty());
    } else {
        let init = args.drop_last();
        lemma_parse_texts(init);
        assert(segs.drop_last() =~= init.map_values(|a: ArgView| arg_text(a)));
        lemma_parse_arg_text(args.last());
        lemma_arg_kind_text_chars(args.last().0);
        assert(segs.last() == arg_text(args.last()));
        assert(segs.last().len() > 0);
        assert(parse_args(segs.drop_last()) == Ok::<Seq<ArgView>, RequestError>(init));
        assert(parse_arg(segs.last()) == Ok::<ArgView, RequestError>(args.last()));
        assert(init.push(args.last()) =~= args);
        assert(parse_args(segs) == Ok::<Seq<ArgView>, RequestError>(init.push(args.last())));
    }
}

/// Reading the wire text of a request gives the request back, for every
/// verb and every list of arguments whose values hold no comma.
pub proof fn lemma_request_round_trip(r: RequestView)
    requires
        request_encodable(r),
    ensures
        decode_request(request_text(r)) == Ok::<RequestView, RequestError>(r),
{
    let s = request_text(r);
    let kt = kind_text(r.0);
    let j = join_args(r.1);
    let body = s.drop_first();
    assert(body =~= kt + seq![']'] + j);
    lemma_kind_text_chars(r.0);
    assert forall|i: int| 0 <= i < kt.len() implies body[i] != ']' by {
        assert(body[i] == kt[i]);
    }
    lemma_first_index(body, ']', kt.len());
    assert(body.subrange(0, kt.len() as int) =~= kt);
    lemma_kind_text(r.0);
    assert(body.subrange(kt.len() as int + 1, body.len() as int) =~= j);
    if r.1.len() == 0 {
        assert(j =~= Seq::<char>::empty());
        assert(split_on(j, ',') =~= seq![Seq::<char>::empty()]);
        let segs = seq![Seq::<char>::empty()];
        assert(segs.drop_last() =~= Seq::<Seq<char>>::empty());
        assert(parse_args(Seq::<Seq<char>>::empty()) == Ok::<Seq<ArgView>, RequestError>(Seq::empty()));
        assert(parse_args(segs) == Ok::<Seq<ArgView>, RequestError>(Seq::empty()));
        assert(r.1 =~= Seq::<ArgView>::empty());
    } else {
        lemma_split_join(r.1);
        lemma_parse_texts(r.1);
        assert(parse_args(split_on(j, ',')) == Ok::<Seq<ArgView>, RequestError>(r.1));
    }
}

/// Request builder.
pub struct ApiRequestBuilder {
    req: ApiRequest,
}

impl View for ApiRequestBuilder {
    type V = RequestView;

    closed spec fn view(&self) -> RequestView {
        self.req@
    }
}

impl ApiRequestBuilder {
    /// A builder for a request with verb `kind` and no arguments.
    pub fn new(kind: ApiKind) -> (r: ApiRequestBuilder)
        ensures
            r@ == (kind, Seq::<ArgView>::empty()),
    {
        let r = ApiRequestBuilder { req: ApiRequest { kind, args: Vec::new() } };
        assert(r@.1 =~= Seq::<ArgView>::empty());
        r
    }

    /// Sets the verb.
    pub fn kind(self, kind: ApiKind) -> (r: ApiRequestBuilder)
        ensures
            r@ == (kind, self@.1),
    {
        let mut s = self;
        s.req.kind = kind;
        s
    }

    /// Adds an argument at the end.
    pub fn arg(self, kind: ApiArgKind, val: String) -> (r: ApiRequestBuilder)
        ensures
            r@ == (self@.0, self@.1.push((kind, val@))),
    {
        let mut s = self;
        let a = ApiArg::new(kind, val);
        s.req.args.push(a);
        assert(s@.1 =~= self@.1.push((kind, val@)));
        s
    }

    /// Replaces the arguments.
    pub fn args(self, args: Vec<ApiArg>) -> (r: ApiRequestBuilder)
        ensures
            r@ == (self@.0, args@.map_values(|a: ApiArg| a@)),
    {
        let mut s = self;
        s.req.args = args;
        s
    }

    /// The request built.
    pub fn build(self) -> (r: ApiRequest)
        ensures
            r@ == self@,
    {
        self.req
    }
}

} // verus!
