//! What the client does with a line typed at its prompt.

use vstd::prelude::*;
use crate::api::{ApiArg, ApiArgKind, ApiKind, ApiRequest, ApiRequestBuilder, ArgView};
use crate::text::{chars_of, chars_eq, string_of};

verus! {

/// A typed line, understood.
pub enum CliCommand {
    /// Send this request and print the reply
    Ask(ApiRequest),
    /// Send this request; no reply comes
    Tell(ApiRequest),
    /// Send this request, then run a foreground session
    Foreground(ApiRequest),
    /// Leave the client
    Exit,
    /// Nothing was typed
    Empty,
    /// Not a command
    Invalid,
}

/// `(target, w)` for each word.
pub open spec fn target_args(ws: Seq<Seq<char>>) -> Seq<ArgView> {
    ws.map_values(|w: Seq<char>| (ApiArgKind::Target, w))
}

fn word_is(w: &String, lit: &str) -> (r: bool)
    ensures
        r == (w@ == lit@),
{
    let a = chars_of(w.as_str());
    let b = chars_of(lit);
    chars_eq(a.as_slice(), b.as_slice())
}

fn copy_string(w: &String) -> (r: String)
    ensures
        r@ == w@,
{
    let v = chars_of(w.as_str());
    string_of(v.as_slice())
}

/// Reads the words of a prompt line: `status`, `log TARGET`,
/// `kill TARGET...` (every program when none is named), `fg TARGET`,
/// `shutdown` and `exit`.
pub fn cli_command(words: &Vec<String>) -> (r: CliCommand)
    ensures
        ({
            let ws = words@.map_values(|w: String| w@);
            if ws.len() == 0 {
                r is Empty
            } else if ws[0] == "status"@ {
                r matches CliCommand::Ask(q) && q@ == (ApiKind::Status, Seq::<ArgView>::empty())
            } else if ws[0] == "log"@ {
                if ws.len() == 2 {
                    r matches CliCommand::Ask(q) && q@ == (ApiKind::Log, target_args(ws.subrange(1, 2)))
                } else {
                    r is Invalid
                }
            } else if ws[0] == "kill"@ {
                r matches CliCommand::Tell(q) && q@ == (ApiKind::Kill, target_args(
                    ws.subrange(1, ws.len() as int),
                ))
            } else if ws[0] == "fg"@ {
                if ws.len() == 2 {
                    r matches CliCommand::Foreground(q) && q@ == (
                        ApiKind::Foreground,
                        target_args(ws.subrange(1, 2)),
                    )
                } else {
                    r is Invalid
                }
            } else if ws[0] == "shutdown"@ {
                r matches CliCommand::Tell(q) && q@ == (ApiKind::Shutdown, Seq::<ArgView>::empty())
            } else if ws[0] == "exit"@ {
                r is Exit
            } else {
                r is Invalid
            }
        }),
{
    let ghost ws = words@.map_values(|w: String| w@);
    proof {
        reveal_strlit("status");
        reveal_strlit("log");
        reveal_strlit("kill");
        reveal_strlit("fg");
        reveal_strlit("shutdown");
        reveal_strlit("exit");
    }
    if words.len() == 0 {
        return CliCommand::Empty;
    }
    assert(ws[0] == words@[0]@);
    let cmd = &words[0];
    if word_is(cmd, "status") {
        return CliCommand::Ask(ApiRequestBuilder::new(ApiKind::Status).build());
    }
    if word_is(cmd, "log") || word_is(cmd, "fg") {
        if words.len() != 2 {
            return CliCommand::Invalid;
        }
        let kind = if word_is(cmd, "log") {
            ApiKind::Log
        } else {
            ApiKind::Foreground
        };
        let req = ApiRequestBuilder::new(kind).arg(ApiArgKind::Target, copy_string(&words[1])).build();
        assert(ws[1] == words@[1]@);
        assert(target_args(ws.subrange(1, 2)) =~= Seq::<ArgView>::empty().push(
            (ApiArgKind::Target, ws[1]),
        ));
        if word_is(cmd, "log") {
            return CliCommand::Ask(req);
        }
        return CliCommand::Foreground(req);
    }
    if word_is(cmd, "kill") {
        let mut args: Vec<ApiArg> = Vec::new();
        let mut i: usize = 1;
        while i < words.len()
            invariant
                1 <= i <= words@.len(),
                ws == words@.map_values(|w: String| w@),
                args@.map_values(|a: ApiArg| a@) == target_args(ws.subrange(1, i as int)),
            decreases words@.len() - i,
        {
            let ghost before = args@;
            args.push(ApiArg::new(ApiArgKind::Target, copy_string(&words[i])));
            assert(ws[i as int] == words@[i as int]@);
            assert(args@.map_values(|a: ApiArg| a@) =~= before.map_values(|a: ApiArg| a@).push(
                (ApiArgKind::Target, ws[i as int]),
            ));
            assert(ws.subrange(1, i + 1) =~= ws.subrange(1, i as int).push(ws[i as int]));
            i = i + 1;
            assert(args@.map_values(|a: ApiArg| a@) =~= target_args(ws.subrange(1, i as int)));
        }
        return CliCommand::Tell(ApiRequestBuilder::new(ApiKind::Kill).args(args).build());
    }
    if word_is(cmd, "shutdown") {
        return CliCommand::Tell(ApiRequestBuilder::new(ApiKind::Shutdown).build());
    }
    if word_is(cmd, "exit") {
        return CliCommand::Exit;
    }
    CliCommand::Invalid
}

} // verus!
