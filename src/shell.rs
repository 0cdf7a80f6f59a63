//! Shell-like word splitting, for program commands and for the client's
//! command line.

use vstd::prelude::*;
use crate::text::{chars_of, string_of};

verus! {

/// Where the splitter stands.
#[derive(Debug, Clone, Copy, PartialEq, Eq, Structural)]
pub enum SplitMode {
    /// Between words
    Between,
    /// Inside an unquoted word
    Word,
    /// Inside a quoted word opened by the given quote character
    Quoted(char),
}

/// Splitter state: the words finished so far, the word being read, the
/// mode, and whether the previous character was an escaping backslash.
pub struct SplitState {
    pub words: Seq<Seq<char>>,
    pub cur: Seq<char>,
    pub mode: SplitMode,
    pub escaped: bool,
}

/// The separators between words.
pub open spec fn is_space(c: char) -> bool {
    c == ' ' || c == '\t' || c == '\n' || c == '\r' || c == '\x0b' || c == '\x0c'
}

pub open spec fn is_quote(c: char) -> bool {
    c == '\'' || c == '"'
}

pub open spec fn split_start() -> SplitState {
    SplitState { words: Seq::empty(), cur: Seq::empty(), mode: SplitMode::Between, escaped: false }
}

/// One character. A backslash (when `escapes` is set) makes the next
/// character literal; a quote opens a quoted part and the same quote closes
/// it and ends the word; whitespace outside quotes ends a word.
pub open spec fn split_step(st: SplitState, c: char, escapes: bool) -> SplitState {
    if st.escaped {
        SplitState {
            cur: st.cur.push(c),
            mode: if st.mode == SplitMode::Between { SplitMode::Word } else { st.mode },
            escaped: false,
            ..st
        }
    } else if escapes && c == '\\' {
        SplitState {
            mode: if st.mode == SplitMode::Between { SplitMode::Word } else { st.mode },
            escaped: true,
            ..st
        }
    } else if is_quote(c) {
        match st.mode {
            SplitMode::Quoted(q) => if q == c {
                SplitState { words: st.words.push(st.cur), cur: Seq::empty(), mode: SplitMode::Between, ..st }
            } else {
                SplitState { cur: st.cur.push(c), ..st }
            },
            _ => SplitState { mode: SplitMode::Quoted(c), ..st },
        }
    } else if is_space(c) {
        match st.mode {
            SplitMode::Between => st,
            SplitMode::Word => SplitState {
                words: st.words.push(st.cur),
                cur: Seq::empty(),
                mode: SplitMode::Between,
                ..st
            },
            SplitMode::Quoted(_) => SplitState { cur: st.cur.push(c), ..st },
        }
    } else {
        SplitState {
            cur: st.cur.push(c),
            mode: if st.mode == SplitMode::Between { SplitMode::Word } else { st.mode },
            ..st
        }
    }
}

pub open spec fn split_fold(s: Seq<char>, escapes: bool) -> SplitState
    decreases s.len(),
{
    if s.len() == 0 {
        split_start()
    } else {
        split_step(split_fold(s.drop_last(), escapes), s.last(), escapes)
    }
}

/// The words of `s`; a word still open at the end counts when it is not
/// empty.
pub open spec fn shell_words(s: Seq<char>, escapes: bool) -> Seq<Seq<char>> {
    let st = split_fold(s, escapes);
    if st.cur.len() > 0 {
        st.words.push(st.cur)
    } else {
        st.words
    }
}

fn split_words(cs: &[char], escapes: bool) -> (r: Vec<String>)
    ensures
        r@.map_values(|w: String| w@) == shell_words(cs@, escapes),
{
    let mut words: Vec<Vec<char>> = Vec::new();
    let mut cur: Vec<char> = Vec::new();
    let mut mode = SplitMode::Between;
    let mut escaped = false;
    let mut i: usize = 0;
    while i < cs.len()
        invariant
            i <= cs@.len(),
            ({
                let st = split_fold(cs@.subrange(0, i as int), escapes);
                &&& words@.map_values(|w: Vec<char>| w@) == st.words
                &&& cur@ == st.cur
                &&& mode == st.mode
                &&& escaped == st.escaped
            }),
        decreases cs@.len() - i,
    {
        let ghost pre = cs@.subrange(0, i as int);
        assert(cs@.subrange(0, i + 1).drop_last() =~= pre);
        let c = cs[i];
        let ghost wv = words@.map_values(|w: Vec<char>| w@);
        if escaped {
            cur.push(c);
            if mode == SplitMode::Between {
                mode = SplitMode::Word;
            }
            escaped = false;
        } else if escapes && c == '\\' {
            if mode == SplitMode::Between {
                mode = SplitMode::Word;
            }
            escaped = true;
        } else if c == '\'' || c == '"' {
            match mode {
                SplitMode::Quoted(q) => {
                    if q == c {
                        let mut w: Vec<char> = Vec::new();
                        std::mem::swap(&mut w, &mut cur);
                        words.push(w);
                        assert(words@.map_values(|w: Vec<char>| w@) =~= wv.push(w@));
                        assert(cur@ =~= Seq::<char>::empty());
                        mode = SplitMode::Between;
                    } else {
                        cur.push(c);
                    }
                },
                _ => {
                    mode = SplitMode::Quoted(c);
                },
            }
        } else if c == ' ' || c == '\t' || c == '\n' || c == '\r' || c == '\x0b' || c == '\x0c' {
            match mode {
                SplitMode::Between => {},
                SplitMode::Word => {
                    let mut w: Vec<char> = Vec::new();
                    std::mem::swap(&mut w, &mut cur);
                    words.push(w);
                    assert(words@.map_values(|w: Vec<char>| w@) =~= wv.push(w@));
                    assert(cur@ =~= Seq::<char>::empty());
                    mode = SplitMode::Between;
                },
                SplitMode::Quoted(_) => {
                    cur.push(c);
                },
            }
        } else {
            cur.push(c);
            if mode == SplitMode::Between {
                mode = SplitMode::Word;
            }
        }
        i = i + 1;
    }
    assert(cs@.subrange(0, cs@.len() as int) =~= cs@);
    if cur.len() > 0 {
        let ghost wv = words@.map_values(|w: Vec<char>| w@);
        let ghost cv = cur@;
        words.push(cur);
        assert(words@.map_values(|w: Vec<char>| w@) =~= wv.push(cv));
    }
    let ghost all = words@.map_values(|w: Vec<char>| w@);
    let mut out: Vec<String> = Vec::new();
    let mut j: usize = 0;
    while j < words.len()
        invariant
            j <= words@.len(),
            all == words@.map_values(|w: Vec<char>| w@),
            out@.map_values(|w: String| w@) == all.subrange(0, j as int),
        decreases words@.len() - j,
    {
        let ghost before = out@;
        let w = string_of(words[j].as_slice());
        assert(all[j as int] == words@[j as int]@);
        out.push(w);
        assert(out@.map_values(|w: String| w@) =~= before.map_values(|w: String| w@).push(w@));
        j = j + 1;
        assert(out@.map_values(|w: String| w@) =~= all.subrange(0, j as int));
    }
    assert(all.subrange(0, all.len() as int) =~= all);
    out
}

/// Splits a program's command into its words: whitespace separates words
/// outside quotes, and single or double quotes group a word.
pub fn split_ident(s: &str) -> (r: Vec<String>)
    ensures
        r@.map_values(|w: String| w@) == shell_words(s@, false),
{
    let cs = chars_of(s);
    split_words(cs.as_slice(), false)
}

/// Splits a line typed at the client's prompt: as `split_ident`, and a
/// backslash makes the next character part of the word.
pub fn parse_cli(line: &str) -> (r: Vec<String>)
    ensures
        r@.map_values(|w: String| w@) == shell_words(line@, true),
{
    let cs = chars_of(line);
    split_words(cs.as_slice(), true)
}

} // verus!
