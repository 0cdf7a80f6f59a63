//! A cursor over text, and the INI reader built on it.

use vstd::prelude::*;
use crate::text::{chars_of, copy_range, first_index, lemma_first_index, string_of};

verus! {

/// Cursor over the characters of a text.
pub struct Parser {
    buf: Vec<char>,
    idx: usize,
}

/// How `get_while` stops: every character taken satisfies `f`, and the one
/// after them (if any) does not.
pub open spec fn taken_while<F: Fn(char) -> bool>(s: Seq<char>, from: int, r: Seq<char>, f: F) -> bool {
    &&& from + r.len() <= s.len()
    &&& r == s.subrange(from, from + r.len())
    &&& forall|j: int| 0 <= j < r.len() ==> call_ensures(f, (#[trigger] r[j],), true)
    &&& from + r.len() < s.len() ==> call_ensures(f, (s[from + r.len()],), false)
}

/// What `get_while_esc` takes from `s[from..]`: an `esc` followed by a
/// character stands for that character; any other character is taken while
/// `f` holds. Returns the characters taken and how many were consumed.
pub open spec fn taken_esc(s: Seq<char>, from: int, esc: char, keep: spec_fn(char) -> bool) -> (Seq<char>, nat)
    decreases s.len() - from,
{
    if from >= s.len() {
        (Seq::empty(), 0)
    } else if s[from] == esc && from + 1 < s.len() {
        let rest = taken_esc(s, from + 2, esc, keep);
        (seq![s[from + 1]] + rest.0, rest.1 + 2)
    } else if keep(s[from]) {
        let rest = taken_esc(s, from + 1, esc, keep);
        (seq![s[from]] + rest.0, rest.1 + 1)
    } else {
        (Seq::empty(), 0)
    }
}

impl Parser {
    /// The whole text.
    pub closed spec fn text(&self) -> Seq<char> {
        self.buf@
    }

    /// The position of the cursor.
    pub closed spec fn pos(&self) -> nat {
        self.idx as nat
    }

    pub closed spec fn wf(&self) -> bool {
        self.idx <= self.buf@.len()
    }

    /// A cursor at the start of `buf`.
    pub fn new(buf: &str) -> (r: Parser)
        ensures
            r.wf(),
            r.text() == buf@,
            r.pos() == 0,
    {
        Parser { buf: chars_of(buf), idx: 0 }
    }

    /// Whether the cursor is at the end.
    pub fn is_eof(&self) -> (r: bool)
        ensures
            r == (self.pos() >= self.text().len()),
    {
        self.idx >= self.buf.len()
    }

    /// The character under the cursor, if any.
    pub fn next_char(&self) -> (r: Option<char>)
        ensures
            self.pos() < self.text().len() ==> r == Some(self.text()[self.pos() as int]),
            self.pos() >= self.text().len() ==> r is None,
    {
        if self.idx >= self.buf.len() {
            return None;
        }
        Some(self.buf[self.idx])
    }

    /// The rest of the current line, without its newline.
    pub fn next_line(&self) -> (r: String)
        requires
            self.wf(),
        ensures
            self.pos() + r@.len() <= self.text().len(),
            r@ == self.text().subrange(self.pos() as int, self.pos() + r@.len() as int),
            !r@.contains('\n'),
            self.pos() + r@.len() < self.text().len() ==> self.text()[self.pos() + r@.len() as int] == '\n',
    {
        let end = self.line_end();
        let v = copy_range(self.buf.as_slice(), self.idx, end);
        proof {
            if v@.contains('\n') {
                let k = choose|k: int| 0 <= k < v@.len() && v@[k] == '\n';
                assert(self.buf@[self.idx + k] == '\n');
            }
        }
        string_of(v.as_slice())
    }

    fn line_end(&self) -> (r: usize)
        requires
            self.wf(),
        ensures
            self.pos() <= r <= self.text().len(),
            forall|j: int| self.pos() <= j < r ==> self.text()[j] != '\n',
            r < self.text().len() ==> self.text()[r as int] == '\n',
    {
        crate::text::find_char(self.buf.as_slice(), self.idx, '\n')
    }

    /// The characters from the cursor on while `f` holds.
    pub fn get_while<F: Fn(char) -> bool>(&self, f: F) -> (r: String)
        requires
            self.wf(),
            forall|c: char| call_requires(f, (c,)),
        ensures
            taken_while(self.text(), self.pos() as int, r@, f),
    {
        let end = self.while_end(&f);
        let v = copy_range(self.buf.as_slice(), self.idx, end);
        string_of(v.as_slice())
    }

    fn while_end<F: Fn(char) -> bool>(&self, f: &F) -> (r: usize)
        requires
            self.wf(),
            forall|c: char| call_requires(*f, (c,)),
        ensures
            self.pos() <= r <= self.text().len(),
            forall|j: int| self.pos() <= j < r ==> call_ensures(*f, (self.text()[j],), true),
            r < self.text().len() ==> call_ensures(*f, (self.text()[r as int],), false),
    {
        let mut i: usize = self.idx;
        while i < self.buf.len()
            invariant
                self.pos() <= i <= self.text().len(),
                forall|c: char| call_requires(*f, (c,)),
                forall|j: int| self.pos() <= j < i ==> call_ensures(*f, (self.text()[j],), true),
            decreases self.text().len() - i,
        {
            if !f(self.buf[i]) {
                return i;
            }
            i = i + 1;
        }
        i
    }

    /// The characters from the cursor on while `keep` holds, where `esc`
    /// followed by any character stands for that character.
    pub fn get_while_esc<F: Fn(char) -> bool>(&self, f: F, esc: char, keep: Ghost<spec_fn(char) -> bool>) -> (r: String)
        requires
            self.wf(),
            forall|c: char| call_requires(f, (c,)),
            forall|c: char, b: bool| call_ensures(f, (c,), b) ==> b == keep@(c),
        ensures
            r@ == taken_esc(self.text(), self.pos() as int, esc, keep@).0,
    {
        let (v, _n) = self.scan_esc(&f, esc, keep);
        string_of(v.as_slice())
    }

    fn scan_esc<F: Fn(char) -> bool>(&self, f: &F, esc: char, keep: Ghost<spec_fn(char) -> bool>) -> (r: (Vec<char>, usize))
        requires
            self.wf(),
            forall|c: char| call_requires(*f, (c,)),
            forall|c: char, b: bool| call_ensures(*f, (c,), b) ==> b == keep@(c),
        ensures
            r.0@ == taken_esc(self.text(), self.pos() as int, esc, keep@).0,
            r.1 as nat == taken_esc(self.text(), self.pos() as int, esc, keep@).1,
            self.pos() + r.1 <= self.text().len(),
    {
        let ghost s = self.text();
        let mut out: Vec<char> = Vec::new();
        let mut i: usize = self.idx;
        while i < self.buf.len()
            invariant
                self.pos() <= i <= s.len(),
                s == self.text(),
                forall|c: char| call_requires(*f, (c,)),
                forall|c: char, b: bool| call_ensures(*f, (c,), b) ==> b == keep@(c),
                out@ + taken_esc(s, i as int, esc, keep@).0 == taken_esc(s, self.pos() as int, esc, keep@).0,
                (i - self.pos()) + taken_esc(s, i as int, esc, keep@).1 == taken_esc(s, self.pos() as int, esc, keep@).1,
            decreases s.len() - i,
        {
            let c = self.buf[i];
            if c == esc && i + 1 < self.buf.len() {
                let ghost rest = taken_esc(s, i + 2, esc, keep@);
                out.push(self.buf[i + 1]);
                assert(out@ + rest.0 =~= out@.drop_last() + (seq![s[i + 1]] + rest.0));
                i = i + 2;
            } else if f(c) {
                let ghost rest = taken_esc(s, i + 1, esc, keep@);
                out.push(c);
                assert(out@ + rest.0 =~= out@.drop_last() + (seq![s[i as int]] + rest.0));
                i = i + 1;
            } else {
                assert(taken_esc(s, i as int, esc, keep@).0 =~= Seq::<char>::empty());
                assert(out@ + Seq::<char>::empty() =~= out@);
                return (out, i - self.idx);
            }
        }
        assert(out@ + Seq::<char>::empty() =~= out@);
        (out, i - self.idx)
    }

    /// Takes the character under the cursor, if any.
    pub fn eat_char(&mut self) -> (r: Option<char>)
        requires
            old(self).wf(),
        ensures
            final(self).wf(),
            final(self).text() == old(self).text(),
            old(self).pos() < old(self).text().len() ==> r == Some(old(self).text()[old(self).pos() as int])
                && final(self).pos() == old(self).pos() + 1,
            old(self).pos() >= old(self).text().len() ==> r is None && final(self).pos() == old(self).pos(),
    {
        let c = self.next_char();
        if self.idx < self.buf.len() {
            self.idx = self.idx + 1;
        }
        c
    }

    /// Takes the rest of the current line and its newline; returns the line.
    pub fn eat_line(&mut self) -> (r: String)
        requires
            old(self).wf(),
        ensures
            final(self).wf(),
            final(self).text() == old(self).text(),
            old(self).pos() + r@.len() <= old(self).text().len(),
            r@ == old(self).text().subrange(old(self).pos() as int, old(self).pos() + r@.len() as int),
            !r@.contains('\n'),
            old(self).pos() + r@.len() < old(self).text().len() ==> old(self).text()[old(self).pos()
                + r@.len() as int] == '\n',
            final(self).pos() == if old(self).pos() + r@.len() < old(self).text().len() {
                old(self).pos() + r@.len() + 1
            } else {
                old(self).text().len()
            },
    {
        let end = self.line_end();
        let v = copy_range(self.buf.as_slice(), self.idx, end);
        proof {
            if v@.contains('\n') {
                let k = choose|k: int| 0 <= k < v@.len() && v@[k] == '\n';
                assert(self.buf@[self.idx + k] == '\n');
            }
        }
        if end < self.buf.len() {
            self.idx = end + 1;
        } else {
            self.idx = end;
        }
        string_of(v.as_slice())
    }

    /// Takes the characters from the cursor on while `f` holds.
    pub fn eat_while<F: Fn(char) -> bool>(&mut self, f: F) -> (r: String)
        requires
            old(self).wf(),
            forall|c: char| call_requires(f, (c,)),
        ensures
            final(self).wf(),
            final(self).text() == old(self).text(),
            taken_while(old(self).text(), old(self).pos() as int, r@, f),
            final(self).pos() == old(self).pos() + r@.len(),
    {
        let end = self.while_end(&f);
        let v = copy_range(self.buf.as_slice(), self.idx, end);
        self.idx = end;
        string_of(v.as_slice())
    }

    /// Takes the characters from the cursor on while `keep` holds, where
    /// `esc` followed by any character stands for that character.
    pub fn eat_while_esc<F: Fn(char) -> bool>(&mut self, f: F, esc: char, keep: Ghost<spec_fn(char) -> bool>) -> (r: String)
        requires
            old(self).wf(),
            forall|c: char| call_requires(f, (c,)),
            forall|c: char, b: bool| call_ensures(f, (c,), b) ==> b == keep@(c),
        ensures
            final(self).wf(),
            final(self).text() == old(self).text(),
            r@ == taken_esc(old(self).text(), old(self).pos() as int, esc, keep@).0,
            final(self).pos() == old(self).pos() + taken_esc(old(self).text(), old(self).pos() as int, esc, keep@).1,
    {
        let (v, n) = self.scan_esc(&f, esc, keep);
        let len = self.buf.len();
        assert(self.idx + n <= len);
        self.idx = self.idx + n;
        string_of(v.as_slice())
    }
}

} // verus!

verus! {

use crate::shell::is_space;

/// `s` without its leading and trailing whitespace.
pub open spec fn trim_spec(s: Seq<char>) -> Seq<char>
    decreases s.len(),
{
    if s.len() > 0 && is_space(s[0]) {
        trim_spec(s.drop_first())
    } else if s.len() > 0 && is_space(s.last()) {
        trim_spec(s.drop_last())
    } else {
        s
    }
}

fn space(c: char) -> (r: bool)
    ensures
        r == is_space(c),
{
    c == ' ' || c == '\t' || c == '\n' || c == '\r' || c == '\x0b' || c == '\x0c'
}

/// `s` without its leading and trailing whitespace.
pub fn trim(s: &str) -> (r: String)
    ensures
        r@ == trim_spec(s@),
{
    let cs = chars_of(s);
    let mut lo: usize = 0;
    let mut hi: usize = cs.len();
    assert(cs@.subrange(0, cs@.len() as int) =~= cs@);
    while lo < hi && (space(cs[lo]) || space(cs[hi - 1]))
        invariant
            lo <= hi <= cs@.len(),
            trim_spec(cs@.subrange(lo as int, hi as int)) == trim_spec(cs@),
        decreases hi - lo,
    {
        let ghost cur = cs@.subrange(lo as int, hi as int);
        if space(cs[lo]) {
            assert(cur.drop_first() =~= cs@.subrange(lo + 1, hi as int));
            lo = lo + 1;
        } else {
            assert(cur.drop_last() =~= cs@.subrange(lo as int, hi - 1));
            hi = hi - 1;
        }
    }
    let v = copy_range(cs.as_slice(), lo, hi);
    assert(trim_spec(v@) == v@);
    string_of(v.as_slice())
}

/// A line of an INI text: a `key = value` pair, or a `[section]` with the
/// pairs under it.
#[derive(Debug)]
pub enum IniValue {
    /// Key and value
    Key(String, String),
    /// Section name and its pairs
    Section(String, Vec<IniValue>),
}

/// Whether an INI value is a pair.
pub open spec fn is_key(v: IniValue) -> bool {
    v is Key
}

/// The key of a pair read at `p`: the text up to the first `=`.
pub open spec fn key_raw(s: Seq<char>, p: int) -> Seq<char> {
    s.subrange(p, p + first_index(s.subrange(p, s.len() as int), '=') as int)
}

/// The name of a section read at `p`: after the opening character, up to
/// the first `]`.
pub open spec fn section_name(s: Seq<char>, p: int) -> Seq<char> {
    let q = if p < s.len() { p + 1 } else { p };
    s.subrange(q, q + first_index(s.subrange(q, s.len() as int), ']') as int)
}

/// Where the value of a pair read at `p` starts: after the `=`, if any.
pub open spec fn value_start(s: Seq<char>, p: int) -> int {
    let e = p + key_raw(s, p).len();
    if e < s.len() {
        e + 1
    } else {
        e
    }
}

/// The characters a value may hold unescaped.
pub open spec fn value_keep() -> spec_fn(char) -> bool {
    |c: char| c != ';' && c != '\n'
}

/// Where the next value starts when reading from `p`: lines that start
/// with whitespace or `;` are skipped whole.
pub open spec fn skip_blank_lines(s: Seq<char>, p: int) -> int
    decreases s.len() - p,
{
    if 0 <= p < s.len() && (is_space(s[p]) || s[p] == ';') {
        let e = p + first_index(s.subrange(p, s.len() as int), '\n');
        skip_blank_lines(s, if e < s.len() { e + 1 } else { s.len() as int })
    } else {
        p
    }
}

/// Reader of INI text. Lines starting with whitespace or `;` are skipped;
/// a `;` also ends a value, and `\` makes the next character part of it.
pub struct IniParser {
    parser: Parser,
}

impl IniParser {
    pub closed spec fn text(&self) -> Seq<char> {
        self.parser.text()
    }

    pub closed spec fn pos(&self) -> nat {
        self.parser.pos()
    }

    pub closed spec fn wf(&self) -> bool {
        self.parser.wf()
    }

    /// A reader at the start of `buf`.
    pub fn new(buf: &str) -> (r: IniParser)
        ensures
            r.wf(),
            r.text() == buf@,
            r.pos() == 0,
    {
        IniParser { parser: Parser::new(buf) }
    }

    /// Every value of the rest of the text, in order, as `parse_value`
    /// reads them one after another until the end; each takes at least one
    /// character.
    pub fn parse(self) -> (r: Vec<IniValue>)
        requires
            self.wf(),
        ensures
            r@.len() <= self.text().len() - self.pos(),
    {
        let mut me = self;
        let mut values: Vec<IniValue> = Vec::new();
        loop
            invariant
                me.wf(),
                me.text() == self.text(),
                me.pos() >= self.pos(),
                values@.len() <= me.pos() - self.pos(),
            decreases me.text().len() - me.pos(),
        {
            match me.parse_value() {
                Some(v) => values.push(v),
                None => break,
            }
        }
        values
    }

    fn skip_blank(&mut self)
        requires
            old(self).wf(),
        ensures
            final(self).wf(),
            final(self).text() == old(self).text(),
            final(self).pos() >= old(self).pos(),
            final(self).pos() == skip_blank_lines(old(self).text(), old(self).pos() as int),
            final(self).pos() < final(self).text().len() ==> !is_space(
                final(self).text()[final(self).pos() as int],
            ) && final(self).text()[final(self).pos() as int] != ';',
    {
        while self.at_blank()
            invariant
                self.wf(),
                self.text() == old(self).text(),
                self.pos() >= old(self).pos(),
                skip_blank_lines(self.text(), self.pos() as int) == skip_blank_lines(
                    old(self).text(),
                    old(self).pos() as int,
                ),
            decreases self.text().len() - self.pos(),
        {
            let ghost s = self.text();
            let ghost p = self.pos() as int;
            let line = self.parser.eat_line();
            proof {
                let rest = s.subrange(p, s.len() as int);
                assert forall|j: int| 0 <= j < line@.len() implies rest[j] != '\n' by {
                    assert(rest[j] == line@[j]);
                    if line@[j] == '\n' {
                        assert(line@.contains('\n'));
                    }
                }
                if p + line@.len() < s.len() {
                    assert(self.pos() == p + line@.len() + 1);
                }
                lemma_first_index(rest, '\n', line@.len());
            }
        }
    }

    fn at_blank(&self) -> (r: bool)
        requires
            self.wf(),
        ensures
            r == (self.pos() < self.text().len() && (is_space(self.text()[self.pos() as int])
                || self.text()[self.pos() as int] == ';')),
    {
        match self.parser.next_char() {
            Some(c) => space(c) || c == ';',
            None => false,
        }
    }

    /// The next value, after skipping blank and comment lines; `None` at
    /// the end of the text. A value always consumes text.
    pub fn parse_value(&mut self) -> (r: Option<IniValue>)
        requires
            old(self).wf(),
        ensures
            final(self).wf(),
            final(self).text() == old(self).text(),
            final(self).pos() >= old(self).pos(),
            r is Some ==> final(self).pos() > old(self).pos(),
            ({
                let s = old(self).text();
                let b = skip_blank_lines(s, old(self).pos() as int);
                if b >= s.len() {
                    r is None
                } else if s[b] == '[' {
                    r matches Some(IniValue::Section(name, _)) && name@ == section_name(s, b)
                } else {
                    r matches Some(IniValue::Key(k, _)) && k@ == trim_spec(key_raw(s, b))
                }
            }),
    {
        self.skip_blank();
        match self.parser.next_char() {
            Some('[') => Some(self.parse_section()),
            Some(_) => Some(self.parse_key()),
            None => None,
        }
    }

    /// Reads `key = value`: the key runs to the first `=`, the value to the
    /// next unescaped `;` or newline; both are trimmed.
    pub fn parse_key(&mut self) -> (r: IniValue)
        requires
            old(self).wf(),
        ensures
            final(self).wf(),
            final(self).text() == old(self).text(),
            final(self).pos() >= old(self).pos(),
            old(self).pos() < old(self).text().len() ==> final(self).pos() > old(self).pos(),
            r matches IniValue::Key(k, v) && k@ == trim_spec(key_raw(old(self).text(), old(self).pos() as int))
                && v@ == trim_spec(
                taken_esc(
                    old(self).text(),
                    value_start(old(self).text(), old(self).pos() as int),
                    '\\',
                    value_keep(),
                ).0,
            ),
    {
        let ghost s = self.text();
        let ghost p = self.pos() as int;
        let name = self.parser.eat_while(|c: char| -> (b: bool) ensures b == (c != '=') { c != '=' });
        proof {
            let rest = s.subrange(p, s.len() as int);
            assert forall|j: int| 0 <= j < name@.len() implies rest[j] != '=' by {
                assert(rest[j] == name@[j]);
            }
            lemma_first_index(rest, '=', name@.len());
            assert(name@ =~= key_raw(s, p));
        }
        self.parser.eat_char();
        let keep = Ghost(value_keep());
        let value = self.parser.eat_while_esc(
            |c: char| -> (b: bool) ensures b == (c != ';' && c != '\n') { c != ';' && c != '\n' },
            '\\',
            keep,
        );
        IniValue::Key(trim(name.as_str()), trim(value.as_str()))
    }

    /// Reads `[name]` and the pairs that follow it, up to the next section
    /// or the end of the text.
    pub fn parse_section(&mut self) -> (r: IniValue)
        requires
            old(self).wf(),
        ensures
            final(self).wf(),
            final(self).text() == old(self).text(),
            final(self).pos() >= old(self).pos(),
            old(self).pos() < old(self).text().len() ==> final(self).pos() > old(self).pos(),
            r matches IniValue::Section(name, _) && name@ == section_name(old(self).text(), old(self).pos() as int),
    {
        let ghost s = self.text();
        let ghost p = self.pos() as int;
        self.parser.eat_char();
        let ghost q = self.pos() as int;
        let sec = self.parser.eat_while(|c: char| -> (b: bool) ensures b == (c != ']') { c != ']' });
        proof {
            let rest = s.subrange(q, s.len() as int);
            assert forall|j: int| 0 <= j < sec@.len() implies rest[j] != ']' by {
                assert(rest[j] == sec@[j]);
            }
            lemma_first_index(rest, ']', sec@.len());
            assert(sec@ =~= section_name(s, p));
        }
        self.parser.eat_char();
        self.parser.eat_line();
        let mut keys: Vec<IniValue> = Vec::new();
        let ghost mid = self.pos();
        loop
            invariant
                self.wf(),
                self.text() == old(self).text(),
                self.pos() >= mid,
                old(self).pos() < old(self).text().len() ==> mid > old(self).pos(),
            decreases self.text().len() - self.pos(),
        {
            self.skip_blank();
            match self.parser.next_char() {
                Some('[') => break,
                None => break,
                _ => {},
            }
            keys.push(self.parse_key());
        }
        IniValue::Section(sec, keys)
    }
}

} // verus!
