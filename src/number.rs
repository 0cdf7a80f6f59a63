//! Reading decimal numbers, as `str::parse` does for the integer types.

use vstd::prelude::*;

verus! {

pub open spec fn is_digit(c: char) -> bool {
    '0' <= c && c <= '9'
}

pub open spec fn all_digits(s: Seq<char>) -> bool {
    forall|i: int| 0 <= i < s.len() ==> is_digit(#[trigger] s[i])
}

/// The value of a string of decimal digits.
pub open spec fn digits_value(s: Seq<char>) -> nat
    decreases s.len(),
{
    if s.len() == 0 {
        0
    } else {
        digits_value(s.drop_last()) * 10 + ((s.last() as nat) - ('0' as nat)) as nat
    }
}

/// A natural number written in decimal with an optional leading `+`.
pub open spec fn parse_nat(s: Seq<char>) -> Option<nat> {
    let d = if s.len() > 0 && s[0] == '+' { s.drop_first() } else { s };
    if d.len() > 0 && all_digits(d) {
        Some(digits_value(d))
    } else {
        None
    }
}

/// `parse_nat`, when the value is at most `max`.
pub open spec fn parse_bounded(s: Seq<char>, max: nat) -> Option<nat> {
    match parse_nat(s) {
        Some(n) => if n <= max { Some(n) } else { None },
        None => None,
    }
}

/// An integer written in decimal with an optional sign, when it lies in
/// `[min, max]`.
pub open spec fn parse_int_in(s: Seq<char>, min: int, max: int) -> Option<int> {
    if s.len() > 0 && s[0] == '-' {
        let d = s.drop_first();
        if d.len() > 0 && all_digits(d) && -(digits_value(d) as int) >= min {
            Some(-(digits_value(d) as int))
        } else {
            None
        }
    } else {
        match parse_nat(s) {
            Some(n) => if n <= max { Some(n as int) } else { None },
            None => None,
        }
    }
}

proof fn lemma_digits_grow(s: Seq<char>, i: int)
    requires
        0 <= i <= s.len(),
        all_digits(s),
    ensures
        digits_value(s) >= digits_value(s.subrange(0, i)),
    decreases s.len() - i,
{
    if i < s.len() {
        lemma_digits_grow(s, i + 1);
        assert(s.subrange(0, i + 1).drop_last() =~= s.subrange(0, i));
    } else {
        assert(s.subrange(0, i) =~= s);
    }
}

/// The digits of `s[from..]` as a `u64`; `None` when one is not a digit,
/// when there is none, or when the value does not fit.
fn digits_u64(s: &[char], from: usize) -> (r: Option<u64>)
    requires
        from <= s@.len(),
    ensures
        ({
            let d = s@.subrange(from as int, s@.len() as int);
            &&& r is Some <==> (d.len() > 0 && all_digits(d) && digits_value(d) <= u64::MAX)
            &&& r matches Some(n) ==> n as nat == digits_value(d)
        }),
{
    let ghost d = s@.subrange(from as int, s@.len() as int);
    if from == s.len() {
        return None;
    }
    let mut v: u64 = 0;
    let mut i: usize = from;
    assert(s@.subrange(from as int, from as int) =~= Seq::<char>::empty());
    while i < s.len()
        invariant
            from <= i <= s@.len(),
            d == s@.subrange(from as int, s@.len() as int),
            all_digits(s@.subrange(from as int, i as int)),
            v as nat == digits_value(s@.subrange(from as int, i as int)),
        decreases s@.len() - i,
    {
        let c = s[i];
        if !('0' <= c && c <= '9') {
            proof {
                assert(d[i - from] == c);
            }
            return None;
        }
        let dv = (c as u32 - '0' as u32) as u64;
        assert(s@.subrange(from as int, i + 1).drop_last() =~= s@.subrange(from as int, i as int));
        if v > 1844674407370955161u64 || (v == 1844674407370955161u64 && dv > 5) {
            proof {
                let p = s@.subrange(from as int, i + 1);
                assert(digits_value(p) > u64::MAX);
                if all_digits(d) {
                    assert(d.subrange(0, i + 1 - from) =~= p);
                    lemma_digits_grow(d, i + 1 - from);
                }
            }
            return None;
        }
        v = v * 10 + dv;
        i = i + 1;
        assert(all_digits(s@.subrange(from as int, i as int))) by {
            assert forall|j: int| 0 <= j < i - from implies is_digit(
                #[trigger] s@.subrange(from as int, i as int)[j],
            ) by {
                if j < i - 1 - from {
                    assert(s@.subrange(from as int, i as int)[j] == s@.subrange(from as int, i - 1)[j]);
                }
            }
        }
    }
    Some(v)
}

/// A `u64` written in decimal with an optional leading `+`.
pub fn parse_u64(s: &[char]) -> (r: Option<u64>)
    ensures
        r is Some <==> parse_bounded(s@, u64::MAX as nat) is Some,
        r matches Some(n) ==> parse_bounded(s@, u64::MAX as nat) == Some(n as nat),
{
    let from: usize = if s.len() > 0 && s[0] == '+' { 1 } else { 0 };
    proof {
        if from == 1 {
            assert(s@.drop_first() =~= s@.subrange(1, s@.len() as int));
        } else {
            assert(s@ =~= s@.subrange(0, s@.len() as int));
        }
    }
    digits_u64(s, from)
}

/// An unsigned number of at most `max`, written in decimal with an
/// optional leading `+`.
pub fn parse_max(s: &[char], max: u64) -> (r: Option<u64>)
    ensures
        r is Some <==> parse_bounded(s@, max as nat) is Some,
        r matches Some(n) ==> parse_bounded(s@, max as nat) == Some(n as nat),
{
    match parse_u64(s) {
        Some(n) => if n <= max { Some(n) } else { None },
        None => None,
    }
}

/// An `i32` written in decimal with an optional sign.
pub fn parse_i32(s: &[char]) -> (r: Option<i32>)
    ensures
        r is Some <==> parse_int_in(s@, i32::MIN as int, i32::MAX as int) is Some,
        r matches Some(n) ==> parse_int_in(s@, i32::MIN as int, i32::MAX as int) == Some(n as int),
{
    if s.len() > 0 && s[0] == '-' {
        assert(s@.drop_first() =~= s@.subrange(1, s@.len() as int));
        match digits_u64(s, 1) {
            Some(n) => if n <= 0x8000_0000u64 {
                if n == 0x8000_0000u64 {
                    Some(i32::MIN)
                } else {
                    Some(-(n as i32))
                }
            } else {
                None
            },
            None => None,
        }
    } else {
        match parse_u64(s) {
            Some(n) => if n <= 0x7fff_ffffu64 { Some(n as i32) } else { None },
            None => None,
        }
    }
}

} // verus!

verus! {

use crate::text::{digits_of, push_digits, chars_of, string_of};

/// The metric letter for a power of 1000, as sizes are printed.
pub open spec fn pow_letter(p: nat) -> Option<char> {
    if p == 1 {
        Some('k')
    } else if p == 2 {
        Some('M')
    } else if p == 3 {
        Some('G')
    } else if p == 4 {
        Some('T')
    } else if p == 5 {
        Some('P')
    } else if p == 6 {
        Some('E')
    } else if p == 7 {
        Some('Z')
    } else if p == 8 {
        Some('Y')
    } else {
        None
    }
}

/// The power a metric letter stands for, in either case.
pub open spec fn letter_pow(c: char) -> Option<nat> {
    if c == 'k' || c == 'K' {
        Some(1)
    } else if c == 'm' || c == 'M' {
        Some(2)
    } else if c == 'g' || c == 'G' {
        Some(3)
    } else if c == 't' || c == 'T' {
        Some(4)
    } else if c == 'p' || c == 'P' {
        Some(5)
    } else if c == 'e' || c == 'E' {
        Some(6)
    } else if c == 'z' || c == 'Z' {
        Some(7)
    } else if c == 'y' || c == 'Y' {
        Some(8)
    } else {
        None
    }
}

/// The power a metric letter stands for.
pub fn letter_to_pow(c: char) -> (r: Option<u32>)
    ensures
        r is Some <==> letter_pow(c) is Some,
        r matches Some(p) ==> letter_pow(c) == Some(p as nat),
{
    if c == 'k' || c == 'K' {
        Some(1)
    } else if c == 'm' || c == 'M' {
        Some(2)
    } else if c == 'g' || c == 'G' {
        Some(3)
    } else if c == 't' || c == 'T' {
        Some(4)
    } else if c == 'p' || c == 'P' {
        Some(5)
    } else if c == 'e' || c == 'E' {
        Some(6)
    } else if c == 'z' || c == 'Z' {
        Some(7)
    } else if c == 'y' || c == 'Y' {
        Some(8)
    } else {
        None
    }
}

/// The metric letter for a power of 1000.
pub fn pow_to_letter(pow: u32) -> (r: Option<char>)
    ensures
        r == pow_letter(pow as nat),
{
    match pow {
        1 => Some('k'),
        2 => Some('M'),
        3 => Some('G'),
        4 => Some('T'),
        5 => Some('P'),
        6 => Some('E'),
        7 => Some('Z'),
        8 => Some('Y'),
        _ => None,
    }
}

/// A size cut down by 1000 until it is under 10000, and how many times.
pub open spec fn human_parts(n: nat) -> (nat, nat)
    decreases n,
{
    if n >= 10000 {
        let (m, p) = human_parts(n / 1000);
        (m, p + 1)
    } else {
        (n, 0)
    }
}

/// How a size is printed: its cut-down value, the metric letter, `B`.
pub open spec fn human_text(n: nat) -> Seq<char> {
    let (m, p) = human_parts(n);
    digits_of(m) + match pow_letter(p) {
        Some(c) => seq![c],
        None => Seq::empty(),
    } + seq!['B']
}

/// Prints a size such as `50000` as `50kB`.
pub fn to_human(n: u64) -> (r: String)
    ensures
        r@ == human_text(n as nat),
{
    let mut num = n;
    let mut pow: u32 = 0;
    proof {
        reveal_with_fuel(pow1000, 8);
    }
    assert(pow1000(7) == 1_000_000_000_000_000_000_000nat);
    assert(pow1000(0) == 1);
    assert(num as nat * pow1000(0) == n as nat);
    while num >= 10000
        invariant
            pow <= 7,
            pow1000(7) == 1_000_000_000_000_000_000_000nat,
            human_parts(n as nat).0 == human_parts(num as nat).0,
            human_parts(n as nat).1 == human_parts(num as nat).1 + pow,
            num as nat * pow1000(pow as nat) <= n as nat,
        decreases num,
    {
        proof {
            lemma_pow1000_pos(pow as nat);
            if pow >= 7 {
                lemma_pow1000_mono(7, pow as nat);
                assert(num as nat * pow1000(pow as nat) >= 10000 * pow1000(7)) by (nonlinear_arith)
                    requires
                        num >= 10000,
                        pow1000(pow as nat) >= pow1000(7),
                ;
            }
            assert((num / 1000) as nat * pow1000(pow as nat + 1) <= num as nat * pow1000(pow as nat)) by (nonlinear_arith)
                requires
                    pow1000(pow as nat + 1) == 1000 * pow1000(pow as nat),
                    pow1000(pow as nat) > 0,
            ;
        }
        pow = pow + 1;
        num = num / 1000;
    }
    let mut out: Vec<char> = Vec::new();
    push_digits(&mut out, num);
    match pow_to_letter(pow) {
        Some(c) => out.push(c),
        None => {},
    }
    out.push('B');
    assert(out@ =~= human_text(n as nat));
    string_of(out.as_slice())
}

pub open spec fn pow1000(p: nat) -> nat
    decreases p,
{
    if p == 0 {
        1
    } else {
        1000 * pow1000((p - 1) as nat)
    }
}

proof fn lemma_pow1000_pos(p: nat)
    ensures
        pow1000(p) > 0,
        pow1000(p + 1) == 1000 * pow1000(p),
    decreases p,
{
    if p > 0 {
        lemma_pow1000_pos((p - 1) as nat);
    }
}

proof fn lemma_pow1000_mono(a: nat, b: nat)
    requires
        a <= b,
    ensures
        pow1000(a) <= pow1000(b),
    decreases b - a,
{
    if a < b {
        lemma_pow1000_mono(a, (b - 1) as nat);
        lemma_pow1000_pos((b - 1) as nat);
    }
}

} // verus!

verus! {

/// Why a size could not be read.
#[derive(Debug, Clone, Copy, PartialEq, Eq, Structural)]
pub enum HumanError {
    /// A letter that is no metric prefix
    InvalidMetric,
    /// A character out of place after the prefix
    UnexpectedChar,
    /// No digit before the unit
    InvalidNumber,
    /// The size does not fit
    Overflow,
}

/// Where the size reader stands: reading digits, after the metric letter,
/// after `i`, or done (a `B` was read).
#[derive(Debug, Clone, Copy, PartialEq, Eq, Structural)]
pub enum HumanMode {
    Number,
    Unit,
    Prefix,
    Done,
}

pub struct HumanScan {
    pub mode: HumanMode,
    pub digits: Seq<char>,
    pub pow: nat,
    pub unit: nat,
    pub err: Option<HumanError>,
}

pub open spec fn human_step(st: HumanScan, c: char) -> HumanScan {
    if st.err is Some || st.mode == HumanMode::Done {
        st
    } else if st.mode == HumanMode::Number {
        if is_digit(c) {
            HumanScan { digits: st.digits.push(c), ..st }
        } else if c == 'B' {
            HumanScan { mode: HumanMode::Done, ..st }
        } else {
            match letter_pow(c) {
                Some(p) => HumanScan { pow: p, mode: HumanMode::Unit, ..st },
                None => HumanScan { err: Some(HumanError::InvalidMetric), ..st },
            }
        }
    } else if st.mode == HumanMode::Unit {
        if c == 'i' {
            HumanScan { mode: HumanMode::Prefix, unit: 1024, ..st }
        } else if c == 'B' {
            HumanScan { mode: HumanMode::Done, ..st }
        } else {
            HumanScan { err: Some(HumanError::UnexpectedChar), ..st }
        }
    } else {
        if c == 'B' {
            HumanScan { mode: HumanMode::Done, ..st }
        } else {
            HumanScan { err: Some(HumanError::UnexpectedChar), ..st }
        }
    }
}

pub open spec fn human_scan(s: Seq<char>) -> HumanScan
    decreases s.len(),
{
    if s.len() == 0 {
        HumanScan { mode: HumanMode::Number, digits: Seq::empty(), pow: 0, unit: 1000, err: None }
    } else {
        human_step(human_scan(s.drop_last()), s.last())
    }
}

pub open spec fn pow_of(b: nat, e: nat) -> nat
    decreases e,
{
    if e == 0 {
        1
    } else {
        b * pow_of(b, (e - 1) as nat)
    }
}

/// How a size such as `50kB`, `2MiB` or `300` is read: digits, an optional
/// metric letter (powers of 1000, or of 1024 with `i`), an optional `B`
/// after which the rest is ignored. Digits too many for a `u64` count as 0.
pub open spec fn human_value(s: Seq<char>) -> Result<nat, HumanError> {
    let st = human_scan(s);
    match st.err {
        Some(e) => Err(e),
        None => if st.digits.len() == 0 {
            Err(HumanError::InvalidNumber)
        } else {
            let n = if digits_value(st.digits) <= u64::MAX { digits_value(st.digits) } else { 0 };
            let v = n * pow_of(st.unit, st.pow);
            if v <= u64::MAX {
                Ok(v)
            } else {
                Err(HumanError::Overflow)
            }
        },
    }
}

/// Reads a size such as `50kB` or `2MiB`.
pub fn from_human(s: &str) -> (r: Result<u64, HumanError>)
    ensures
        r matches Ok(v) ==> human_value(s@) == Ok::<nat, HumanError>(v as nat),
        r matches Err(e) ==> human_value(s@) == Err::<nat, HumanError>(e),
{
    let cs = chars_of(s);
    let mut mode = HumanMode::Number;
    let mut digits: Vec<char> = Vec::new();
    let mut pow: u32 = 0;
    let mut unit: u64 = 1000;
    let mut i: usize = 0;
    while i < cs.len()
        invariant
            i <= cs@.len(),
            ({
                let st = human_scan(cs@.subrange(0, i as int));
                &&& st.err is None
                &&& st.mode == mode
                &&& st.digits == digits@
                &&& st.pow == pow as nat
                &&& st.unit == unit as nat
            }),
            pow <= 8,
            unit == 1000 || unit == 1024,
            all_digits(digits@),
            cs@ == s@,
        decreases cs@.len() - i,
    {
        let ghost pre = cs@.subrange(0, i as int);
        assert(cs@.subrange(0, i + 1).drop_last() =~= pre);
        let c = cs[i];
        if mode == HumanMode::Done {
            i = i + 1;
            continue;
        }
        if mode == HumanMode::Number {
            if '0' <= c && c <= '9' {
                let ghost before = digits@;
                digits.push(c);
                assert(all_digits(digits@)) by {
                    assert forall|j: int| 0 <= j < digits@.len() implies is_digit(#[trigger] digits@[j]) by {
                        if j < before.len() {
                            assert(digits@[j] == before[j]);
                        }
                    }
                }
            } else if c == 'B' {
                mode = HumanMode::Done;
            } else {
                match letter_to_pow(c) {
                    Some(p) => {
                        pow = p;
                        mode = HumanMode::Unit;
                    },
                    None => {
                        proof {
                            assert(human_scan(cs@.subrange(0, i as int + 1)).err == Some(HumanError::InvalidMetric));
                            assert(human_scan(cs@.subrange(0, i as int + 1)).err == Some(HumanError::InvalidMetric));
                    lemma_scan_err_stays(cs@, i as nat + 1, HumanError::InvalidMetric);
                        }
                        return Err(HumanError::InvalidMetric);
                    },
                }
            }
        } else if mode == HumanMode::Unit {
            if c == 'i' {
                mode = HumanMode::Prefix;
                unit = 1024;
            } else if c == 'B' {
                mode = HumanMode::Done;
            } else {
                proof {
                    assert(human_scan(cs@.subrange(0, i as int + 1)).err == Some(HumanError::UnexpectedChar));
                    lemma_scan_err_stays(cs@, i as nat + 1, HumanError::UnexpectedChar);
                }
                return Err(HumanError::UnexpectedChar);
            }
        } else {
            if c == 'B' {
                mode = HumanMode::Done;
            } else {
                proof {
                    assert(human_scan(cs@.subrange(0, i as int + 1)).err == Some(HumanError::UnexpectedChar));
                    lemma_scan_err_stays(cs@, i as nat + 1, HumanError::UnexpectedChar);
                }
                return Err(HumanError::UnexpectedChar);
            }
        }
        i = i + 1;
    }
    assert(cs@.subrange(0, cs@.len() as int) =~= cs@);
    if digits.len() == 0 {
        return Err(HumanError::InvalidNumber);
    }
    let n = match digits_u64_all(digits.as_slice()) {
        Some(n) => n,
        None => 0,
    };
    let ghost st = human_scan(s@);
    let ghost nv: nat = if digits_value(digits@) <= u64::MAX { digits_value(digits@) } else { 0 };
    assert(n as nat == nv);
    let mut v: u64 = n;
    let mut k: u32 = 0;
    assert(pow_of(unit as nat, 0) == 1);
    while k < pow
        invariant
            k <= pow,
            unit == 1000 || unit == 1024,
            st == human_scan(s@),
            st.err is None,
            st.unit == unit as nat,
            st.pow == pow as nat,
            st.digits == digits@,
            digits@.len() > 0,
            n as nat == if digits_value(digits@) <= u64::MAX { digits_value(digits@) } else { 0 },
            v as nat == n as nat * pow_of(unit as nat, k as nat),
        decreases pow - k,
    {
        proof {
            assert(pow_of(unit as nat, k as nat + 1) == unit as nat * pow_of(unit as nat, k as nat));
        }
        if v > u64::MAX / unit {
            proof {
                lemma_pow_rest(n as nat, unit as nat, k as nat, pow as nat);
                assert(v as nat * unit as nat > u64::MAX) by (nonlinear_arith)
                    requires
                        v > u64::MAX / unit,
                        unit > 0,
                ;
                assert(n as nat * pow_of(unit as nat, k as nat + 1) == (n as nat * pow_of(unit as nat, k as nat)) * unit as nat) by (nonlinear_arith)
                    requires
                        pow_of(unit as nat, k as nat + 1) == unit as nat * pow_of(unit as nat, k as nat),
                ;
                assert(n as nat * pow_of(unit as nat, pow as nat) > u64::MAX);
            }
            return Err(HumanError::Overflow);
        }
        proof {
            assert(v as nat * unit as nat <= u64::MAX) by (nonlinear_arith)
                requires
                    v <= u64::MAX / unit,
                    unit > 0,
            ;
            assert(n as nat * pow_of(unit as nat, k as nat + 1) == (n as nat * pow_of(unit as nat, k as nat)) * unit as nat) by (nonlinear_arith)
                requires
                    pow_of(unit as nat, k as nat + 1) == unit as nat * pow_of(unit as nat, k as nat),
            ;
        }
        v = v * unit;
        k = k + 1;
    }
    Ok(v)
}

fn digits_u64_all(d: &[char]) -> (r: Option<u64>)
    ensures
        all_digits(d@) && d@.len() > 0 ==> (r is Some <==> digits_value(d@) <= u64::MAX),
        r matches Some(n) ==> n as nat == digits_value(d@),
{
    assert(d@.subrange(0, d@.len() as int) =~= d@);
    digits_u64(d, 0)
}

proof fn lemma_scan_err_stays(s: Seq<char>, j: nat, e: HumanError)
    requires
        j <= s.len(),
        human_scan(s.subrange(0, j as int)).err == Some(e),
    ensures
        human_scan(s).err == Some(e),
    decreases s.len() - j,
{
    if j < s.len() {
        assert(s.subrange(0, j as int + 1).drop_last() =~= s.subrange(0, j as int));
        lemma_scan_err_stays(s, j + 1, e);
    } else {
        assert(s.subrange(0, j as int) =~= s);
    }
}

proof fn lemma_pow_rest(n: nat, b: nat, k: nat, p: nat)
    requires
        k < p,
        b >= 1,
    ensures
        n * pow_of(b, p) >= n * pow_of(b, k + 1),
    decreases p - k,
{
    if k + 1 < p {
        lemma_pow_rest(n, b, k + 1, p);
        assert(pow_of(b, k + 2) == b * pow_of(b, k + 1));
        assert(n * pow_of(b, k + 2) >= n * pow_of(b, k + 1)) by (nonlinear_arith)
            requires
                pow_of(b, k + 2) == b * pow_of(b, k + 1),
                b >= 1,
        ;
    }
}

} // verus!
