//! The wire format. Writers emit compact JSON with a fixed member order;
//! parsers accept JSON: insignificant whitespace between tokens, object
//! members in any order, and the full string escape set, including
//! `\uXXXX` and surrogate pairs.
//!
//! Spec functions give the exact character sequence of each rendered
//! construct; executable writers are proved to emit it and the parser is
//! proved to follow the spec parser defined here.
use vstd::prelude::*;
use vstd::string::*;

verus! {

// ---------------------------------------------------------------------------
// Characters
// ---------------------------------------------------------------------------

pub open spec fn is_digit(c: char) -> bool {
    '0' <= c && c <= '9'
}

pub open spec fn digit_char(d: int) -> char {
    if d == 0 { '0' } else if d == 1 { '1' } else if d == 2 { '2' }
    else if d == 3 { '3' } else if d == 4 { '4' } else if d == 5 { '5' }
    else if d == 6 { '6' } else if d == 7 { '7' } else if d == 8 { '8' }
    else { '9' }
}

pub open spec fn digit_val(c: char) -> int {
    if c == '0' { 0 } else if c == '1' { 1 } else if c == '2' { 2 }
    else if c == '3' { 3 } else if c == '4' { 4 } else if c == '5' { 5 }
    else if c == '6' { 6 } else if c == '7' { 7 } else if c == '8' { 8 }
    else { 9 }
}

pub open spec fn is_hex(c: char) -> bool {
    ('0' <= c && c <= '9') || ('a' <= c && c <= 'f') || ('A' <= c && c <= 'F')
}

pub open spec fn hex_val(c: char) -> int {
    if is_digit(c) { digit_val(c) }
    else if c == 'a' || c == 'A' { 10 } else if c == 'b' || c == 'B' { 11 }
    else if c == 'c' || c == 'C' { 12 } else if c == 'd' || c == 'D' { 13 }
    else if c == 'e' || c == 'E' { 14 }
    else { 15 }
}

pub open spec fn hex_char(d: int) -> char {
    if d < 10 { digit_char(d) }
    else if d == 10 { 'a' } else if d == 11 { 'b' } else if d == 12 { 'c' }
    else if d == 13 { 'd' } else if d == 14 { 'e' }
    else { 'f' }
}

/// How one character appears inside a JSON string literal: the short
/// escapes where JSON has them, `\u00XX` for the other control
/// characters, and the character itself otherwise.
pub open spec fn esc_char(c: char) -> Seq<char> {
    if c == '"' { seq!['\\', '"'] }
    else if c == '\\' { seq!['\\', '\\'] }
    else if c == '\n' { seq!['\\', 'n'] }
    else if c == '\r' { seq!['\\', 'r'] }
    else if c == '\t' { seq!['\\', 't'] }
    else if c == '\u{8}' { seq!['\\', 'b'] }
    else if c == '\u{c}' { seq!['\\', 'f'] }
    else if (c as u32) < 32 {
        seq!['\\', 'u', '0', '0', hex_char(c as u32 as int / 16), hex_char(c as u32 as int % 16)]
    }
    else { seq![c] }
}

/// The character named by a short escape sequence `\x`.
pub open spec fn unesc_char(c: char) -> Option<char> {
    if c == '"' { Some('"') }
    else if c == '\\' { Some('\\') }
    else if c == '/' { Some('/') }
    else if c == 'n' { Some('\n') }
    else if c == 'r' { Some('\r') }
    else if c == 't' { Some('\t') }
    else if c == 'b' { Some('\u{8}') }
    else if c == 'f' { Some('\u{c}') }
    else { None }
}

// ---------------------------------------------------------------------------
// Rendering, at the spec level
// ---------------------------------------------------------------------------

/// A whole string, escaped.
pub open spec fn jesc(s: Seq<char>) -> Seq<char>
    decreases s.len(),
{
    if s.len() == 0 {
        Seq::empty()
    } else {
        esc_char(s[0]) + jesc(s.skip(1))
    }
}

/// A JSON string literal: quotes around the escaped text.
pub open spec fn jstr(s: Seq<char>) -> Seq<char> {
    seq!['"'] + jesc(s) + seq!['"']
}

/// Decimal digits of a non-negative number.
pub open spec fn jnum(n: int) -> Seq<char>
    decreases n,
{
    if n < 10 {
        seq![digit_char(n)]
    } else {
        jnum(n / 10) + seq![digit_char(n % 10)]
    }
}

pub open spec fn jbool(b: bool) -> Seq<char> {
    if b { "true"@ } else { "false"@ }
}

// ---------------------------------------------------------------------------
// Executable writers
// ---------------------------------------------------------------------------

/// Relies on `String::push`: appends one character to the string.
#[verifier::external_body]
pub fn push_char(out: &mut String, c: char)
    ensures
        final(out)@ == old(out)@.push(c),
{
    out.push(c)
}

pub fn push_lit(out: &mut String, l: &str)
    ensures
        final(out)@ == old(out)@ + l@,
{
    let ghost out0: Seq<char> = out@;
    let n: usize = l.unicode_len();
    let mut i: usize = 0;
    while i < n
        invariant
            n == l@.len(),
            i <= n,
            out@ == out0 + l@.subrange(0, i as int),
        decreases n - i,
    {
        let c = l.get_char(i);
        push_char(out, c);
        i = i + 1;
        proof {
            assert(out0 + l@.subrange(0, i - 1).push(l@[i - 1]) =~= out0 + l@.subrange(
                0,
                i as int,
            ));
        }
    }
    proof {
        assert(l@.subrange(0, n as int) =~= l@);
    }
}

pub proof fn lemma_jesc_append(a: Seq<char>, b: Seq<char>)
    ensures
        jesc(a + b) == jesc(a) + jesc(b),
    decreases a.len(),
{
    if a.len() == 0 {
        assert(a + b =~= b);
        assert(jesc(a) + jesc(b) =~= jesc(b));
    } else {
        assert((a + b).skip(1) =~= a.skip(1) + b);
        lemma_jesc_append(a.skip(1), b);
        assert(jesc(a + b) =~= jesc(a) + jesc(b));
    }
}

pub proof fn lemma_jesc_push(a: Seq<char>, c: char)
    ensures
        jesc(a.push(c)) == jesc(a) + esc_char(c),
{
    assert(a.push(c) =~= a + seq![c]);
    lemma_jesc_append(a, seq![c]);
    assert(seq![c].len() == 1);
    assert(seq![c][0] == c);
    assert(seq![c].skip(1) =~= Seq::<char>::empty());
    assert(jesc(seq![c].skip(1)) =~= Seq::<char>::empty());
    assert(jesc(seq![c]) == esc_char(seq![c][0]) + jesc(seq![c].skip(1)));
    assert(jesc(seq![c]) =~= esc_char(c));
    assert(jesc(a) + jesc(seq![c]) =~= jesc(a) + esc_char(c));
}

/// Write a JSON string literal for `s`.
pub fn write_jstr(out: &mut String, s: &str)
    ensures
        final(out)@ == old(out)@ + jstr(s@),
{
    let ghost out0: Seq<char> = out@;
    push_char(out, '"');
    let n: usize = s.unicode_len();
    let mut i: usize = 0;
    while i < n
        invariant
            n == s@.len(),
            i <= n,
            out@ == out0.push('"') + jesc(s@.subrange(0, i as int)),
        decreases n - i,
    {
        let c = s.get_char(i);
        if c == '"' {
            push_char(out, '\\');
            push_char(out, '"');
        } else if c == '\\' {
            push_char(out, '\\');
            push_char(out, '\\');
        } else if c == '\n' {
            push_char(out, '\\');
            push_char(out, 'n');
        } else if c == '\r' {
            push_char(out, '\\');
            push_char(out, 'r');
        } else if c == '\t' {
            push_char(out, '\\');
            push_char(out, 't');
        } else if c == '\u{8}' {
            push_char(out, '\\');
            push_char(out, 'b');
        } else if c == '\u{c}' {
            push_char(out, '\\');
            push_char(out, 'f');
        } else if (c as u32) < 32 {
            let d = c as u32;
            push_char(out, '\\');
            push_char(out, 'u');
            push_char(out, '0');
            push_char(out, '0');
            push_char(out, hex_of(d / 16));
            push_char(out, hex_of(d % 16));
        } else {
            push_char(out, c);
        }
        proof {
            lemma_jesc_push(s@.subrange(0, i as int), s@[i as int]);
            assert(s@.subrange(0, i as int).push(s@[i as int]) =~= s@.subrange(0, i + 1));
            assert(out@ =~= out0.push('"') + jesc(s@.subrange(0, i + 1)));
        }
        i = i + 1;
    }
    push_char(out, '"');
    proof {
        assert(s@.subrange(0, n as int) =~= s@);
        assert(out@ =~= out0 + jstr(s@));
    }
}

pub fn digit_of(d: u64) -> (c: char)
    requires
        d < 10,
    ensures
        c == digit_char(d as int),
{
    if d == 0 { '0' } else if d == 1 { '1' } else if d == 2 { '2' }
    else if d == 3 { '3' } else if d == 4 { '4' } else if d == 5 { '5' }
    else if d == 6 { '6' } else if d == 7 { '7' } else if d == 8 { '8' }
    else { '9' }
}

/// Write the decimal form of `n`.
pub fn write_jnum(out: &mut String, n: u64)
    ensures
        final(out)@ == old(out)@ + jnum(n as int),
    decreases n,
{
    if n < 10 {
        push_char(out, digit_of(n));
        proof {
            assert(old(out)@.push(digit_char(n as int)) =~= old(out)@ + jnum(n as int));
        }
    } else {
        write_jnum(out, n / 10);
        push_char(out, digit_of(n % 10));
        proof {
            assert((old(out)@ + jnum(n as int / 10)).push(digit_char(n as int % 10)) =~= old(
                out,
            )@ + jnum(n as int));
        }
    }
}

pub fn write_jbool(out: &mut String, b: bool)
    ensures
        final(out)@ == old(out)@ + jbool(b),
{
    if b {
        push_lit(out, "true");
    } else {
        push_lit(out, "false");
    }
}

// ---------------------------------------------------------------------------
// Parsing, at the spec level
//
// Each parser consumes a prefix of the remaining text `t` and returns the
// parsed value together with the rest of the text, or `None` on a mismatch.
// ---------------------------------------------------------------------------

pub open spec fn p_char(t: Seq<char>, c: char) -> Option<Seq<char>> {
    if t.len() > 0 && t[0] == c {
        Some(t.skip(1))
    } else {
        None
    }
}

pub open spec fn p_lit(t: Seq<char>, l: Seq<char>) -> Option<Seq<char>> {
    if t.len() >= l.len() && t.subrange(0, l.len() as int) == l {
        Some(t.skip(l.len() as int))
    } else {
        None
    }
}

/// The value of four hex digits.
pub open spec fn hex4(t: Seq<char>) -> int {
    hex_val(t[0]) * 4096 + hex_val(t[1]) * 256 + hex_val(t[2]) * 16 + hex_val(t[3])
}

/// Whitespace JSON treats as insignificant between tokens.
pub open spec fn is_ws(c: char) -> bool {
    c == ' ' || c == '\t' || c == '\n' || c == '\r'
}

pub open spec fn skip_ws(t: Seq<char>) -> Seq<char>
    decreases t.len(),
{
    if t.len() > 0 && is_ws(t[0]) {
        skip_ws(t.skip(1))
    } else {
        t
    }
}

/// The inside of a string literal, up to and including the closing quote.
/// Escapes cover the whole JSON set: the eight short escapes, `\uXXXX`
/// for scalar values, and surrogate pairs for the rest.
pub open spec fn p_strbody(t: Seq<char>) -> Option<(Seq<char>, Seq<char>)>
    decreases t.len(),
{
    if t.len() == 0 {
        None
    } else if t[0] == '"' {
        Some((Seq::empty(), t.skip(1)))
    } else if t[0] == '\\' {
        if t.len() >= 2 {
            if t[1] == 'u' {
                if t.len() >= 6 && is_hex(t[2]) && is_hex(t[3]) && is_hex(t[4]) && is_hex(t[5]) {
                    let v = hex4(t.skip(2));
                    if v < 0xD800 || v >= 0xE000 {
                        match p_strbody(t.skip(6)) {
                            Some(p) => Some((seq![v as char] + p.0, p.1)),
                            None => None,
                        }
                    } else if v < 0xDC00 {
                        if t.len() >= 12 && t[6] == '\\' && t[7] == 'u' && is_hex(t[8]) && is_hex(
                            t[9],
                        ) && is_hex(t[10]) && is_hex(t[11]) {
                            let w = hex4(t.skip(8));
                            if 0xDC00 <= w && w < 0xE000 {
                                let u = 0x10000 + (v - 0xD800) * 0x400 + (w - 0xDC00);
                                match p_strbody(t.skip(12)) {
                                    Some(p) => Some((seq![u as char] + p.0, p.1)),
                                    None => None,
                                }
                            } else {
                                None
                            }
                        } else {
                            None
                        }
                    } else {
                        None
                    }
                } else {
                    None
                }
            } else {
                match unesc_char(t[1]) {
                    Some(c) => match p_strbody(t.skip(2)) {
                        Some(p) => Some((seq![c] + p.0, p.1)),
                        None => None,
                    },
                    None => None,
                }
            }
        } else {
            None
        }
    } else {
        match p_strbody(t.skip(1)) {
            Some(p) => Some((seq![t[0]] + p.0, p.1)),
            None => None,
        }
    }
}

pub open spec fn p_string(t: Seq<char>) -> Option<(Seq<char>, Seq<char>)> {
    match p_char(t, '"') {
        Some(t1) => p_strbody(t1),
        None => None,
    }
}

/// Consume a maximal run of digits, folding them onto `acc`.
pub open spec fn p_digits(t: Seq<char>, acc: int) -> (int, Seq<char>)
    decreases t.len(),
{
    if t.len() > 0 && is_digit(t[0]) {
        p_digits(t.skip(1), acc * 10 + digit_val(t[0]))
    } else {
        (acc, t)
    }
}

pub open spec fn p_num(t: Seq<char>) -> Option<(int, Seq<char>)> {
    if t.len() > 0 && is_digit(t[0]) {
        Some(p_digits(t, 0))
    } else {
        None
    }
}

pub open spec fn p_u64(t: Seq<char>) -> Option<(u64, Seq<char>)> {
    match p_num(t) {
        Some(p) => if p.0 <= u64::MAX {
            Some((p.0 as u64, p.1))
        } else {
            None
        },
        None => None,
    }
}

pub open spec fn p_bool(t: Seq<char>) -> Option<(bool, Seq<char>)> {
    match p_lit(t, "true"@) {
        Some(r) => Some((true, r)),
        None => match p_lit(t, "false"@) {
            Some(r) => Some((false, r)),
            None => None,
        },
    }
}

// ---------------------------------------------------------------------------
// Executable parsers
//
// They work on `s` from position `i` and mirror the spec parsers above;
// a returned position `j` marks the rest of the text.
// ---------------------------------------------------------------------------

pub fn px_char(s: &str, i: usize, c: char) -> (r: Option<usize>)
    requires
        i <= s@.len(),
    ensures
        match p_char(s@.skip(i as int), c) {
            Some(rest) => r matches Some(j) && i < j && j <= s@.len() && s@.skip(j as int)
                == rest,
            None => r is None,
        },
{
    let n: usize = s.unicode_len();
    if i < n && s.get_char(i) == c {
        proof {
            assert(s@.skip(i as int)[0] == s@[i as int]);
            assert(s@.skip(i as int).skip(1) =~= s@.skip(i as int + 1));
        }
        Some(i + 1)
    } else {
        None
    }
}

pub fn px_lit(s: &str, i: usize, l: &str) -> (r: Option<usize>)
    requires
        i <= s@.len(),
    ensures
        match p_lit(s@.skip(i as int), l@) {
            Some(rest) => r matches Some(j) && i <= j && j <= s@.len() && s@.skip(j as int)
                == rest,
            None => r is None,
        },
{
    let ghost t: Seq<char> = s@.skip(i as int);
    let n: usize = s.unicode_len();
    let m: usize = l.unicode_len();
    if n - i < m {
        return None;
    }
    let mut k: usize = 0;
    while k < m
        invariant
            i <= s@.len(),
            n == s@.len(),
            m == l@.len(),
            m <= n - i,
            k <= m,
            t == s@.skip(i as int),
            forall|q: int| 0 <= q < k ==> t[q] == l@[q],
        decreases m - k,
    {
        let a = s.get_char(i + k);
        let b = l.get_char(k);
        proof {
            assert(t[k as int] == s@[i + k]);
        }
        if a != b {
            proof {
                if t.subrange(0, m as int) == l@ {
                    assert(t.subrange(0, m as int)[k as int] == l@[k as int]);
                    assert(false);
                }
            }
            return None;
        }
        k = k + 1;
    }
    proof {
        assert(t.subrange(0, m as int) =~= l@);
        assert(t.skip(m as int) =~= s@.skip(i + m));
    }
    Some(i + m)
}

pub fn unesc_of(c: char) -> (r: Option<char>)
    ensures
        r == unesc_char(c),
{
    if c == '"' { Some('"') }
    else if c == '\\' { Some('\\') }
    else if c == '/' { Some('/') }
    else if c == 'n' { Some('\n') }
    else if c == 'r' { Some('\r') }
    else if c == 't' { Some('\t') }
    else if c == 'b' { Some('\u{8}') }
    else if c == 'f' { Some('\u{c}') }
    else { None }
}

pub fn hex_of(d: u32) -> (c: char)
    requires
        d < 16,
    ensures
        c == hex_char(d as int),
{
    if d == 0 { '0' } else if d == 1 { '1' } else if d == 2 { '2' }
    else if d == 3 { '3' } else if d == 4 { '4' } else if d == 5 { '5' }
    else if d == 6 { '6' } else if d == 7 { '7' } else if d == 8 { '8' }
    else if d == 9 { '9' } else if d == 10 { 'a' } else if d == 11 { 'b' }
    else if d == 12 { 'c' } else if d == 13 { 'd' } else if d == 14 { 'e' }
    else { 'f' }
}

pub fn hexv_of(c: char) -> (r: Option<u32>)
    ensures
        is_hex(c) ==> r == Some(hex_val(c) as u32) && hex_val(c) < 16,
        !is_hex(c) ==> r is None,
{
    if c >= '0' && c <= '9' { Some(c as u32 - '0' as u32) }
    else if c >= 'a' && c <= 'f' { Some(c as u32 - 'a' as u32 + 10) }
    else if c >= 'A' && c <= 'F' { Some(c as u32 - 'A' as u32 + 10) }
    else { None }
}

/// Relies on `char::from_u32`: `Some` exactly for Unicode scalar values
/// (not a surrogate, at most `0x10FFFF`), carrying the character with
/// that value.
#[verifier::external_body]
pub fn char_from_u32(v: u32) -> (r: Option<char>)
    ensures
        (v < 0xD800 || (0xE000 <= v && v <= 0x10FFFF)) ==> r == Some(v as char),
        !(v < 0xD800 || (0xE000 <= v && v <= 0x10FFFF)) ==> r is None,
{
    char::from_u32(v)
}

/// Whether two pieces of text hold the same characters.
pub fn str_eq(a: &str, b: &str) -> (r: bool)
    ensures
        r == (a@ == b@),
{
    let n: usize = a.unicode_len();
    let m: usize = b.unicode_len();
    if n != m {
        proof {
            assert(a@.len() != b@.len());
        }
        return false;
    }
    let mut k: usize = 0;
    while k < n
        invariant
            n == a@.len(),
            n == b@.len(),
            k <= n,
            forall|q: int| 0 <= q < k ==> a@[q] == b@[q],
        decreases n - k,
    {
        if a.get_char(k) != b.get_char(k) {
            return false;
        }
        k = k + 1;
    }
    proof {
        assert(a@ =~= b@);
    }
    true
}

/// Move past insignificant whitespace.
pub fn px_ws(s: &str, i: usize) -> (j: usize)
    requires
        i <= s@.len(),
    ensures
        i <= j && j <= s@.len() && s@.skip(j as int) == skip_ws(s@.skip(i as int)),
{
    let n: usize = s.unicode_len();
    let mut j: usize = i;
    let mut stop: bool = false;
    while !stop && j < n
        invariant
            i <= j,
            j <= n,
            n == s@.len(),
            skip_ws(s@.skip(i as int)) == skip_ws(s@.skip(j as int)),
            stop ==> j < n && !is_ws(s@[j as int]),
        decreases n - j, (if stop { 0int } else { 1int }),
    {
        let c = s.get_char(j);
        proof {
            assert(s@.skip(j as int)[0] == s@[j as int]);
        }
        if c == ' ' || c == '\t' || c == '\n' || c == '\r' {
            proof {
                assert(s@.skip(j as int).skip(1) =~= s@.skip(j as int + 1));
            }
            j = j + 1;
        } else {
            stop = true;
        }
    }
    proof {
        let u = s@.skip(j as int);
        if j == n {
            assert(u.len() == 0);
        } else {
            assert(u[0] == s@[j as int]);
        }
        assert(skip_ws(u) == u);
    }
    j
}

#[verifier::rlimit(100)]
pub fn px_strbody(s: &str, i: usize) -> (r: Option<(String, usize)>)
    requires
        i <= s@.len(),
    ensures
        match p_strbody(s@.skip(i as int)) {
            Some(p) => r matches Some(q) && q.0@ == p.0 && i <= q.1 && q.1 <= s@.len()
                && s@.skip(q.1 as int) == p.1,
            None => r is None,
        },
    decreases s@.len() - i,
{
    let ghost t: Seq<char> = s@.skip(i as int);
    let n: usize = s.unicode_len();
    if i == n {
        return None;
    }
    let c = s.get_char(i);
    proof {
        assert(t[0] == s@[i as int]);
    }
    if c == '"' {
        proof {
            assert(t.skip(1) =~= s@.skip(i as int + 1));
        }
        Some((String::new(), i + 1))
    } else if c == '\\' {
        if i + 1 < n {
            let e = s.get_char(i + 1);
            proof {
                assert(t[1] == s@[i as int + 1]);
            }
            if e == 'u' {
                if n - i < 6 {
                    return None;
                }
                proof {
                    assert(t[2] == s@[i as int + 2]);
                    assert(t[3] == s@[i as int + 3]);
                    assert(t[4] == s@[i as int + 4]);
                    assert(t[5] == s@[i as int + 5]);
                }
                let h0 = match hexv_of(s.get_char(i + 2)) {
                    Some(h) => h,
                    None => { return None; },
                };
                let h1 = match hexv_of(s.get_char(i + 3)) {
                    Some(h) => h,
                    None => { return None; },
                };
                let h2 = match hexv_of(s.get_char(i + 4)) {
                    Some(h) => h,
                    None => { return None; },
                };
                let h3 = match hexv_of(s.get_char(i + 5)) {
                    Some(h) => h,
                    None => { return None; },
                };
                let v: u32 = h0 * 4096 + h1 * 256 + h2 * 16 + h3;
                proof {
                    assert(t.skip(2)[0] == t[2]);
                    assert(t.skip(2)[1] == t[3]);
                    assert(t.skip(2)[2] == t[4]);
                    assert(t.skip(2)[3] == t[5]);
                    assert(hex4(t.skip(2)) == v as int);
                }
                if v < 0xD800 || v >= 0xE000 {
                    let cu = char_from_u32(v).unwrap();
                    proof {
                        assert(t.skip(6) =~= s@.skip(i as int + 6));
                    }
                    match px_strbody(s, i + 6) {
                        Some(p) => {
                            let (vs, j) = p;
                            let mut w = String::new();
                            push_char(&mut w, cu);
                            w.append(vs.as_str());
                            proof {
                                assert(w@ =~= seq![(v as int) as char] + vs@);
                            }
                            Some((w, j))
                        },
                        None => None,
                    }
                } else if v < 0xDC00 {
                    if n - i < 12 {
                        return None;
                    }
                    proof {
                        assert(t[6] == s@[i as int + 6]);
                        assert(t[7] == s@[i as int + 7]);
                        assert(t[8] == s@[i as int + 8]);
                        assert(t[9] == s@[i as int + 9]);
                        assert(t[10] == s@[i as int + 10]);
                        assert(t[11] == s@[i as int + 11]);
                    }
                    if s.get_char(i + 6) != '\\' || s.get_char(i + 7) != 'u' {
                        return None;
                    }
                    let g0 = match hexv_of(s.get_char(i + 8)) {
                        Some(h) => h,
                        None => { return None; },
                    };
                    let g1 = match hexv_of(s.get_char(i + 9)) {
                        Some(h) => h,
                        None => { return None; },
                    };
                    let g2 = match hexv_of(s.get_char(i + 10)) {
                        Some(h) => h,
                        None => { return None; },
                    };
                    let g3 = match hexv_of(s.get_char(i + 11)) {
                        Some(h) => h,
                        None => { return None; },
                    };
                    let w2: u32 = g0 * 4096 + g1 * 256 + g2 * 16 + g3;
                    proof {
                        assert(t.skip(8)[0] == t[8]);
                        assert(t.skip(8)[1] == t[9]);
                        assert(t.skip(8)[2] == t[10]);
                        assert(t.skip(8)[3] == t[11]);
                        assert(hex4(t.skip(8)) == w2 as int);
                    }
                    if 0xDC00 <= w2 && w2 < 0xE000 {
                        let combined: u32 = 0x10000 + (v - 0xD800) * 0x400 + (w2 - 0xDC00);
                        let cu = char_from_u32(combined).unwrap();
                        proof {
                            assert(t.skip(12) =~= s@.skip(i as int + 12));
                        }
                        match px_strbody(s, i + 12) {
                            Some(p) => {
                                let (vs, j) = p;
                                let mut w = String::new();
                                push_char(&mut w, cu);
                                w.append(vs.as_str());
                                proof {
                                    assert(w@ =~= seq![(combined as int) as char] + vs@);
                                }
                                Some((w, j))
                            },
                            None => None,
                        }
                    } else {
                        None
                    }
                } else {
                    None
                }
            } else {
                match unesc_of(e) {
                    Some(u) => {
                        proof {
                            assert(t.skip(2) =~= s@.skip(i as int + 2));
                        }
                        match px_strbody(s, i + 2) {
                            Some(p) => {
                                let (v, j) = p;
                                let mut w = String::new();
                                push_char(&mut w, u);
                                w.append(v.as_str());
                                proof {
                                    assert(w@ =~= seq![u] + v@);
                                }
                                Some((w, j))
                            },
                            None => None,
                        }
                    },
                    None => None,
                }
            }
        } else {
            None
        }
    } else {
        proof {
            assert(t.skip(1) =~= s@.skip(i as int + 1));
        }
        match px_strbody(s, i + 1) {
            Some(p) => {
                let (v, j) = p;
                let mut w = String::new();
                push_char(&mut w, c);
                w.append(v.as_str());
                proof {
                    assert(w@ =~= seq![t[0]] + v@);
                }
                Some((w, j))
            },
            None => None,
        }
    }
}

#[verifier::rlimit(100)]
pub fn px_string(s: &str, i: usize) -> (r: Option<(String, usize)>)
    requires
        i <= s@.len(),
    ensures
        match p_string(s@.skip(i as int)) {
            Some(p) => r matches Some(q) && q.0@ == p.0 && i <= q.1 && q.1 <= s@.len()
                && s@.skip(q.1 as int) == p.1,
            None => r is None,
        },
{
    match px_char(s, i, '"') {
        Some(j) => px_strbody(s, j),
        None => None,
    }
}

pub fn val_of(c: char) -> (r: u64)
    requires
        is_digit(c),
    ensures
        r == digit_val(c),
        r < 10,
{
    if c == '0' { 0 } else if c == '1' { 1 } else if c == '2' { 2 }
    else if c == '3' { 3 } else if c == '4' { 4 } else if c == '5' { 5 }
    else if c == '6' { 6 } else if c == '7' { 7 } else if c == '8' { 8 }
    else { 9 }
}

/// `p_digits` never lowers a non-negative accumulator.
pub proof fn lemma_digits_ge(t: Seq<char>, acc: int)
    requires
        acc >= 0,
    ensures
        p_digits(t, acc).0 >= acc,
    decreases t.len(),
{
    if t.len() > 0 && is_digit(t[0]) {
        lemma_digits_ge(t.skip(1), acc * 10 + digit_val(t[0]));
    }
}

pub fn px_u64(s: &str, i: usize) -> (r: Option<(u64, usize)>)
    requires
        i <= s@.len(),
    ensures
        match p_u64(s@.skip(i as int)) {
            Some(p) => r matches Some(q) && q.0 == p.0 && i <= q.1 && q.1 <= s@.len()
                && s@.skip(q.1 as int) == p.1,
            None => r is None,
        },
{
    let ghost t: Seq<char> = s@.skip(i as int);
    let n: usize = s.unicode_len();
    if i == n {
        return None;
    }
    let c0 = s.get_char(i);
    proof {
        assert(t[0] == s@[i as int]);
    }
    if !(c0 >= '0' && c0 <= '9') {
        return None;
    }
    let mut j: usize = i;
    let mut acc: u64 = 0;
    let mut stop: bool = false;
    while !stop && j < n
        invariant
            i <= j,
            j <= n,
            n == s@.len(),
            t == s@.skip(i as int),
            p_digits(t, 0) == p_digits(s@.skip(j as int), acc as int),
            stop ==> j < n && !is_digit(s@[j as int]),
        decreases n - j, (if stop { 0int } else { 1int }),
    {
        let c = s.get_char(j);
        proof {
            assert(s@.skip(j as int)[0] == s@[j as int]);
        }
        if c >= '0' && c <= '9' {
            let d = val_of(c);
            let q: u64 = (u64::MAX - d) / 10;
            if acc > q {
                proof {
                    let ghost u = s@.skip(j as int);
                    assert(acc as int * 10 + d as int > u64::MAX as int) by (nonlinear_arith)
                        requires
                            acc as int > (u64::MAX as int - d as int) / 10,
                            d < 10,
                    ;
                    lemma_digits_ge(u.skip(1), acc as int * 10 + digit_val(u[0]));
                    assert(p_digits(t, 0).0 > u64::MAX as int);
                }
                return None;
            }
            proof {
                assert(acc as int * 10 + d as int <= u64::MAX as int) by (nonlinear_arith)
                    requires
                        acc as int <= (u64::MAX as int - d as int) / 10,
                        d < 10,
                        acc >= 0,
                ;
                assert(s@.skip(j as int).skip(1) =~= s@.skip(j as int + 1));
            }
            acc = acc * 10 + d;
            j = j + 1;
        } else {
            stop = true;
        }
    }
    proof {
        let ghost u = s@.skip(j as int);
        if j == n {
            assert(u.len() == 0);
        } else {
            assert(u[0] == s@[j as int]);
        }
        assert(p_digits(u, acc as int) == (acc as int, u));
        assert(p_digits(t, 0) == (acc as int, u));
    }
    Some((acc, j))
}

pub fn px_bool(s: &str, i: usize) -> (r: Option<(bool, usize)>)
    requires
        i <= s@.len(),
    ensures
        match p_bool(s@.skip(i as int)) {
            Some(p) => r matches Some(q) && q.0 == p.0 && i <= q.1 && q.1 <= s@.len()
                && s@.skip(q.1 as int) == p.1,
            None => r is None,
        },
{
    match px_lit(s, i, "true") {
        Some(j) => Some((true, j)),
        None => match px_lit(s, i, "false") {
            Some(j) => Some((false, j)),
            None => None,
        },
    }
}

// ---------------------------------------------------------------------------
// Completeness: parsing what was rendered gives the value back
// ---------------------------------------------------------------------------

pub proof fn lemma_p_char_complete(c: char, rest: Seq<char>)
    ensures
        p_char(seq![c] + rest, c) == Some(rest),
{
    assert((seq![c] + rest)[0] == c);
    assert((seq![c] + rest).skip(1) =~= rest);
}

pub proof fn lemma_p_lit_complete(l: Seq<char>, rest: Seq<char>)
    ensures
        p_lit(l + rest, l) == Some(rest),
{
    assert((l + rest).subrange(0, l.len() as int) =~= l);
    assert((l + rest).skip(l.len() as int) =~= rest);
}

pub proof fn lemma_hex_char(x: int)
    requires
        0 <= x < 16,
    ensures
        is_hex(hex_char(x)),
        hex_val(hex_char(x)) == x,
{
}

#[verifier::rlimit(80)]
pub proof fn lemma_p_strbody_complete(v: Seq<char>, rest: Seq<char>)
    ensures
        p_strbody(jesc(v) + seq!['"'] + rest) == Some((v, rest)),
    decreases v.len(),
{
    let t = jesc(v) + seq!['"'] + rest;
    if v.len() == 0 {
        assert(t =~= seq!['"'] + rest);
        assert(t[0] == '"');
        assert(t.skip(1) =~= rest);
    } else {
        let c = v[0];
        let v1 = v.skip(1);
        lemma_p_strbody_complete(v1, rest);
        assert(jesc(v) == esc_char(c) + jesc(v1));
        if c == '"' || c == '\\' || c == '\n' || c == '\r' || c == '\t' || c == '\u{8}' || c
            == '\u{c}' {
            let e: char = if c == '"' { '"' } else if c == '\\' { '\\' } else if c == '\n' {
                'n'
            } else if c == '\r' { 'r' } else if c == '\t' { 't' } else if c == '\u{8}' {
                'b'
            } else { 'f' };
            assert(esc_char(c) =~= seq!['\\', e]);
            assert(t[0] == '\\');
            assert(t[1] == e);
            assert(e != 'u');
            assert(unesc_char(e) == Some(c));
            assert(t.skip(2) =~= jesc(v1) + seq!['"'] + rest);
            assert(seq![c] + v1 =~= v);
        } else if (c as u32) < 32 {
            let d = c as u32 as int;
            let h1 = hex_char(d / 16);
            let h2 = hex_char(d % 16);
            assert(esc_char(c) =~= seq!['\\', 'u', '0', '0', h1, h2]);
            assert(t.len() >= 6);
            assert(t[0] == '\\');
            assert(t[1] == 'u');
            assert(t[2] == '0');
            assert(t[3] == '0');
            assert(t[4] == h1);
            assert(t[5] == h2);
            lemma_hex_char(d / 16);
            lemma_hex_char(d % 16);
            assert(is_hex('0') && hex_val('0') == 0);
            assert(t.skip(2)[0] == t[2]);
            assert(t.skip(2)[1] == t[3]);
            assert(t.skip(2)[2] == t[4]);
            assert(t.skip(2)[3] == t[5]);
            assert(hex4(t.skip(2)) == (d / 16) * 16 + d % 16);
            assert(hex4(t.skip(2)) == d);
            assert(d < 0xD800);
            vstd::utf8::char_u32_cast(c, c as u32);
            assert(((c as u32) as char) == c);
            assert((d as char) == c);
            assert(t.skip(6) =~= jesc(v1) + seq!['"'] + rest);
            assert(seq![c] + v1 =~= v);
            assert(seq![d as char] + v1 =~= v);
        } else {
            assert(esc_char(c) =~= seq![c]);
            assert(t[0] == c);
            assert(c != '"' && c != '\\');
            assert(t.skip(1) =~= jesc(v1) + seq!['"'] + rest);
            assert(seq![c] + v1 =~= v);
        }
    }
}

pub proof fn lemma_p_string_complete(v: Seq<char>, rest: Seq<char>)
    ensures
        p_string(jstr(v) + rest) == Some((v, rest)),
{
    let t = jstr(v) + rest;
    assert(t[0] == '"');
    assert(t.skip(1) =~= jesc(v) + seq!['"'] + rest);
    lemma_p_strbody_complete(v, rest);
}

pub open spec fn pow10(k: nat) -> int
    decreases k,
{
    if k == 0 {
        1
    } else {
        10 * pow10((k - 1) as nat)
    }
}

pub proof fn lemma_jnum_digits(n: int)
    requires
        n >= 0,
    ensures
        jnum(n).len() >= 1,
        forall|q: int| 0 <= q < jnum(n).len() ==> is_digit(#[trigger] jnum(n)[q]),
        forall|q: int| 0 <= q < jnum(n).len() ==> digit_val(#[trigger] jnum(n)[q]) < 10,
    decreases n,
{
    if n < 10 {
        assert(is_digit(digit_char(n)));
    } else {
        lemma_jnum_digits(n / 10);
        assert(is_digit(digit_char(n % 10)));
        assert(forall|q: int| 0 <= q < jnum(n / 10).len() ==> #[trigger] jnum(n)[q] == jnum(
            n / 10,
        )[q]);
        assert(jnum(n)[jnum(n).len() - 1] == digit_char(n % 10));
    }
}

#[verifier::rlimit(100)]
pub proof fn lemma_p_digits_jnum(n: int, acc: int, rest: Seq<char>)
    requires
        n >= 0,
    ensures
        p_digits(jnum(n) + rest, acc) == p_digits(rest, acc * pow10(jnum(n).len() as nat) + n),
    decreases n,
{
    let t = jnum(n) + rest;
    if n < 10 {
        assert(t[0] == digit_char(n));
        assert(is_digit(digit_char(n)));
        assert(digit_val(digit_char(n)) == n);
        assert(t.skip(1) =~= rest);
        assert(pow10(0) == 1);
        assert(pow10(1) == 10);
        assert(jnum(n).len() == 1);
    } else {
        let d = digit_char(n % 10);
        assert(jnum(n) == jnum(n / 10) + seq![d]);
        assert(t =~= jnum(n / 10) + (seq![d] + rest));
        lemma_p_digits_jnum(n / 10, acc, seq![d] + rest);
        let l1 = jnum(n / 10).len() as nat;
        let a1 = acc * pow10(l1) + n / 10;
        assert((seq![d] + rest)[0] == d);
        assert(is_digit(d));
        assert(digit_val(d) == n % 10);
        assert((seq![d] + rest).skip(1) =~= rest);
        assert(p_digits(seq![d] + rest, a1) == p_digits(rest, a1 * 10 + n % 10));
        assert(jnum(n).len() == l1 + 1);
        assert(pow10(l1 + 1) == 10 * pow10(l1));
        assert(a1 * 10 + n % 10 == acc * (10 * pow10(l1)) + n) by (nonlinear_arith)
            requires
                a1 == acc * pow10(l1) + n / 10,
                n >= 10,
                n / 10 * 10 + n % 10 == n,
        ;
    }
}

#[verifier::rlimit(100)]
pub proof fn lemma_p_u64_complete(n: u64, rest: Seq<char>)
    requires
        rest.len() == 0 || !is_digit(rest[0]),
    ensures
        p_u64(jnum(n as int) + rest) == Some((n, rest)),
{
    let t = jnum(n as int) + rest;
    lemma_jnum_digits(n as int);
    assert(t[0] == jnum(n as int)[0]);
    lemma_p_digits_jnum(n as int, 0, rest);
    assert(0 * pow10(jnum(n as int).len() as nat) + n as int == n as int) by (nonlinear_arith);
    assert(p_digits(rest, n as int) == (n as int, rest));
    assert(p_num(t) == Some((n as int, rest)));
}

// ---------------------------------------------------------------------------
// Views of optional values, for contracts over partially gathered members
// ---------------------------------------------------------------------------

pub open spec fn opt_view<T: View>(o: Option<T>) -> Option<T::V> {
    match o {
        Option::Some(x) => Option::Some(x@),
        Option::None => Option::None,
    }
}

pub open spec fn opt_str_view(o: Option<String>) -> Option<Seq<char>> {
    match o {
        Option::Some(x) => Option::Some(x@),
        Option::None => Option::None,
    }
}

pub open spec fn opt_strs_view(o: Option<Vec<String>>) -> Option<Seq<Seq<char>>> {
    match o {
        Option::Some(x) => Option::Some(x.deep_view()),
        Option::None => Option::None,
    }
}

// ---------------------------------------------------------------------------
// Arrays of strings
// ---------------------------------------------------------------------------

/// String literals, comma-separated.
pub open spec fn str_items(rs: Seq<Seq<char>>) -> Seq<char>
    decreases rs.len(),
{
    if rs.len() == 0 {
        Seq::empty()
    } else if rs.len() == 1 {
        jstr(rs[0])
    } else {
        jstr(rs[0]) + seq![','] + str_items(rs.skip(1))
    }
}

/// A JSON array of strings.
pub open spec fn strarr_json(rs: Seq<Seq<char>>) -> Seq<char> {
    seq!['['] + str_items(rs) + seq![']']
}

/// One or more strings, then the closing bracket.
pub open spec fn p_str_items(t: Seq<char>) -> Option<(Seq<Seq<char>>, Seq<char>)>
    decreases t.len(),
{
    match p_string(t) {
        Option::Some(sp) => {
            let t2 = skip_ws(sp.1);
            match p_char(t2, ',') {
                Option::Some(t3) => {
                    let t4 = skip_ws(t3);
                    if t4.len() < t.len() {
                        match p_str_items(t4) {
                            Option::Some(mp) => Option::Some((seq![sp.0] + mp.0, mp.1)),
                            Option::None => Option::None,
                        }
                    } else {
                        Option::None
                    }
                },
                Option::None => match p_char(t2, ']') {
                    Option::Some(t3) => Option::Some((seq![sp.0], t3)),
                    Option::None => Option::None,
                },
            }
        },
        Option::None => Option::None,
    }
}

pub open spec fn p_strarr(t: Seq<char>) -> Option<(Seq<Seq<char>>, Seq<char>)> {
    match p_char(t, '[') {
        Option::Some(t1) => {
            let t2 = skip_ws(t1);
            match p_char(t2, ']') {
                Option::Some(t3) => Option::Some((Seq::empty(), t3)),
                Option::None => p_str_items(t2),
            }
        },
        Option::None => Option::None,
    }
}

#[verifier::rlimit(100)]
pub fn px_str_items(s: &str, i: usize) -> (r: Option<(Vec<String>, usize)>)
    requires
        i <= s@.len(),
    ensures
        match p_str_items(s@.skip(i as int)) {
            Option::Some(p) => r matches Some(q) && q.0.deep_view() == p.0 && i <= q.1
                && q.1 <= s@.len() && s@.skip(q.1 as int) == p.1,
            Option::None => r is None,
        },
    decreases s@.len() - i,
{
    let (s0, j1) = match px_string(s, i) {
        Some(p) => p,
        None => { return None; },
    };
    let j2 = px_ws(s, j1);
    match px_char(s, j2, ',') {
        Some(j3) => {
            let j4 = px_ws(s, j3);
            if j4 > i {
                match px_str_items(s, j4) {
                    Some(p) => {
                        let (mut v, j5) = p;
                        v.insert(0, s0);
                        proof {
                            let sp = p_string(s@.skip(i as int))->Some_0;
                            let mp = p_str_items(s@.skip(j4 as int))->Some_0;
                            assert(v.deep_view() =~= seq![sp.0] + mp.0);
                        }
                        Some((v, j5))
                    },
                    None => None,
                }
            } else {
                proof {
                    assert(s@.skip(j4 as int).len() < s@.skip(i as int).len());
                }
                None
            }
        },
        None => match px_char(s, j2, ']') {
            Some(j3) => {
                let mut v: Vec<String> = Vec::new();
                v.push(s0);
                proof {
                    let sp = p_string(s@.skip(i as int))->Some_0;
                    assert(v.deep_view() =~= seq![sp.0]);
                }
                Some((v, j3))
            },
            None => None,
        },
    }
}

#[verifier::rlimit(100)]
pub fn px_strarr(s: &str, i: usize) -> (r: Option<(Vec<String>, usize)>)
    requires
        i <= s@.len(),
    ensures
        match p_strarr(s@.skip(i as int)) {
            Option::Some(p) => r matches Some(q) && q.0.deep_view() == p.0 && i <= q.1
                && q.1 <= s@.len() && s@.skip(q.1 as int) == p.1,
            Option::None => r is None,
        },
{
    let j1 = match px_char(s, i, '[') {
        Some(j) => j,
        None => { return None; },
    };
    let j2 = px_ws(s, j1);
    match px_char(s, j2, ']') {
        Some(j3) => {
            let v: Vec<String> = Vec::new();
            proof {
                assert(v.deep_view() =~= Seq::<Seq<char>>::empty());
            }
            Some((v, j3))
        },
        None => px_str_items(s, j2),
    }
}

#[verifier::rlimit(100)]
pub proof fn lemma_p_str_items_complete(rs: Seq<Seq<char>>, rest: Seq<char>)
    requires
        rs.len() >= 1,
    ensures
        p_str_items(str_items(rs) + (seq![']'] + rest)) == Some((rs, rest)),
    decreases rs.len(),
{
    let t = str_items(rs) + (seq![']'] + rest);
    if rs.len() == 1 {
        lemma_p_string_complete(rs[0], seq![']'] + rest);
        assert((seq![']'] + rest)[0] == ']');
        assert(!is_ws(']'));
        assert(skip_ws(seq![']'] + rest) == seq![']'] + rest);
        assert(p_char(seq![']'] + rest, ',') is None);
        lemma_p_char_complete(']', rest);
        assert(seq![rs[0]] =~= rs);
    } else {
        let tail = rs.skip(1);
        let t2 = str_items(tail) + (seq![']'] + rest);
        assert(t =~= jstr(rs[0]) + (seq![','] + t2));
        lemma_p_string_complete(rs[0], seq![','] + t2);
        assert((seq![','] + t2)[0] == ',');
        assert(!is_ws(','));
        assert(skip_ws(seq![','] + t2) == seq![','] + t2);
        lemma_p_char_complete(',', t2);
        assert(t2[0] == jstr(tail[0])[0]);
        assert(t2[0] == '"');
        assert(!is_ws('"'));
        assert(skip_ws(t2) == t2);
        assert(t.len() == jstr(rs[0]).len() + 1 + t2.len());
        lemma_p_str_items_complete(tail, rest);
        assert(seq![rs[0]] + tail =~= rs);
    }
}

#[verifier::rlimit(100)]
pub proof fn lemma_p_strarr_complete(rs: Seq<Seq<char>>, rest: Seq<char>)
    ensures
        p_strarr(strarr_json(rs) + rest) == Some((rs, rest)),
{
    let t1 = str_items(rs) + (seq![']'] + rest);
    assert(strarr_json(rs) + rest =~= seq!['['] + t1);
    lemma_p_char_complete('[', t1);
    if rs.len() == 0 {
        assert(t1 =~= seq![']'] + rest);
        assert(t1[0] == ']');
        assert(!is_ws(']'));
        assert(skip_ws(t1) == t1);
        lemma_p_char_complete(']', rest);
        assert(Seq::<Seq<char>>::empty() =~= rs);
    } else {
        assert(t1[0] == jstr(rs[0])[0]);
        assert(t1[0] == '"');
        assert(!is_ws('"'));
        assert(skip_ws(t1) == t1);
        assert(p_char(t1, ']') is None);
        lemma_p_str_items_complete(rs, rest);
    }
}

// ---------------------------------------------------------------------------
// Joining strings with a separator
// ---------------------------------------------------------------------------

pub open spec fn joined(rs: Seq<Seq<char>>, sep: Seq<char>) -> Seq<char>
    decreases rs.len(),
{
    if rs.len() == 0 {
        Seq::empty()
    } else if rs.len() == 1 {
        rs[0]
    } else {
        rs[0] + sep + joined(rs.skip(1), sep)
    }
}

pub proof fn lemma_joined_push(rs: Seq<Seq<char>>, sep: Seq<char>, x: Seq<char>)
    ensures
        joined(rs.push(x), sep) == if rs.len() == 0 {
            x
        } else {
            joined(rs, sep) + sep + joined(seq![x], sep)
        },
    decreases rs.len(),
{
    let e = rs.push(x);
    if rs.len() == 0 {
        assert(e.len() == 1);
        assert(e[0] == x);
    } else {
        assert(e[0] == rs[0]);
        assert(e.skip(1) =~= rs.skip(1).push(x));
        lemma_joined_push(rs.skip(1), sep, x);
        if rs.len() == 1 {
            assert(rs.skip(1).len() == 0);
            assert(joined(e, sep) == rs[0] + sep + x);
            assert(joined(rs, sep) == rs[0]);
        } else {
            assert(joined(e, sep) == rs[0] + sep + (joined(rs.skip(1), sep) + sep + x));
            assert(rs[0] + sep + (joined(rs.skip(1), sep) + sep + x) =~= (rs[0] + sep + joined(
                rs.skip(1),
                sep,
            )) + sep + x);
        }
    }
}

pub fn join_strings(v: &Vec<String>, sep: &str) -> (r: String)
    ensures
        r@ == joined(v.deep_view(), sep@),
{
    let ghost vs: Seq<Seq<char>> = v.deep_view();
    let mut out = String::new();
    let mut k: usize = 0;
    while k < v.len()
        invariant
            k <= v.len(),
            vs == v.deep_view(),
            vs.len() == v.len(),
            forall|q: int| 0 <= q < v.len() ==> vs[q] == v@[q]@,
            out@ == joined(vs.subrange(0, k as int), sep@),
        decreases v.len() - k,
    {
        if k > 0 {
            push_lit(&mut out, sep);
        }
        push_lit(&mut out, v[k].as_str());
        proof {
            let pre = vs.subrange(0, k as int);
            lemma_joined_push(pre, sep@, vs[k as int]);
            assert(pre.push(vs[k as int]) =~= vs.subrange(0, k as int + 1));
            if k > 0 {
                assert(joined(seq![vs[k as int]], sep@) == vs[k as int]);
                assert(out@ =~= joined(pre, sep@) + sep@ + vs[k as int]);
            }
        }
        k = k + 1;
    }
    proof {
        assert(vs.subrange(0, vs.len() as int) =~= vs);
    }
    out
}

pub proof fn lemma_p_bool_complete(b: bool, rest: Seq<char>)
    ensures
        p_bool(jbool(b) + rest) == Some((b, rest)),
{
    reveal_strlit("true");
    reveal_strlit("false");
    if b {
        lemma_p_lit_complete("true"@, rest);
    } else {
        lemma_p_lit_complete("false"@, rest);
        let t = "false"@ + rest;
        if t.len() >= 4 && t.subrange(0, 4) == "true"@ {
            assert(t.subrange(0, 4)[0] == 't');
            assert(t[0] == 'f');
            assert(false);
        }
    }
}

} // verus!
