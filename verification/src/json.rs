//! Verified JSON codec for the protocol bodies.
//!
//! The protocol of this system carries a handful of fixed-shape JSON
//! messages.  This module encodes each message type to its canonical JSON
//! form — the field order of the type, no whitespace, the standard string
//! escapes — and decodes that form back.  Decoding is specified by spec
//! parsers over character sequences; every decoder is proved to follow its
//! spec parser, and a round-trip lemma per message type shows that
//! decoding an encoding yields the original value.
//!
//! The decoders read the canonical form this module emits (both ends of
//! the wire in this system use it): fields in declaration order and no
//! padding between tokens.  String escapes are read in full generality.

use vstd::prelude::*;
use vstd::string::StringExecFns;
use vstd::string::StrSliceExecFns;

use crate::protocol::{
    BenchmarkListResponse, ClaimRequest, ClaimResponse, HealthResponse, ReleaseRequest,
    ReleaseResponse, RunIterationRequest, RunIterationResponse, ShutdownResponse,
};

verus! {

broadcast use vstd::utf8::char_u32_cast;

/// Appends `ch` to the string.  Relies on `String::push` from std: the
/// vstd string model has no specification for it.
pub assume_specification[ String::push ](s: &mut String, ch: char)
    ensures
        final(s)@ == old(s)@.push(ch),
;

/// Converts a code point to a `char`.  Relies on `char::from_u32` from
/// std, which documents: returns `Some` exactly for valid Unicode scalar
/// values — all code points except the surrogate range `0xD800..=0xDFFF`
/// and values above `0x10FFFF` — and the resulting char has that value.
pub assume_specification[ char::from_u32 ](v: u32) -> (r: Option<char>)
    ensures
        (v < 0xD800 || (0xE000 <= v && v <= 0x10FFFF)) <==> r is Some,
        r matches Some(c) ==> c == v as char,
;

/// The value of a decimal digit, or -1 for any other character.
pub open spec fn dv(c: char) -> int {
    if ('0' as int) <= (c as int) && (c as int) <= ('9' as int) {
        (c as int) - ('0' as int)
    } else {
        -1
    }
}

/// The value of a hexadecimal digit (either case), or -1.
pub open spec fn hv(c: char) -> int {
    if ('0' as int) <= (c as int) && (c as int) <= ('9' as int) {
        (c as int) - ('0' as int)
    } else if ('a' as int) <= (c as int) && (c as int) <= ('f' as int) {
        10 + (c as int) - ('a' as int)
    } else if ('A' as int) <= (c as int) && (c as int) <= ('F' as int) {
        10 + (c as int) - ('A' as int)
    } else {
        -1
    }
}

/// The lower-case hexadecimal digit for a value below 16.
pub open spec fn hex_digit(d: int) -> char {
    if d == 0 { '0' }
    else if d == 1 { '1' }
    else if d == 2 { '2' }
    else if d == 3 { '3' }
    else if d == 4 { '4' }
    else if d == 5 { '5' }
    else if d == 6 { '6' }
    else if d == 7 { '7' }
    else if d == 8 { '8' }
    else if d == 9 { '9' }
    else if d == 10 { 'a' }
    else if d == 11 { 'b' }
    else if d == 12 { 'c' }
    else if d == 13 { 'd' }
    else if d == 14 { 'e' }
    else { 'f' }
}

/// Reading back an emitted hexadecimal digit yields its value.
proof fn lemma_hex_digit_value(d: int)
    requires
        0 <= d < 16,
    ensures
        hv(hex_digit(d)) == d,
{
}

/// The decimal digit for a value below 10.
pub open spec fn dec_digit(d: int) -> char {
    hex_digit(if 0 <= d < 10 { d } else { 0 })
}

/// The escape sequence a character is written as inside a JSON string:
/// quotes and backslashes get a two-character escape, control characters
/// the `\u00XX` form, and everything else stands for itself.
pub open spec fn esc_char(c: char) -> Seq<char> {
    if c == '"' {
        seq!['\\', '"']
    } else if c == '\\' {
        seq!['\\', '\\']
    } else if (c as u32) < 0x20 {
        seq!['\\', 'u', '0', '0', hex_digit(((c as u32) / 16) as int), hex_digit(((c as u32) % 16) as int)]
    } else {
        seq![c]
    }
}

/// The escaped form of a whole string.
pub open spec fn esc(s: Seq<char>) -> Seq<char>
    decreases s.len(),
{
    if s.len() == 0 {
        Seq::empty()
    } else {
        esc_char(s[0]) + esc(s.skip(1))
    }
}

/// Escaping distributes over concatenation.
proof fn lemma_esc_append(a: Seq<char>, b: Seq<char>)
    ensures
        esc(a + b) == esc(a) + esc(b),
    decreases a.len(),
{
    if a.len() == 0 {
        assert(a + b =~= b);
        assert(esc(a) + esc(b) =~= esc(b));
    } else {
        assert((a + b).skip(1) =~= a.skip(1) + b);
        lemma_esc_append(a.skip(1), b);
        assert(esc(a + b) =~= esc(a) + esc(b));
    }
}

/// The single character an escape letter stands for, for the
/// two-character escapes.
pub open spec fn unesc1(e: char) -> Option<char> {
    if e == '"' { Some('"') }
    else if e == '\\' { Some('\\') }
    else if e == '/' { Some('/') }
    else if e == 'b' { Some('\u{0008}') }
    else if e == 'f' { Some('\u{000c}') }
    else if e == 'n' { Some('\n') }
    else if e == 'r' { Some('\r') }
    else if e == 't' { Some('\t') }
    else { None }
}

/// The decimal representation of a non-negative number, most significant
/// digit first.
pub open spec fn dec_rep(n: int) -> Seq<char>
    decreases n,
{
    if n < 10 {
        seq![dec_digit(n)]
    } else {
        dec_rep(n / 10).push(dec_digit(n % 10))
    }
}

/// The value of a sequence of decimal digits.
pub open spec fn dec_val(s: Seq<char>) -> int
    decreases s.len(),
{
    if s.len() == 0 {
        0
    } else {
        10 * dec_val(s.drop_last()) + dv(s.last())
    }
}

/// The number of leading decimal digits.
pub open spec fn digit_run(s: Seq<char>) -> int
    decreases s.len(),
{
    if s.len() > 0 && dv(s[0]) >= 0 {
        1 + digit_run(s.skip(1))
    } else {
        0
    }
}

/// Spec parser for a `u64`: the maximal run of leading digits, read as a
/// decimal number, refused when empty or when the value does not fit.
pub open spec fn sp_u64(s: Seq<char>) -> Option<(u64, Seq<char>)> {
    let k = digit_run(s);
    if k == 0 {
        None
    } else if dec_val(s.take(k)) <= u64::MAX {
        Some((dec_val(s.take(k)) as u64, s.skip(k)))
    } else {
        None
    }
}

/// Every character of a decimal representation is a digit.
proof fn lemma_dec_rep_digits(n: int)
    requires
        0 <= n,
    ensures
        dec_rep(n).len() >= 1,
        forall|i: int| 0 <= i < dec_rep(n).len() ==> dv(#[trigger] dec_rep(n)[i]) >= 0,
    decreases n,
{
    if n < 10 {
        assert(dv(dec_digit(n)) >= 0);
    } else {
        lemma_dec_rep_digits(n / 10);
        assert(dv(dec_digit(n % 10)) >= 0);
        assert(forall|i: int| 0 <= i < dec_rep(n / 10).len() ==> #[trigger] dec_rep(n)[i] == dec_rep(
            n / 10,
        )[i]);
    }
}

/// Reading back an emitted decimal digit yields its value.
proof fn lemma_dec_digit_value(d: int)
    requires
        0 <= d < 10,
    ensures
        dv(dec_digit(d)) == d,
{
}

/// Reading a decimal representation back yields the number.
proof fn lemma_dec_val_rep(n: int)
    requires
        0 <= n,
    ensures
        dec_val(dec_rep(n)) == n,
    decreases n,
{
    if n < 10 {
        lemma_dec_digit_value(n);
        assert(dec_rep(n).drop_last() =~= Seq::<char>::empty());
        assert(dec_rep(n).last() == dec_digit(n));
        assert(dec_val(Seq::<char>::empty()) == 0);
        assert(dec_val(dec_rep(n)) == 10 * dec_val(dec_rep(n).drop_last()) + dv(dec_rep(n).last()));
    } else {
        lemma_dec_val_rep(n / 10);
        lemma_dec_digit_value(n % 10);
        assert(dec_rep(n).drop_last() =~= dec_rep(n / 10));
        assert(dec_rep(n).last() == dec_digit(n % 10));
        assert(dec_val(dec_rep(n)) == 10 * dec_val(dec_rep(n).drop_last()) + dv(dec_rep(n).last()));
    }
}

/// The value of a digit sequence is non-negative.
proof fn lemma_dec_val_nonneg(s: Seq<char>)
    requires
        forall|i: int| 0 <= i < s.len() ==> dv(#[trigger] s[i]) >= 0,
    ensures
        dec_val(s) >= 0,
    decreases s.len(),
{
    if s.len() > 0 {
        lemma_dec_val_nonneg(s.drop_last());
    }
}

/// The value of a prefix of a digit sequence is at most the value of the
/// whole.
proof fn lemma_dec_val_prefix(s: Seq<char>, k: int)
    requires
        0 <= k <= s.len(),
        forall|i: int| 0 <= i < s.len() ==> dv(#[trigger] s[i]) >= 0,
    ensures
        dec_val(s.take(k)) <= dec_val(s),
    decreases s.len() - k,
{
    if k == s.len() {
        assert(s.take(k) =~= s);
    } else {
        lemma_dec_val_prefix(s, k + 1);
        let t = s.take(k + 1);
        assert(t.drop_last() =~= s.take(k));
        lemma_dec_val_nonneg(s.take(k));
        assert(dec_val(s.take(k)) <= dec_val(t));
    }
}

/// The digit run of a digit sequence followed by a non-digit (or nothing)
/// is exactly the digit sequence.
proof fn lemma_digit_run_concat(d: Seq<char>, rest: Seq<char>)
    requires
        forall|i: int| 0 <= i < d.len() ==> dv(#[trigger] d[i]) >= 0,
        rest.len() == 0 || dv(rest[0]) < 0,
    ensures
        digit_run(d + rest) == d.len(),
    decreases d.len(),
{
    if d.len() == 0 {
        assert(d + rest =~= rest);
    } else {
        assert((d + rest).skip(1) =~= d.skip(1) + rest);
        lemma_digit_run_concat(d.skip(1), rest);
    }
}

/// Round trip for numbers: parsing an emitted decimal representation
/// followed by anything that does not begin with a digit yields the
/// number and leaves the rest.
proof fn lemma_u64_roundtrip(n: u64, rest: Seq<char>)
    requires
        rest.len() == 0 || dv(rest[0]) < 0,
    ensures
        sp_u64(dec_rep(n as int) + rest) == Some((n, rest)),
{
    let d = dec_rep(n as int);
    let s = d + rest;
    lemma_dec_rep_digits(n as int);
    lemma_digit_run_concat(d, rest);
    assert(s.take(d.len() as int) =~= d);
    assert(s.skip(d.len() as int) =~= rest);
    lemma_dec_val_rep(n as int);
}

/// Spec parser for a boolean literal.
pub open spec fn sp_bool(s: Seq<char>) -> Option<(bool, Seq<char>)> {
    if s.len() >= 4 && s.take(4) == seq!['t', 'r', 'u', 'e'] {
        Some((true, s.skip(4)))
    } else if s.len() >= 5 && s.take(5) == seq!['f', 'a', 'l', 's', 'e'] {
        Some((false, s.skip(5)))
    } else {
        None
    }
}

/// The sequence of characters a boolean is written as.
pub open spec fn bool_rep(b: bool) -> Seq<char> {
    if b {
        seq!['t', 'r', 'u', 'e']
    } else {
        seq!['f', 'a', 'l', 's', 'e']
    }
}

/// Round trip for booleans.
proof fn lemma_bool_roundtrip(b: bool, rest: Seq<char>)
    ensures
        sp_bool(bool_rep(b) + rest) == Some((b, rest)),
{
    let s = bool_rep(b) + rest;
    if b {
        assert(s.take(4) =~= bool_rep(true));
        assert(s.skip(4) =~= rest);
    } else {
        assert(s.take(5) =~= bool_rep(false));
        assert(s.take(4) != seq!['t', 'r', 'u', 'e']);
        assert(s.skip(5) =~= rest);
    }
}

/// Spec parser for a fixed literal sequence.
pub open spec fn sp_lit(s: Seq<char>, lit: Seq<char>) -> Option<Seq<char>> {
    if lit.len() <= s.len() && s.take(lit.len() as int) == lit {
        Some(s.skip(lit.len() as int))
    } else {
        None
    }
}

/// Round trip for literals.
proof fn lemma_lit_roundtrip(lit: Seq<char>, rest: Seq<char>)
    ensures
        sp_lit(lit + rest, lit) == Some(rest),
{
    let s = lit + rest;
    assert(s.take(lit.len() as int) =~= lit);
    assert(s.skip(lit.len() as int) =~= rest);
}

/// Spec parser for the body of a JSON string, after the opening quote:
/// yields the decoded content and the rest of the input after the closing
/// quote.
pub open spec fn sp_str_body(s: Seq<char>) -> Option<(Seq<char>, Seq<char>)>
    decreases s.len(),
{
    if s.len() == 0 {
        None
    } else if s[0] == '"' {
        Some((Seq::empty(), s.skip(1)))
    } else if s[0] == '\\' {
        if s.len() < 2 {
            None
        } else if s[1] == 'u' {
            if s.len() < 6 {
                None
            } else {
                let h = 4096 * hv(s[2]) + 256 * hv(s[3]) + 16 * hv(s[4]) + hv(s[5]);
                if hv(s[2]) < 0 || hv(s[3]) < 0 || hv(s[4]) < 0 || hv(s[5]) < 0 || h >= 0xD800 {
                    None
                } else {
                    match sp_str_body(s.skip(6)) {
                        Some(p) => Some((seq![(h as u32) as char] + p.0, p.1)),
                        None => None,
                    }
                }
            }
        } else {
            match unesc1(s[1]) {
                Some(c) => match sp_str_body(s.skip(2)) {
                    Some(p) => Some((seq![c] + p.0, p.1)),
                    None => None,
                },
                None => None,
            }
        }
    } else {
        match sp_str_body(s.skip(1)) {
            Some(p) => Some((seq![s[0]] + p.0, p.1)),
            None => None,
        }
    }
}

/// Round trip for string bodies: parsing an escaped string followed by
/// its closing quote yields the original content and leaves the rest.
proof fn lemma_str_body_roundtrip(x: Seq<char>, rest: Seq<char>)
    ensures
        sp_str_body(esc(x) + seq!['"'] + rest) == Some((x, rest)),
    decreases x.len(),
{
    let s = esc(x) + seq!['"'] + rest;
    if x.len() == 0 {
        assert(s =~= seq!['"'] + rest);
        assert(s[0] == '"');
        assert(s.skip(1) =~= rest);
    } else {
        let c = x[0];
        let k = esc_char(c).len();
        lemma_str_body_roundtrip(x.skip(1), rest);
        assert(s =~= esc_char(c) + (esc(x.skip(1)) + seq!['"'] + rest));
        assert(s.skip(k as int) =~= esc(x.skip(1)) + seq!['"'] + rest);
        if c == '"' {
            assert(s[0] == '\\' && s[1] == '"');
            assert(seq!['"'] + x.skip(1) =~= x);
        } else if c == '\\' {
            assert(s[0] == '\\' && s[1] == '\\');
            assert(seq!['\\'] + x.skip(1) =~= x);
        } else if (c as u32) < 0x20 {
            let cu = c as u32;
            let hi = ((cu / 16) as int);
            let lo = ((cu % 16) as int);
            assert(0 <= hi < 16 && 0 <= lo < 16) by (nonlinear_arith)
                requires
                    cu < 0x20,
                    hi == (cu / 16) as int,
                    lo == (cu % 16) as int,
            ;
            assert(s[0] == '\\' && s[1] == 'u' && s[2] == '0' && s[3] == '0');
            assert(s[4] == hex_digit(hi) && s[5] == hex_digit(lo));
            lemma_hex_digit_value(hi);
            lemma_hex_digit_value(lo);
            let h = 4096 * hv(s[2]) + 256 * hv(s[3]) + 16 * hv(s[4]) + hv(s[5]);
            assert(h == 16 * hi + lo);
            assert(h == cu as int) by (nonlinear_arith)
                requires
                    h == 16 * ((cu / 16) as int) + ((cu % 16) as int),
            ;
            assert(h as u32 == cu);
            vstd::utf8::char_u32_cast(c, cu);
            assert((cu as char) == c);
            assert(((h as u32) as char) == c);
            assert(seq![c] + x.skip(1) =~= x);
        } else {
            assert(s[0] == c);
            assert(seq![c] + x.skip(1) =~= x);
        }
    }
}

/// The digit run is no longer than the input, and consists of digits.
proof fn lemma_digit_run_digits(s: Seq<char>)
    ensures
        0 <= digit_run(s) <= s.len(),
        forall|p: int| 0 <= p < digit_run(s) ==> dv(#[trigger] s[p]) >= 0,
    decreases s.len(),
{
    if s.len() > 0 && dv(s[0]) >= 0 {
        lemma_digit_run_digits(s.skip(1));
        assert forall|p: int| 0 <= p < digit_run(s) implies dv(s[p]) >= 0 by {
            if p >= 1 {
                assert(s[p] == s.skip(1)[p - 1]);
                assert(dv(s.skip(1)[p - 1]) >= 0);
            }
        }
    }
}

/// A run of leading digits bounds the digit run from below.
proof fn lemma_digit_run_lower(s: Seq<char>, m: int)
    requires
        0 <= m <= s.len(),
        forall|p: int| 0 <= p < m ==> dv(#[trigger] s[p]) >= 0,
    ensures
        digit_run(s) >= m,
    decreases m,
{
    lemma_digit_run_digits(s);
    if m > 0 {
        assert forall|p: int| 0 <= p < m - 1 implies dv(#[trigger] s.skip(1)[p]) >= 0 by {
            assert(s.skip(1)[p] == s[p + 1]);
        }
        lemma_digit_run_lower(s.skip(1), m - 1);
        assert(dv(s[0]) >= 0);
        assert(digit_run(s) == 1 + digit_run(s.skip(1)));
    }
}

/// Collect the characters of a string slice.
pub fn str_to_chars(s: &str) -> (r: Vec<char>)
    ensures
        r@ == s@,
{
    let n = s.unicode_len();
    let mut out: Vec<char> = Vec::new();
    let mut i: usize = 0;
    while i < n
        invariant
            0 <= i <= n == s@.len(),
            out@ =~= s@.take(i as int),
        decreases n - i,
    {
        out.push(s.get_char(i));
        i = i + 1;
    }
    proof {
        assert(s@.take(n as int) =~= s@);
    }
    out
}

/// Match a fixed literal at a position.
pub(crate) fn match_lit(v: &Vec<char>, i: usize, lit: &str) -> (r: Option<usize>)
    requires
        i <= v@.len(),
    ensures
        match r {
            Some(j) => i <= j <= v@.len() && sp_lit(v@.skip(i as int), lit@) == Some(
                v@.skip(j as int),
            ),
            None => sp_lit(v@.skip(i as int), lit@) is None,
        },
{
    let llen = lit.unicode_len();
    if v.len() - i < llen {
        return None;
    }
    let mut k: usize = 0;
    while k < llen
        invariant
            0 <= k <= llen == lit@.len(),
            i + llen <= v@.len() <= usize::MAX,
            forall|m: int| 0 <= m < k ==> v@[i + m] == #[trigger] lit@[m],
        decreases llen - k,
    {
        if v[i + k] != lit.get_char(k) {
            proof {
                let s = v@.skip(i as int);
                assert(s.take(lit@.len() as int)[k as int] == v@[i + k]);
            }
            return None;
        }
        k = k + 1;
    }
    proof {
        let s = v@.skip(i as int);
        assert(s.take(lit@.len() as int) =~= lit@);
        assert(s.skip(lit@.len() as int) =~= v@.skip(i + lit@.len()));
    }
    Some(i + llen)
}

/// The value of a hexadecimal digit character.
fn hv_exec(c: char) -> (r: Option<u8>)
    ensures
        match r {
            Some(d) => hv(c) == d,
            None => hv(c) < 0,
        },
{
    let u = c as u32;
    if u >= ('0' as u32) && u <= ('9' as u32) {
        Some((u - ('0' as u32)) as u8)
    } else if u >= ('a' as u32) && u <= ('f' as u32) {
        Some((u - ('a' as u32) + 10) as u8)
    } else if u >= ('A' as u32) && u <= ('F' as u32) {
        Some((u - ('A' as u32) + 10) as u8)
    } else {
        None
    }
}

/// The character a two-character escape stands for.
fn unesc1_exec(e: char) -> (r: Option<char>)
    ensures
        r == unesc1(e),
{
    if e == '"' { Some('"') }
    else if e == '\\' { Some('\\') }
    else if e == '/' { Some('/') }
    else if e == 'b' { Some('\u{0008}') }
    else if e == 'f' { Some('\u{000c}') }
    else if e == 'n' { Some('\n') }
    else if e == 'r' { Some('\r') }
    else if e == 't' { Some('\t') }
    else { None }
}

/// Parse the body of a JSON string after its opening quote, returning the
/// decoded content and the position after the closing quote.
fn p_string(v: &Vec<char>, i: usize) -> (r: Option<(String, usize)>)
    requires
        i <= v@.len(),
    ensures
        match r {
            Some(p) => i <= p.1 <= v@.len() && sp_str_body(v@.skip(i as int)) == Some(
                (p.0@, v@.skip(p.1 as int)),
            ),
            None => sp_str_body(v@.skip(i as int)) is None,
        },
{
    let mut out = String::new();
    let mut cur = i;
    loop
        invariant
            i <= cur <= v@.len(),
            match sp_str_body(v@.skip(cur as int)) {
                Some(p) => sp_str_body(v@.skip(i as int)) == Some((out@ + p.0, p.1)),
                None => sp_str_body(v@.skip(i as int)) is None,
            },
        decreases v@.len() - cur,
    {
        if cur >= v.len() {
            return None;
        }
        let ghost s = v@.skip(cur as int);
        proof {
            assert(s[0] == v@[cur as int]);
        }
        let c = v[cur];
        if c == '"' {
            proof {
                assert(s.skip(1) =~= v@.skip(cur + 1));
                assert(out@ + Seq::<char>::empty() =~= out@);
            }
            return Some((out, cur + 1));
        }
        if c == '\\' {
            if v.len() - cur < 2 {
                return None;
            }
            proof {
                assert(s[1] == v@[cur + 1]);
            }
            let e = v[cur + 1];
            if e == 'u' {
                if v.len() - cur < 6 {
                    return None;
                }
                proof {
                    assert(s[2] == v@[cur + 2]);
                    assert(s[3] == v@[cur + 3]);
                    assert(s[4] == v@[cur + 4]);
                    assert(s[5] == v@[cur + 5]);
                }
                let d0 = hv_exec(v[cur + 2]);
                let d1 = hv_exec(v[cur + 3]);
                let d2 = hv_exec(v[cur + 4]);
                let d3 = hv_exec(v[cur + 5]);
                match (d0, d1, d2, d3) {
                    (Some(a), Some(b), Some(c2), Some(d)) => {
                        let code: u32 = 4096 * (a as u32) + 256 * (b as u32) + 16 * (c2 as u32)
                            + (d as u32);
                        if code >= 0xD800 {
                            return None;
                        }
                        match char::from_u32(code) {
                            Some(ch) => {
                                proof {
                                    assert(s.skip(6) =~= v@.skip(cur + 6));
                                    match sp_str_body(v@.skip(cur + 6)) {
                                        Some(p) => {
                                            assert(out@ + (seq![ch] + p.0) =~= (out@.push(ch))
                                                + p.0);
                                        },
                                        None => {},
                                    }
                                }
                                out.push(ch);
                                cur = cur + 6;
                            },
                            None => {
                                proof {
                                    assert(false);
                                }
                                return None;
                            },
                        }
                    },
                    _ => {
                        return None;
                    },
                }
            } else {
                match unesc1_exec(e) {
                    Some(ch) => {
                        proof {
                            assert(s.skip(2) =~= v@.skip(cur + 2));
                            match sp_str_body(v@.skip(cur + 2)) {
                                Some(p) => {
                                    assert(out@ + (seq![ch] + p.0) =~= (out@.push(ch)) + p.0);
                                },
                                None => {},
                            }
                        }
                        out.push(ch);
                        cur = cur + 2;
                    },
                    None => {
                        return None;
                    },
                }
            }
        } else {
            proof {
                assert(s.skip(1) =~= v@.skip(cur + 1));
                match sp_str_body(v@.skip(cur + 1)) {
                    Some(p) => {
                        assert(out@ + (seq![c] + p.0) =~= (out@.push(c)) + p.0);
                    },
                    None => {},
                }
            }
            out.push(c);
            cur = cur + 1;
        }
    }
}

/// Parse a decimal `u64` at a position.
fn p_u64(v: &Vec<char>, i: usize) -> (r: Option<(u64, usize)>)
    requires
        i <= v@.len(),
    ensures
        match r {
            Some(p) => i <= p.1 <= v@.len() && sp_u64(v@.skip(i as int)) == Some(
                (p.0, v@.skip(p.1 as int)),
            ),
            None => sp_u64(v@.skip(i as int)) is None,
        },
{
    let ghost s = v@.skip(i as int);
    let n = v.len();
    let mut j = i;
    let mut acc: u64 = 0;
    loop
        invariant
            n == v@.len(),
            i <= j <= v@.len() <= usize::MAX,
            s == v@.skip(i as int),
            forall|m: int| i <= m < j ==> dv(#[trigger] v@[m]) >= 0,
            acc == dec_val(v@.subrange(i as int, j as int)),
        decreases v@.len() - j,
    {
        let digit_here = j < n && v[j] >= '0' && v[j] <= '9';
        if !digit_here {
            // End of the digit run: at the end of input or a non-digit.
            if j == i {
                proof {
                    if s.len() > 0 {
                        assert(s[0] == v@[i as int]);
                    }
                    assert(digit_run(s) == 0);
                }
                return None;
            }
            proof {
                let k = j - i;
                assert(s =~= v@.subrange(i as int, j as int) + v@.skip(j as int));
                assert(forall|p: int|
                    0 <= p < k ==> dv(#[trigger] v@.subrange(i as int, j as int)[p]) >= 0);
                if j < v@.len() {
                    assert(v@.skip(j as int)[0] == v@[j as int]);
                }
                lemma_digit_run_concat(v@.subrange(i as int, j as int), v@.skip(j as int));
                assert(digit_run(s) == k);
                assert(s.take(k) =~= v@.subrange(i as int, j as int));
                assert(s.skip(k) =~= v@.skip(j as int));
            }
            return Some((acc, j));
        }
        let c = v[j];
        let d = (c as u32 - '0' as u32) as u64;
        proof {
            assert(dv(c) == d);
            assert(v@.subrange(i as int, j + 1).drop_last() =~= v@.subrange(i as int, j as int));
            assert(v@.subrange(i as int, j + 1).last() == c);
        }
        let next = match acc.checked_mul(10) {
            Some(m) => m.checked_add(d),
            None => None,
        };
        match next {
            Some(n) => {
                acc = n;
                j = j + 1;
            },
            None => {
                // The value of the digits seen so far already exceeds
                // u64::MAX, so the whole run does too.
                proof {
                    let k = digit_run(s);
                    lemma_digit_run_digits(s);
                    lemma_digit_run_lower(s, j + 1 - i);
                    assert(forall|p: int| 0 <= p < j + 1 - i ==> dv(#[trigger] s[p]) >= 0);
                    assert(s.take(k).take(j + 1 - i) =~= s.take(j + 1 - i));
                    assert(forall|p: int| 0 <= p < k ==> dv(#[trigger] s.take(k)[p]) >= 0);
                    lemma_dec_val_prefix(s.take(k), j + 1 - i);
                    assert(s.take(j + 1 - i) =~= v@.subrange(i as int, j + 1));
                    assert(dec_val(v@.subrange(i as int, j + 1)) == 10 * (acc as int) + d);
                    assert(dec_val(s.take(k)) > u64::MAX);
                }
                return None;
            },
        }
    }
}

/// Parse a boolean literal at a position.
fn p_bool(v: &Vec<char>, i: usize) -> (r: Option<(bool, usize)>)
    requires
        i <= v@.len(),
    ensures
        match r {
            Some(p) => i <= p.1 <= v@.len() && sp_bool(v@.skip(i as int)) == Some(
                (p.0, v@.skip(p.1 as int)),
            ),
            None => sp_bool(v@.skip(i as int)) is None,
        },
{
    proof {
        reveal_strlit("true");
        reveal_strlit("false");
        assert("true"@ =~= seq!['t', 'r', 'u', 'e']);
        assert("false"@ =~= seq!['f', 'a', 'l', 's', 'e']);
    }
    match match_lit(v, i, "true") {
        Some(j) => Some((true, j)),
        None => match match_lit(v, i, "false") {
            Some(j) => Some((false, j)),
            None => None,
        },
    }
}

/// Append the escaped form of a string.
fn esc_into(out: &mut String, s: &str)
    ensures
        final(out)@ == old(out)@ + esc(s@),
{
    let n = s.unicode_len();
    let mut i: usize = 0;
    proof {
        assert(s@.take(0) =~= Seq::<char>::empty());
        assert(old(out)@ + esc(s@.take(0)) =~= old(out)@);
    }
    while i < n
        invariant
            0 <= i <= n == s@.len(),
            out@ == old(out)@ + esc(s@.take(i as int)),
        decreases n - i,
    {
        let c = s.get_char(i);
        proof {
            assert(s@.take(i + 1) =~= s@.take(i as int) + seq![c]);
            lemma_esc_append(s@.take(i as int), seq![c]);
            assert(seq![c].skip(1) =~= Seq::<char>::empty());
            assert(esc(Seq::<char>::empty()) =~= Seq::<char>::empty());
            assert(esc(seq![c]) =~= esc_char(c));
        }
        if c == '"' {
            out.push('\\');
            out.push('"');
        } else if c == '\\' {
            out.push('\\');
            out.push('\\');
        } else if (c as u32) < 0x20 {
            let cu = c as u32;
            out.push('\\');
            out.push('u');
            out.push('0');
            out.push('0');
            out.push(hex_digit_exec((cu / 16) as u8));
            out.push(hex_digit_exec((cu % 16) as u8));
        } else {
            out.push(c);
        }
        proof {
            assert(out@ =~= old(out)@ + esc(s@.take(i + 1)));
        }
        i = i + 1;
    }
    proof {
        assert(s@.take(n as int) =~= s@);
    }
}

/// The lower-case hexadecimal digit character for a value below 16.
fn hex_digit_exec(d: u8) -> (r: char)
    requires
        d < 16,
    ensures
        r == hex_digit(d as int),
{
    if d == 0 { '0' }
    else if d == 1 { '1' }
    else if d == 2 { '2' }
    else if d == 3 { '3' }
    else if d == 4 { '4' }
    else if d == 5 { '5' }
    else if d == 6 { '6' }
    else if d == 7 { '7' }
    else if d == 8 { '8' }
    else if d == 9 { '9' }
    else if d == 10 { 'a' }
    else if d == 11 { 'b' }
    else if d == 12 { 'c' }
    else if d == 13 { 'd' }
    else if d == 14 { 'e' }
    else { 'f' }
}

/// Append the decimal representation of a number.
pub(crate) fn enc_u64_into(out: &mut String, n: u64)
    ensures
        final(out)@ == old(out)@ + dec_rep(n as int),
    decreases n,
{
    if n >= 10 {
        enc_u64_into(out, n / 10);
        out.push(dec_digit_exec(n % 10));
        proof {
            assert(old(out)@ + dec_rep((n / 10) as int).push(dec_digit((n % 10) as int)) =~= (old(
                out,
            )@ + dec_rep((n / 10) as int)).push(dec_digit((n % 10) as int)));
        }
    } else {
        out.push(dec_digit_exec(n));
        proof {
            assert(old(out)@ + dec_rep(n as int) =~= old(out)@.push(dec_digit(n as int)));
        }
    }
}

/// The decimal digit character for a value below 10.
fn dec_digit_exec(d: u64) -> (r: char)
    requires
        d < 10,
    ensures
        r == dec_digit(d as int),
{
    hex_digit_exec(d as u8)
}

/// Append a boolean literal.
fn enc_bool_into(out: &mut String, b: bool)
    ensures
        final(out)@ == old(out)@ + bool_rep(b),
{
    proof {
        reveal_strlit("true");
        reveal_strlit("false");
        assert("true"@ =~= seq!['t', 'r', 'u', 'e']);
        assert("false"@ =~= seq!['f', 'a', 'l', 's', 'e']);
    }
    if b {
        out.append("true");
    } else {
        out.append("false");
    }
}

/// A successful string-body parse consumes at least the closing quote.
proof fn lemma_str_body_consumes(s: Seq<char>)
    ensures
        sp_str_body(s) matches Some(p) ==> p.1.len() < s.len(),
    decreases s.len(),
{
    if s.len() == 0 {
    } else if s[0] == '"' {
    } else if s[0] == '\\' {
        if s.len() >= 6 {
            lemma_str_body_consumes(s.skip(6));
        }
        if s.len() >= 2 {
            lemma_str_body_consumes(s.skip(2));
        }
    } else {
        lemma_str_body_consumes(s.skip(1));
    }
}

/// Spec parser for the tail of a JSON array of strings, after the opening
/// bracket: a closing bracket, or quoted strings separated by commas.
pub open spec fn sp_str_list(s: Seq<char>) -> Option<(Seq<Seq<char>>, Seq<char>)>
    decreases s.len(),
    via sp_str_list_decreases
{
    if s.len() == 0 {
        None
    } else if s[0] == ']' {
        Some((Seq::empty(), s.skip(1)))
    } else if s[0] == '"' {
        match sp_str_body(s.skip(1)) {
            Some(p) => {
                let item = p.0;
                let r = p.1;
                if r.len() == 0 {
                    None
                } else if r[0] == ']' {
                    Some((seq![item], r.skip(1)))
                } else if r[0] == ',' {
                    match sp_str_list(r.skip(1)) {
                        Some(q) => Some((seq![item] + q.0, q.1)),
                        None => None,
                    }
                } else {
                    None
                }
            },
            None => None,
        }
    } else {
        None
    }
}

#[via_fn]
proof fn sp_str_list_decreases(s: Seq<char>) {
    lemma_str_body_consumes(s.skip(1));
}

/// The JSON form of a list of strings, items quoted and separated by
/// commas, without the surrounding brackets.
pub open spec fn enc_strs(l: Seq<Seq<char>>) -> Seq<char>
    decreases l.len(),
{
    if l.len() == 0 {
        Seq::empty()
    } else if l.len() == 1 {
        seq!['"'] + esc(l[0]) + seq!['"']
    } else {
        seq!['"'] + esc(l[0]) + seq!['"'] + seq![','] + enc_strs(l.skip(1))
    }
}

/// Round trip for string lists: parsing an emitted list body followed by
/// the closing bracket yields the original items.
proof fn lemma_str_list_roundtrip(l: Seq<Seq<char>>, rest: Seq<char>)
    ensures
        sp_str_list(enc_strs(l) + seq![']'] + rest) == Some((l, rest)),
    decreases l.len(),
{
    let s = enc_strs(l) + seq![']'] + rest;
    if l.len() == 0 {
        assert(s =~= seq![']'] + rest);
        assert(s[0] == ']');
        assert(s.skip(1) =~= rest);
        assert(sp_str_list(s) == Some((Seq::<Seq<char>>::empty(), rest)));
        assert(l =~= Seq::<Seq<char>>::empty());
    } else if l.len() == 1 {
        assert(s =~= seq!['"'] + (esc(l[0]) + seq!['"'] + (seq![']'] + rest)));
        assert(s[0] == '"');
        assert(s.skip(1) =~= esc(l[0]) + seq!['"'] + (seq![']'] + rest));
        lemma_str_body_roundtrip(l[0], seq![']'] + rest);
        let r = seq![']'] + rest;
        assert(r[0] == ']');
        assert(r.skip(1) =~= rest);
        assert(seq![l[0]] =~= l);
    } else {
        let tail = l.skip(1);
        lemma_str_list_roundtrip(tail, rest);
        assert(s =~= seq!['"'] + (esc(l[0]) + seq!['"'] + (seq![','] + (enc_strs(tail) + seq![']']
            + rest))));
        assert(s[0] == '"');
        assert(s.skip(1) =~= esc(l[0]) + seq!['"'] + (seq![','] + (enc_strs(tail) + seq![']']
            + rest)));
        lemma_str_body_roundtrip(l[0], seq![','] + (enc_strs(tail) + seq![']'] + rest));
        let r = seq![','] + (enc_strs(tail) + seq![']'] + rest);
        assert(r[0] == ',');
        assert(r.skip(1) =~= enc_strs(tail) + seq![']'] + rest);
        assert(tail.len() > 0);
        assert(seq![l[0]] + tail =~= l);
    }
}

/// The JSON form of a message with one `status` string field: the health
/// and shutdown responses.
pub open spec fn enc_status_msg(status: Seq<char>) -> Seq<char> {
    "{\"status\":\""@ + esc(status) + seq!['"'] + "}"@
}

/// Spec parser for a `status` message.
pub open spec fn sp_status_msg(s: Seq<char>) -> Option<Seq<char>> {
    match sp_lit(s, "{\"status\":\""@) {
        Some(r1) => match sp_str_body(r1) {
            Some(p) => match sp_lit(p.1, "}"@) {
                Some(r3) => if r3.len() == 0 {
                    Some(p.0)
                } else {
                    None
                },
                None => None,
            },
            None => None,
        },
        None => None,
    }
}

/// Round trip for `status` messages.
pub proof fn lemma_status_msg_roundtrip(status: Seq<char>)
    ensures
        sp_status_msg(enc_status_msg(status)) == Some(status),
{
    let s = enc_status_msg(status);
    assert(s =~= "{\"status\":\""@ + (esc(status) + seq!['"'] + "}"@));
    lemma_lit_roundtrip("{\"status\":\""@, esc(status) + seq!['"'] + "}"@);
    lemma_str_body_roundtrip(status, "}"@);
    assert("}"@ =~= "}"@ + Seq::<char>::empty());
    lemma_lit_roundtrip("}"@, Seq::empty());
}

/// The JSON form of a message with one `nonce` string field: the claim
/// and release requests.
pub open spec fn enc_nonce_msg(nonce: Seq<char>) -> Seq<char> {
    "{\"nonce\":\""@ + esc(nonce) + seq!['"'] + "}"@
}

/// Spec parser for a `nonce` message.
pub open spec fn sp_nonce_msg(s: Seq<char>) -> Option<Seq<char>> {
    match sp_lit(s, "{\"nonce\":\""@) {
        Some(r1) => match sp_str_body(r1) {
            Some(p) => match sp_lit(p.1, "}"@) {
                Some(r3) => if r3.len() == 0 {
                    Some(p.0)
                } else {
                    None
                },
                None => None,
            },
            None => None,
        },
        None => None,
    }
}

/// Round trip for `nonce` messages.
pub proof fn lemma_nonce_msg_roundtrip(nonce: Seq<char>)
    ensures
        sp_nonce_msg(enc_nonce_msg(nonce)) == Some(nonce),
{
    let s = enc_nonce_msg(nonce);
    assert(s =~= "{\"nonce\":\""@ + (esc(nonce) + seq!['"'] + "}"@));
    lemma_lit_roundtrip("{\"nonce\":\""@, esc(nonce) + seq!['"'] + "}"@);
    lemma_str_body_roundtrip(nonce, "}"@);
    assert("}"@ =~= "}"@ + Seq::<char>::empty());
    lemma_lit_roundtrip("}"@, Seq::empty());
}

/// The JSON form of a run request, with one `benchmark_id` string field.
pub open spec fn enc_run_req(benchmark_id: Seq<char>) -> Seq<char> {
    "{\"benchmark_id\":\""@ + esc(benchmark_id) + seq!['"'] + "}"@
}

/// Spec parser for a run request.
pub open spec fn sp_run_req(s: Seq<char>) -> Option<Seq<char>> {
    match sp_lit(s, "{\"benchmark_id\":\""@) {
        Some(r1) => match sp_str_body(r1) {
            Some(p) => match sp_lit(p.1, "}"@) {
                Some(r3) => if r3.len() == 0 {
                    Some(p.0)
                } else {
                    None
                },
                None => None,
            },
            None => None,
        },
        None => None,
    }
}

/// Round trip for run requests.
pub proof fn lemma_run_req_roundtrip(benchmark_id: Seq<char>)
    ensures
        sp_run_req(enc_run_req(benchmark_id)) == Some(benchmark_id),
{
    let s = enc_run_req(benchmark_id);
    assert(s =~= "{\"benchmark_id\":\""@ + (esc(benchmark_id) + seq!['"'] + "}"@));
    lemma_lit_roundtrip("{\"benchmark_id\":\""@, esc(benchmark_id) + seq!['"'] + "}"@);
    lemma_str_body_roundtrip(benchmark_id, "}"@);
    assert("}"@ =~= "}"@ + Seq::<char>::empty());
    lemma_lit_roundtrip("}"@, Seq::empty());
}

/// The JSON form of a benchmark-list response.
pub open spec fn enc_list_resp(benchmarks: Seq<Seq<char>>) -> Seq<char> {
    "{\"benchmarks\":["@ + enc_strs(benchmarks) + seq![']'] + "}"@
}

/// Spec parser for a benchmark-list response.
pub open spec fn sp_list_resp(s: Seq<char>) -> Option<Seq<Seq<char>>> {
    match sp_lit(s, "{\"benchmarks\":["@) {
        Some(r1) => match sp_str_list(r1) {
            Some(p) => match sp_lit(p.1, "}"@) {
                Some(r3) => if r3.len() == 0 {
                    Some(p.0)
                } else {
                    None
                },
                None => None,
            },
            None => None,
        },
        None => None,
    }
}

/// Round trip for benchmark-list responses.
pub proof fn lemma_list_resp_roundtrip(benchmarks: Seq<Seq<char>>)
    ensures
        sp_list_resp(enc_list_resp(benchmarks)) == Some(benchmarks),
{
    let s = enc_list_resp(benchmarks);
    assert(s =~= "{\"benchmarks\":["@ + (enc_strs(benchmarks) + seq![']'] + "}"@));
    lemma_lit_roundtrip("{\"benchmarks\":["@, enc_strs(benchmarks) + seq![']'] + "}"@);
    lemma_str_list_roundtrip(benchmarks, "}"@);
    assert("}"@ =~= "}"@ + Seq::<char>::empty());
    lemma_lit_roundtrip("}"@, Seq::empty());
}

/// The JSON form of a run response.  The `error` field is written exactly
/// when an error message is present.
pub open spec fn enc_run_resp(duration_ns: u64, success: bool, error: Option<Seq<char>>) -> Seq<
    char,
> {
    "{\"duration_ns\":"@ + dec_rep(duration_ns as int) + ",\"success\":"@ + bool_rep(success) + (
    match error {
        None => "}"@,
        Some(e) => ",\"error\":\""@ + esc(e) + seq!['"'] + "}"@,
    })
}

/// Spec parser for a run response.
pub open spec fn sp_run_resp(s: Seq<char>) -> Option<(u64, bool, Option<Seq<char>>)> {
    match sp_lit(s, "{\"duration_ns\":"@) {
        Some(r1) => match sp_u64(r1) {
            Some(pd) => match sp_lit(pd.1, ",\"success\":"@) {
                Some(r3) => match sp_bool(r3) {
                    Some(pb) => match sp_lit(pb.1, "}"@) {
                        Some(r5) => if r5.len() == 0 {
                            Some((pd.0, pb.0, None))
                        } else {
                            None
                        },
                        None => match sp_lit(pb.1, ",\"error\":\""@) {
                            Some(r5) => match sp_str_body(r5) {
                                Some(pe) => match sp_lit(pe.1, "}"@) {
                                    Some(r7) => if r7.len() == 0 {
                                        Some((pd.0, pb.0, Some(pe.0)))
                                    } else {
                                        None
                                    },
                                    None => None,
                                },
                                None => None,
                            },
                            None => None,
                        },
                    },
                    None => None,
                },
                None => None,
            },
            None => None,
        },
        None => None,
    }
}

/// Round trip for run responses.
pub proof fn lemma_run_resp_roundtrip(duration_ns: u64, success: bool, error: Option<Seq<char>>)
    ensures
        sp_run_resp(enc_run_resp(duration_ns, success, error)) == Some(
            (duration_ns, success, error),
        ),
{
    reveal_strlit(",\"success\":");
    reveal_strlit(",\"error\":\"");
    reveal_strlit("}");
    let tail = match error {
        None => "}"@,
        Some(e) => ",\"error\":\""@ + esc(e) + seq!['"'] + "}"@,
    };
    let s = enc_run_resp(duration_ns, success, error);
    assert(s =~= "{\"duration_ns\":"@ + (dec_rep(duration_ns as int) + (",\"success\":"@ + (
    bool_rep(success) + tail))));
    lemma_lit_roundtrip(
        "{\"duration_ns\":"@,
        dec_rep(duration_ns as int) + (",\"success\":"@ + (bool_rep(success) + tail)),
    );
    assert((",\"success\":"@ + (bool_rep(success) + tail))[0] == ',');
    assert(dv(',') < 0);
    lemma_u64_roundtrip(duration_ns, ",\"success\":"@ + (bool_rep(success) + tail));
    lemma_lit_roundtrip(",\"success\":"@, bool_rep(success) + tail);
    lemma_bool_roundtrip(success, tail);
    match error {
        None => {
            assert(tail =~= "}"@ + Seq::<char>::empty());
            lemma_lit_roundtrip("}"@, Seq::empty());
        },
        Some(e) => {
            assert(tail[0] == ',');
            assert("}"@.len() == 1 && "}"@[0] == '}');
            assert(tail.take(1)[0] == ',');
            assert(sp_lit(tail, "}"@) is None);
            assert(tail =~= ",\"error\":\""@ + (esc(e) + seq!['"'] + "}"@));
            lemma_lit_roundtrip(",\"error\":\""@, esc(e) + seq!['"'] + "}"@);
            lemma_str_body_roundtrip(e, "}"@);
            assert("}"@ =~= "}"@ + Seq::<char>::empty());
            lemma_lit_roundtrip("}"@, Seq::empty());
        },
    }
}

/// The JSON form of a claim response.  The `error` field is written
/// exactly when an error message is present.
pub open spec fn enc_claim_resp(success: bool, error: Option<Seq<char>>) -> Seq<char> {
    "{\"success\":"@ + bool_rep(success) + (match error {
        None => "}"@,
        Some(e) => ",\"error\":\""@ + esc(e) + seq!['"'] + "}"@,
    })
}

/// Spec parser for a claim response.
pub open spec fn sp_claim_resp(s: Seq<char>) -> Option<(bool, Option<Seq<char>>)> {
    match sp_lit(s, "{\"success\":"@) {
        Some(r1) => match sp_bool(r1) {
            Some(pb) => match sp_lit(pb.1, "}"@) {
                Some(r3) => if r3.len() == 0 {
                    Some((pb.0, None))
                } else {
                    None
                },
                None => match sp_lit(pb.1, ",\"error\":\""@) {
                    Some(r3) => match sp_str_body(r3) {
                        Some(pe) => match sp_lit(pe.1, "}"@) {
                            Some(r5) => if r5.len() == 0 {
                                Some((pb.0, Some(pe.0)))
                            } else {
                                None
                            },
                            None => None,
                        },
                        None => None,
                    },
                    None => None,
                },
            },
            None => None,
        },
        None => None,
    }
}

/// Round trip for claim responses.
pub proof fn lemma_claim_resp_roundtrip(success: bool, error: Option<Seq<char>>)
    ensures
        sp_claim_resp(enc_claim_resp(success, error)) == Some((success, error)),
{
    reveal_strlit(",\"error\":\"");
    reveal_strlit("}");
    let tail = match error {
        None => "}"@,
        Some(e) => ",\"error\":\""@ + esc(e) + seq!['"'] + "}"@,
    };
    let s = enc_claim_resp(success, error);
    assert(s =~= "{\"success\":"@ + (bool_rep(success) + tail));
    lemma_lit_roundtrip("{\"success\":"@, bool_rep(success) + tail);
    lemma_bool_roundtrip(success, tail);
    match error {
        None => {
            assert(tail =~= "}"@ + Seq::<char>::empty());
            lemma_lit_roundtrip("}"@, Seq::empty());
        },
        Some(e) => {
            assert(tail[0] == ',');
            assert("}"@.len() == 1 && "}"@[0] == '}');
            assert(tail.take(1)[0] == ',');
            assert(sp_lit(tail, "}"@) is None);
            assert(tail =~= ",\"error\":\""@ + (esc(e) + seq!['"'] + "}"@));
            lemma_lit_roundtrip(",\"error\":\""@, esc(e) + seq!['"'] + "}"@);
            lemma_str_body_roundtrip(e, "}"@);
            assert("}"@ =~= "}"@ + Seq::<char>::empty());
            lemma_lit_roundtrip("}"@, Seq::empty());
        },
    }
}

/// The JSON form of a release response.
pub open spec fn enc_release_resp(success: bool) -> Seq<char> {
    "{\"success\":"@ + bool_rep(success) + "}"@
}

/// Spec parser for a release response.
pub open spec fn sp_release_resp(s: Seq<char>) -> Option<bool> {
    match sp_lit(s, "{\"success\":"@) {
        Some(r1) => match sp_bool(r1) {
            Some(pb) => match sp_lit(pb.1, "}"@) {
                Some(r3) => if r3.len() == 0 {
                    Some(pb.0)
                } else {
                    None
                },
                None => None,
            },
            None => None,
        },
        None => None,
    }
}

/// Round trip for release responses.
pub proof fn lemma_release_resp_roundtrip(success: bool)
    ensures
        sp_release_resp(enc_release_resp(success)) == Some(success),
{
    let s = enc_release_resp(success);
    assert(s =~= "{\"success\":"@ + (bool_rep(success) + "}"@));
    lemma_lit_roundtrip("{\"success\":"@, bool_rep(success) + "}"@);
    lemma_bool_roundtrip(success, "}"@);
    assert("}"@ =~= "}"@ + Seq::<char>::empty());
    lemma_lit_roundtrip("}"@, Seq::empty());
}

/// Parse the tail of a JSON array of strings, after the opening bracket.
fn p_str_list(v: &Vec<char>, i: usize) -> (r: Option<(Vec<String>, usize)>)
    requires
        i <= v@.len(),
    ensures
        match r {
            Some(p) => i <= p.1 <= v@.len() && sp_str_list(v@.skip(i as int)) == Some(
                (p.0@.map_values(|x: String| x@), v@.skip(p.1 as int)),
            ),
            None => sp_str_list(v@.skip(i as int)) is None,
        },
{
    let mut items: Vec<String> = Vec::new();
    let mut cur = i;
    loop
        invariant
            i <= cur <= v@.len(),
            match sp_str_list(v@.skip(cur as int)) {
                Some(p) => sp_str_list(v@.skip(i as int)) == Some(
                    (items@.map_values(|x: String| x@) + p.0, p.1),
                ),
                None => sp_str_list(v@.skip(i as int)) is None,
            },
        decreases v@.len() - cur,
    {
        if cur >= v.len() {
            return None;
        }
        let ghost s = v@.skip(cur as int);
        proof {
            assert(s[0] == v@[cur as int]);
        }
        let c = v[cur];
        if c == ']' {
            proof {
                assert(s.skip(1) =~= v@.skip(cur + 1));
                assert(items@.map_values(|x: String| x@) + Seq::<Seq<char>>::empty()
                    =~= items@.map_values(|x: String| x@));
            }
            return Some((items, cur + 1));
        }
        if c != '"' {
            return None;
        }
        proof {
            assert(s.skip(1) =~= v@.skip(cur + 1));
        }
        let item = match p_string(v, cur + 1) {
            Some(p) => p,
            None => {
                return None;
            },
        };
        let j = item.1;
        proof {
            assert(sp_str_body(s.skip(1)) == Some((item.0@, v@.skip(j as int))));
        }
        if j >= v.len() {
            return None;
        }
        proof {
            assert(v@.skip(j as int)[0] == v@[j as int]);
        }
        let d = v[j];
        if d == ']' {
            proof {
                let ghost old_items = items@.map_values(|x: String| x@);
                assert(v@.skip(j as int).skip(1) =~= v@.skip(j + 1));
                assert(sp_str_list(s) == Some((seq![item.0@], v@.skip(j + 1))));
                assert(items@.push(item.0).map_values(|x: String| x@) =~= old_items + seq![
                    item.0@,
                ]);
                assert(old_items + seq![item.0@] + Seq::<Seq<char>>::empty() =~= old_items + seq![
                    item.0@,
                ]);
            }
            let mut items = items;
            items.push(item.0);
            return Some((items, j + 1));
        }
        if d != ',' {
            return None;
        }
        proof {
            let ghost old_items = items@.map_values(|x: String| x@);
            assert(v@.skip(j as int).skip(1) =~= v@.skip(j + 1));
            match sp_str_list(v@.skip(j + 1)) {
                Some(q) => {
                    assert(sp_str_list(s) == Some((seq![item.0@] + q.0, q.1)));
                    assert(items@.push(item.0).map_values(|x: String| x@) =~= old_items + seq![
                        item.0@,
                    ]);
                    assert(old_items + (seq![item.0@] + q.0) =~= (old_items + seq![item.0@])
                        + q.0);
                },
                None => {},
            }
        }
        items.push(item.0);
        cur = j + 1;
    }
}

/// Encode a health response.
pub fn encode_health_response(m: &HealthResponse) -> (r: String)
    ensures
        r@ == enc_status_msg(m.status@),
{
    let mut out = String::new();
    out.append("{\"status\":\"");
    esc_into(&mut out, m.status.as_str());
    out.push('"');
    out.append("}");
    proof {
        assert(out@ =~= enc_status_msg(m.status@));
    }
    out
}

/// Decode a health response.
pub fn decode_health_response(s: &str) -> (r: Option<HealthResponse>)
    ensures
        match r {
            Some(m) => sp_status_msg(s@) == Some(m.status@),
            None => sp_status_msg(s@) is None,
        },
{
    let v = str_to_chars(s);
    proof {
        assert(v@.skip(0) =~= s@);
    }
    match match_lit(&v, 0, "{\"status\":\"") {
        Some(i) => match p_string(&v, i) {
            Some(p) => match match_lit(&v, p.1, "}") {
                Some(k) => if k == v.len() {
                    Some(HealthResponse { status: p.0 })
                } else {
                    None
                },
                None => None,
            },
            None => None,
        },
        None => None,
    }
}

/// Encode a shutdown response.
pub fn encode_shutdown_response(m: &ShutdownResponse) -> (r: String)
    ensures
        r@ == enc_status_msg(m.status@),
{
    let mut out = String::new();
    out.append("{\"status\":\"");
    esc_into(&mut out, m.status.as_str());
    out.push('"');
    out.append("}");
    proof {
        assert(out@ =~= enc_status_msg(m.status@));
    }
    out
}

/// Decode a shutdown response.
pub fn decode_shutdown_response(s: &str) -> (r: Option<ShutdownResponse>)
    ensures
        match r {
            Some(m) => sp_status_msg(s@) == Some(m.status@),
            None => sp_status_msg(s@) is None,
        },
{
    let v = str_to_chars(s);
    proof {
        assert(v@.skip(0) =~= s@);
    }
    match match_lit(&v, 0, "{\"status\":\"") {
        Some(i) => match p_string(&v, i) {
            Some(p) => match match_lit(&v, p.1, "}") {
                Some(k) => if k == v.len() {
                    Some(ShutdownResponse { status: p.0 })
                } else {
                    None
                },
                None => None,
            },
            None => None,
        },
        None => None,
    }
}

/// Encode a claim request.
pub fn encode_claim_request(m: &ClaimRequest) -> (r: String)
    ensures
        r@ == enc_nonce_msg(m.nonce@),
{
    let mut out = String::new();
    out.append("{\"nonce\":\"");
    esc_into(&mut out, m.nonce.as_str());
    out.push('"');
    out.append("}");
    proof {
        assert(out@ =~= enc_nonce_msg(m.nonce@));
    }
    out
}

/// Decode a claim request.
pub fn decode_claim_request(s: &str) -> (r: Option<ClaimRequest>)
    ensures
        match r {
            Some(m) => sp_nonce_msg(s@) == Some(m.nonce@),
            None => sp_nonce_msg(s@) is None,
        },
{
    let v = str_to_chars(s);
    proof {
        assert(v@.skip(0) =~= s@);
    }
    match match_lit(&v, 0, "{\"nonce\":\"") {
        Some(i) => match p_string(&v, i) {
            Some(p) => match match_lit(&v, p.1, "}") {
                Some(k) => if k == v.len() {
                    Some(ClaimRequest { nonce: p.0 })
                } else {
                    None
                },
                None => None,
            },
            None => None,
        },
        None => None,
    }
}

/// Encode a release request.
pub fn encode_release_request(m: &ReleaseRequest) -> (r: String)
    ensures
        r@ == enc_nonce_msg(m.nonce@),
{
    let mut out = String::new();
    out.append("{\"nonce\":\"");
    esc_into(&mut out, m.nonce.as_str());
    out.push('"');
    out.append("}");
    proof {
        assert(out@ =~= enc_nonce_msg(m.nonce@));
    }
    out
}

/// Decode a release request.
pub fn decode_release_request(s: &str) -> (r: Option<ReleaseRequest>)
    ensures
        match r {
            Some(m) => sp_nonce_msg(s@) == Some(m.nonce@),
            None => sp_nonce_msg(s@) is None,
        },
{
    let v = str_to_chars(s);
    proof {
        assert(v@.skip(0) =~= s@);
    }
    match match_lit(&v, 0, "{\"nonce\":\"") {
        Some(i) => match p_string(&v, i) {
            Some(p) => match match_lit(&v, p.1, "}") {
                Some(k) => if k == v.len() {
                    Some(ReleaseRequest { nonce: p.0 })
                } else {
                    None
                },
                None => None,
            },
            None => None,
        },
        None => None,
    }
}

/// Encode a run request.
pub fn encode_run_iteration_request(m: &RunIterationRequest) -> (r: String)
    ensures
        r@ == enc_run_req(m.benchmark_id@),
{
    let mut out = String::new();
    out.append("{\"benchmark_id\":\"");
    esc_into(&mut out, m.benchmark_id.as_str());
    out.push('"');
    out.append("}");
    proof {
        assert(out@ =~= enc_run_req(m.benchmark_id@));
    }
    out
}

/// Decode a run request.
pub fn decode_run_iteration_request(s: &str) -> (r: Option<RunIterationRequest>)
    ensures
        match r {
            Some(m) => sp_run_req(s@) == Some(m.benchmark_id@),
            None => sp_run_req(s@) is None,
        },
{
    let v = str_to_chars(s);
    proof {
        assert(v@.skip(0) =~= s@);
    }
    match match_lit(&v, 0, "{\"benchmark_id\":\"") {
        Some(i) => match p_string(&v, i) {
            Some(p) => match match_lit(&v, p.1, "}") {
                Some(k) => if k == v.len() {
                    Some(RunIterationRequest { benchmark_id: p.0 })
                } else {
                    None
                },
                None => None,
            },
            None => None,
        },
        None => None,
    }
}

/// Append the comma-separated quoted items of a string list, starting at
/// the given position.
fn enc_strs_from(out: &mut String, items: &Vec<String>, i: usize)
    requires
        i <= items@.len(),
    ensures
        final(out)@ == old(out)@ + enc_strs(items@.map_values(|x: String| x@).skip(i as int)),
    decreases items@.len() - i,
{
    let ghost l = items@.map_values(|x: String| x@).skip(i as int);
    if i >= items.len() {
        proof {
            assert(l.len() == 0);
            assert(old(out)@ + enc_strs(l) =~= old(out)@);
        }
        return;
    }
    out.push('"');
    esc_into(out, items[i].as_str());
    out.push('"');
    if i + 1 < items.len() {
        out.push(',');
        enc_strs_from(out, items, i + 1);
        proof {
            let tail = items@.map_values(|x: String| x@).skip(i + 1);
            assert(l[0] == items@[i as int]@);
            assert(l.skip(1) =~= tail);
            assert(l.len() > 1);
            assert(enc_strs(l) =~= seq!['"'] + esc(l[0]) + seq!['"'] + seq![','] + enc_strs(tail));
            assert(old(out)@ + enc_strs(l) =~= ((((old(out)@.push('"')) + esc(items@[i as int]@)
                ).push('"')).push(',')) + enc_strs(tail));
        }
    } else {
        proof {
            assert(l[0] == items@[i as int]@);
            assert(l.len() == 1);
            assert(enc_strs(l) =~= seq!['"'] + esc(l[0]) + seq!['"']);
            assert(old(out)@ + enc_strs(l) =~= (((old(out)@.push('"')) + esc(items@[i as int]@)
                ).push('"')));
        }
    }
}

/// Encode a benchmark-list response.
pub fn encode_benchmark_list_response(m: &BenchmarkListResponse) -> (r: String)
    ensures
        r@ == enc_list_resp(m.benchmarks@.map_values(|x: String| x@)),
{
    let mut out = String::new();
    out.append("{\"benchmarks\":[");
    proof {
        assert(m.benchmarks@.map_values(|x: String| x@).skip(0) =~= m.benchmarks@.map_values(
            |x: String| x@,
        ));
    }
    enc_strs_from(&mut out, &m.benchmarks, 0);
    out.push(']');
    out.append("}");
    proof {
        assert(out@ =~= enc_list_resp(m.benchmarks@.map_values(|x: String| x@)));
    }
    out
}

/// Decode a benchmark-list response.
pub fn decode_benchmark_list_response(s: &str) -> (r: Option<BenchmarkListResponse>)
    ensures
        match r {
            Some(m) => sp_list_resp(s@) == Some(m.benchmarks@.map_values(|x: String| x@)),
            None => sp_list_resp(s@) is None,
        },
{
    let v = str_to_chars(s);
    proof {
        assert(v@.skip(0) =~= s@);
    }
    match match_lit(&v, 0, "{\"benchmarks\":[") {
        Some(i) => match p_str_list(&v, i) {
            Some(p) => match match_lit(&v, p.1, "}") {
                Some(k) => if k == v.len() {
                    Some(BenchmarkListResponse { benchmarks: p.0 })
                } else {
                    None
                },
                None => None,
            },
            None => None,
        },
        None => None,
    }
}

/// The view of an optional string.
pub open spec fn opt_str_view(o: Option<String>) -> Option<Seq<char>> {
    match o {
        Some(e) => Some(e@),
        None => None,
    }
}

/// Encode a run response.  The `error` field is written exactly when an
/// error message is present.
pub fn encode_run_iteration_response(m: &RunIterationResponse) -> (r: String)
    ensures
        r@ == enc_run_resp(m.duration_ns, m.success, opt_str_view(m.error)),
{
    let mut out = String::new();
    out.append("{\"duration_ns\":");
    enc_u64_into(&mut out, m.duration_ns);
    out.append(",\"success\":");
    enc_bool_into(&mut out, m.success);
    match &m.error {
        None => {
            out.append("}");
        },
        Some(e) => {
            out.append(",\"error\":\"");
            esc_into(&mut out, e.as_str());
            out.push('"');
            out.append("}");
        },
    }
    proof {
        assert(out@ =~= enc_run_resp(m.duration_ns, m.success, opt_str_view(m.error)));
    }
    out
}

/// Decode a run response.
pub fn decode_run_iteration_response(s: &str) -> (r: Option<RunIterationResponse>)
    ensures
        match r {
            Some(m) => sp_run_resp(s@) == Some(
                (m.duration_ns, m.success, opt_str_view(m.error)),
            ),
            None => sp_run_resp(s@) is None,
        },
{
    let v = str_to_chars(s);
    proof {
        assert(v@.skip(0) =~= s@);
    }
    let i1 = match match_lit(&v, 0, "{\"duration_ns\":") {
        Some(i) => i,
        None => {
            return None;
        },
    };
    let (duration_ns, i2) = match p_u64(&v, i1) {
        Some(p) => p,
        None => {
            return None;
        },
    };
    let i3 = match match_lit(&v, i2, ",\"success\":") {
        Some(i) => i,
        None => {
            return None;
        },
    };
    let (success, i4) = match p_bool(&v, i3) {
        Some(p) => p,
        None => {
            return None;
        },
    };
    match match_lit(&v, i4, "}") {
        Some(k) => {
            if k == v.len() {
                return Some(RunIterationResponse { duration_ns, success, error: None });
            } else {
                return None;
            }
        },
        None => {},
    }
    let i5 = match match_lit(&v, i4, ",\"error\":\"") {
        Some(i) => i,
        None => {
            return None;
        },
    };
    let (error, i6) = match p_string(&v, i5) {
        Some(p) => p,
        None => {
            return None;
        },
    };
    match match_lit(&v, i6, "}") {
        Some(k) => if k == v.len() {
            Some(RunIterationResponse { duration_ns, success, error: Some(error) })
        } else {
            None
        },
        None => None,
    }
}

/// Encode a claim response.  The `error` field is written exactly when an
/// error message is present.
pub fn encode_claim_response(m: &ClaimResponse) -> (r: String)
    ensures
        r@ == enc_claim_resp(m.success, opt_str_view(m.error)),
{
    let mut out = String::new();
    out.append("{\"success\":");
    enc_bool_into(&mut out, m.success);
    match &m.error {
        None => {
            out.append("}");
        },
        Some(e) => {
            out.append(",\"error\":\"");
            esc_into(&mut out, e.as_str());
            out.push('"');
            out.append("}");
        },
    }
    proof {
        assert(out@ =~= enc_claim_resp(m.success, opt_str_view(m.error)));
    }
    out
}

/// Decode a claim response.
pub fn decode_claim_response(s: &str) -> (r: Option<ClaimResponse>)
    ensures
        match r {
            Some(m) => sp_claim_resp(s@) == Some((m.success, opt_str_view(m.error))),
            None => sp_claim_resp(s@) is None,
        },
{
    let v = str_to_chars(s);
    proof {
        assert(v@.skip(0) =~= s@);
    }
    let i1 = match match_lit(&v, 0, "{\"success\":") {
        Some(i) => i,
        None => {
            return None;
        },
    };
    let (success, i2) = match p_bool(&v, i1) {
        Some(p) => p,
        None => {
            return None;
        },
    };
    match match_lit(&v, i2, "}") {
        Some(k) => {
            if k == v.len() {
                return Some(ClaimResponse { success, error: None });
            } else {
                return None;
            }
        },
        None => {},
    }
    let i3 = match match_lit(&v, i2, ",\"error\":\"") {
        Some(i) => i,
        None => {
            return None;
        },
    };
    let (error, i4) = match p_string(&v, i3) {
        Some(p) => p,
        None => {
            return None;
        },
    };
    match match_lit(&v, i4, "}") {
        Some(k) => if k == v.len() {
            Some(ClaimResponse { success, error: Some(error) })
        } else {
            None
        },
        None => None,
    }
}

/// Encode a release response.
pub fn encode_release_response(m: &ReleaseResponse) -> (r: String)
    ensures
        r@ == enc_release_resp(m.success),
{
    let mut out = String::new();
    out.append("{\"success\":");
    enc_bool_into(&mut out, m.success);
    out.append("}");
    proof {
        assert(out@ =~= enc_release_resp(m.success));
    }
    out
}

/// Decode a release response.
pub fn decode_release_response(s: &str) -> (r: Option<ReleaseResponse>)
    ensures
        match r {
            Some(m) => sp_release_resp(s@) == Some(m.success),
            None => sp_release_resp(s@) is None,
        },
{
    let v = str_to_chars(s);
    proof {
        assert(v@.skip(0) =~= s@);
    }
    let i1 = match match_lit(&v, 0, "{\"success\":") {
        Some(i) => i,
        None => {
            return None;
        },
    };
    let (success, i2) = match p_bool(&v, i1) {
        Some(p) => p,
        None => {
            return None;
        },
    };
    match match_lit(&v, i2, "}") {
        Some(k) => if k == v.len() {
            Some(ReleaseResponse { success })
        } else {
            None
        },
        None => None,
    }
}

} // verus!
