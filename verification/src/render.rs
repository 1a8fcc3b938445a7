//! Decimal rendering of encoded 64-bit IEEE-754 values.
//!
//! The trusted part is a single canonical rendering: `rustc_apfloat`'s
//! scientific notation with enough digits to identify the value uniquely.
//! Everything that follows is verified text rewriting: the canonical form is
//! turned either into the usual scientific shape (`7.65e5`, `5e2`, `5e-3`)
//! or into plain positional decimal (`765000`, `500`, `0.005`).
use vstd::prelude::*;

use rustc_apfloat::Float;
use rustc_apfloat::ieee::Double;



verus! {

pub assume_specification[ String::push ](s: &mut String, ch: char)
    ensures
        final(s)@ == old(s)@.push(ch),
;

/// A decimal digit character.
pub open spec fn is_dec_digit(c: char) -> bool {
    '0' <= c && c <= '9'
}

/// Every character of `s` is a decimal digit.
pub open spec fn all_digits(s: Seq<char>) -> bool {
    forall|i: int| 0 <= i < s.len() ==> is_dec_digit(#[trigger] s[i])
}

/// The value of a decimal digit character.
pub open spec fn digit_val(c: char) -> nat {
    if c == '0' {
        0
    } else if c == '1' {
        1
    } else if c == '2' {
        2
    } else if c == '3' {
        3
    } else if c == '4' {
        4
    } else if c == '5' {
        5
    } else if c == '6' {
        6
    } else if c == '7' {
        7
    } else if c == '8' {
        8
    } else {
        9
    }
}

/// The value of a run of decimal digit characters.
pub open spec fn dec_val(s: Seq<char>) -> nat
    decreases s.len(),
{
    if s.len() == 0 {
        0
    } else {
        dec_val(s.drop_last()) * 10 + digit_val(s.last())
    }
}

/// `n` zero characters.
pub open spec fn zeros(n: nat) -> Seq<char>
    decreases n,
{
    if n == 0 {
        Seq::empty()
    } else {
        zeros((n - 1) as nat).push('0')
    }
}

/// The first position at or after `i` where `c` occurs in `s`, or `s.len()`.
pub open spec fn find_from(s: Seq<char>, c: char, i: int) -> int
    decreases s.len() - i,
{
    if i < 0 || i >= s.len() {
        s.len() as int
    } else if s[i] == c {
        i
    } else {
        find_from(s, c, i + 1)
    }
}

proof fn lemma_find_from(s: Seq<char>, c: char, i: int, j: int)
    requires
        0 <= i <= j <= s.len(),
        forall|k: int| i <= k < j ==> s[k] != c,
        j == s.len() || s[j] == c,
    ensures
        find_from(s, c, i) == j,
    decreases j - i,
{
    if i < j {
        lemma_find_from(s, c, i + 1, j);
    }
}

/// Whether the canonical text starts with a minus sign.
pub open spec fn canon_neg(s: Seq<char>) -> bool {
    s.len() > 0 && s[0] == '-'
}

/// The canonical text with its minus sign, if any, removed.
pub open spec fn canon_body(s: Seq<char>) -> Seq<char> {
    if canon_neg(s) {
        s.subrange(1, s.len() as int)
    } else {
        s
    }
}

/// The shape of the canonical rendering of a finite nonzero value: an
/// optional minus sign, one nonzero digit, a dot, at least one fraction
/// digit, `E`, an explicit exponent sign, and one to three exponent digits.
pub open spec fn canon_wf(s: Seq<char>) -> bool {
    let t = canon_body(s);
    let e = find_from(t, 'E', 0);
    &&& 3 <= e
    &&& e + 3 <= t.len()
    &&& t.len() <= e + 5
    &&& is_dec_digit(t[0])
    &&& t[0] != '0'
    &&& t[1] == '.'
    &&& all_digits(t.subrange(2, e))
    &&& t[e] == 'E'
    &&& (t[e + 1] == '+' || t[e + 1] == '-')
    &&& all_digits(t.subrange(e + 2, t.len() as int))
}

/// The canonical text is one of the special forms or a well-shaped
/// scientific rendering.
pub open spec fn canon_text(s: Seq<char>) -> bool {
    ||| s == "NaN"@
    ||| s == "+Inf"@
    ||| s == "-Inf"@
    ||| s == "0.0E+0"@
    ||| s == "-0.0E+0"@
    ||| canon_wf(s)
}

/// The canonical text rewritten into the usual scientific shape: no sign on
/// the exponent unless negative, no lone zero fraction, lowercase marker.
pub open spec fn sci_style(s: Seq<char>) -> Seq<char> {
    if s == "NaN"@ {
        "NaN"@
    } else if s == "+Inf"@ {
        "inf"@
    } else if s == "-Inf"@ {
        "-inf"@
    } else if s == "0.0E+0"@ {
        "0e0"@
    } else if s == "-0.0E+0"@ {
        "-0e0"@
    } else {
        let t = canon_body(s);
        let e = find_from(t, 'E', 0);
        let frac = t.subrange(2, e);
        let mant = if frac == seq!['0'] {
            t.subrange(0, 1)
        } else {
            t.subrange(0, e)
        };
        let esign: Seq<char> = if t[e + 1] == '-' {
            seq!['-']
        } else {
            Seq::empty()
        };
        let sgn: Seq<char> = if canon_neg(s) {
            seq!['-']
        } else {
            Seq::empty()
        };
        sgn + mant + seq!['e'] + esign + t.subrange(e + 2, t.len() as int)
    }
}

/// Positional placement of the significant digits of `d.f x 10^(+-ev)`.
pub open spec fn place_point(digits: Seq<char>, eneg: bool, ev: nat) -> Seq<char> {
    if !eneg || ev == 0 {
        if ev + 1 >= digits.len() {
            digits + zeros((ev + 1 - digits.len()) as nat)
        } else {
            digits.subrange(0, (ev + 1) as int) + seq!['.'] + digits.subrange((ev + 1) as int, digits.len() as int)
        }
    } else {
        seq!['0', '.'] + zeros((ev - 1) as nat) + digits
    }
}

/// The canonical text rewritten into plain positional decimal.
pub open spec fn plain_style(s: Seq<char>) -> Seq<char> {
    if s == "NaN"@ {
        "NaN"@
    } else if s == "+Inf"@ {
        "inf"@
    } else if s == "-Inf"@ {
        "-inf"@
    } else if s == "0.0E+0"@ {
        seq!['0']
    } else if s == "-0.0E+0"@ {
        seq!['-', '0']
    } else {
        let t = canon_body(s);
        let e = find_from(t, 'E', 0);
        let frac = t.subrange(2, e);
        let digits = if frac == seq!['0'] {
            t.subrange(0, 1)
        } else {
            t.subrange(0, 1) + frac
        };
        let eneg = t[e + 1] == '-';
        let ev = dec_val(t.subrange(e + 2, t.len() as int));
        let sgn: Seq<char> = if canon_neg(s) {
            seq!['-']
        } else {
            Seq::empty()
        };
        sgn + place_point(digits, eneg, ev)
    }
}

/// The canonical rendering of the encoded value `b`: a scientific decimal
/// text that depends on the bits alone.
pub uninterp spec fn canon_of(b: u64) -> Seq<char>;

/// Relies on `rustc_apfloat`'s `Display` with width zero: it prints `NaN`,
/// `+Inf`/`-Inf`, a signed `0.0E+0` for the zeros, and every finite nonzero
/// value in scientific notation (one leading nonzero digit, a nonempty
/// fraction, `E`, a signed exponent of at most three digits) with enough
/// digits to identify the value uniquely.
#[verifier::external_body]
pub(crate) fn canon_double(b: u64) -> (r: String)
    ensures
        r@ == canon_of(b),
        canon_text(r@),
{
    format!("{:1$}", Double::from_bits(b as u128), 0usize)
}

/// The characters of `s`, as a vector.
pub(crate) fn str_chars(s: &str) -> (v: Vec<char>)
    ensures
        v@ == s@,
{
    let n = s.unicode_len();
    let mut v: Vec<char> = Vec::new();
    let mut i: usize = 0;
    while i < n
        invariant
            n == s@.len(),
            i <= n,
            v@ == s@.subrange(0, i as int),
        decreases n - i,
    {
        v.push(s.get_char(i));
        proof {
            assert(v@ =~= s@.subrange(0, (i + 1) as int));
        }
        i = i + 1;
    }
    proof {
        assert(v@ =~= s@);
    }
    v
}

/// The characters of `v`, as a string.
pub(crate) fn chars_to_string(v: &Vec<char>) -> (r: String)
    ensures
        r@ == v@,
{
    let mut r = String::new();
    let mut i: usize = 0;
    while i < v.len()
        invariant
            i <= v@.len(),
            r@ == v@.subrange(0, i as int),
        decreases v@.len() - i,
    {
        r.push(v[i]);
        proof {
            assert(r@ =~= v@.subrange(0, (i + 1) as int));
        }
        i = i + 1;
    }
    proof {
        assert(r@ =~= v@);
    }
    r
}

/// Compares the characters of `v` with a string.
pub(crate) fn chars_eq_str(v: &Vec<char>, s: &str) -> (r: bool)
    ensures
        r == (v@ == s@),
{
    let n = s.unicode_len();
    if v.len() != n {
        proof {
            assert(v@ != s@);
        }
        return false;
    }
    let mut i: usize = 0;
    while i < n
        invariant
            n == s@.len(),
            v@.len() == n,
            i <= n,
            forall|k: int| 0 <= k < i ==> v@[k] == s@[k],
        decreases n - i,
    {
        if v[i] != s.get_char(i) {
            proof {
                assert(v@ != s@);
            }
            return false;
        }
        i = i + 1;
    }
    proof {
        assert(v@ =~= s@);
    }
    true
}

/// The position of the first `'E'` in `v` at or after `start`.
fn find_e(v: &Vec<char>, start: usize) -> (r: usize)
    requires
        start <= v@.len(),
    ensures
        r == find_from(v@, 'E', start as int),
        start <= r <= v@.len(),
{
    let mut j: usize = start;
    while j < v.len() && v[j] != 'E'
        invariant
            start <= j <= v@.len(),
            forall|k: int| start <= k < j ==> v@[k] != 'E',
        decreases v@.len() - j,
    {
        j = j + 1;
    }
    proof {
        lemma_find_from(v@, 'E', start as int, j as int);
    }
    j
}

/// The numeric value of the digit character `c`.
fn digit_value(c: char) -> (r: u32)
    ensures
        r == digit_val(c),
{
    match c {
        '0' => 0,
        '1' => 1,
        '2' => 2,
        '3' => 3,
        '4' => 4,
        '5' => 5,
        '6' => 6,
        '7' => 7,
        '8' => 8,
        _ => 9,
    }
}

/// Rewrites a canonical rendering into the usual scientific shape.
pub(crate) fn sci_string(s: &str) -> (r: String)
    requires
        canon_text(s@),
    ensures
        r@ == sci_style(s@),
{
    let v = str_chars(s);
    if chars_eq_str(&v, "NaN") {
        return String::from_str("NaN");
    }
    if chars_eq_str(&v, "+Inf") {
        return String::from_str("inf");
    }
    if chars_eq_str(&v, "-Inf") {
        return String::from_str("-inf");
    }
    if chars_eq_str(&v, "0.0E+0") {
        return String::from_str("0e0");
    }
    if chars_eq_str(&v, "-0.0E+0") {
        return String::from_str("-0e0");
    }
    let neg = v.len() > 0 && v[0] == '-';
    let off: usize = if neg {
        1
    } else {
        0
    };
    let ghost t = canon_body(s@);
    proof {
        assert(canon_wf(s@));
        assert(t =~= v@.subrange(off as int, v@.len() as int));
    }
    let e_abs = find_e(&v, off);
    let ghost e = find_from(t, 'E', 0);
    proof {
        lemma_find_shift(v@, off as int, e_abs as int);
        assert(e == e_abs - off);
    }
    let mut out: Vec<char> = Vec::new();
    if neg {
        out.push('-');
    }
    let ghost sgn: Seq<char> = if neg {
        seq!['-']
    } else {
        Seq::empty()
    };
    // The mantissa: the lone zero fraction is dropped.
    let frac_is_zero = e_abs == off + 3 && v[off + 2] == '0';
    proof {
        let frac = t.subrange(2, e);
        if frac_is_zero {
            assert(frac =~= seq!['0']);
        } else if frac.len() == 1 {
            assert(frac[0] == t[2]);
            assert(frac != seq!['0']);
        } else {
            assert(frac != seq!['0']);
        }
    }
    if frac_is_zero {
        out.push(v[off]);
        proof {
            assert(out@ =~= sgn + t.subrange(0, 1));
        }
    } else {
        let mut i: usize = off;
        while i < e_abs
            invariant
                off <= i <= e_abs,
                e_abs <= v@.len(),
                out@ == sgn + v@.subrange(off as int, i as int),
            decreases e_abs - i,
        {
            out.push(v[i]);
            proof {
                assert(out@ =~= sgn + v@.subrange(off as int, (i + 1) as int));
            }
            i = i + 1;
        }
        proof {
            assert(v@.subrange(off as int, e_abs as int) =~= t.subrange(0, e));
        }
    }
    let ghost mant_done = out@;
    out.push('e');
    if v[e_abs + 1] == '-' {
        out.push('-');
    }
    let ghost esign_done = out@;
    let mut i: usize = e_abs + 2;
    while i < v.len()
        invariant
            e_abs + 2 <= i <= v@.len(),
            out@ == esign_done + v@.subrange((e_abs + 2) as int, i as int),
        decreases v@.len() - i,
    {
        out.push(v[i]);
        proof {
            assert(out@ =~= esign_done + v@.subrange((e_abs + 2) as int, (i + 1) as int));
        }
        i = i + 1;
    }
    proof {
        assert(v@.subrange((e_abs + 2) as int, v@.len() as int) =~= t.subrange(e + 2, t.len() as int));
        assert(out@ =~= sci_style(s@));
    }
    chars_to_string(&out)
}

/// Powers of ten.
pub open spec fn pow10(n: nat) -> nat
    decreases n,
{
    if n == 0 {
        1
    } else {
        10 * pow10((n - 1) as nat)
    }
}

proof fn lemma_dec_val_bound(s: Seq<char>)
    ensures
        dec_val(s) < pow10(s.len()),
    decreases s.len(),
{
    if s.len() == 0 {
    } else {
        lemma_dec_val_bound(s.drop_last());
    }
}

/// Rewrites a canonical rendering into plain positional decimal.
#[verifier::rlimit(80)]
pub(crate) fn plain_string(s: &str) -> (r: String)
    requires
        canon_text(s@),
    ensures
        r@ == plain_style(s@),
{
    let v = str_chars(s);
    if chars_eq_str(&v, "NaN") {
        return String::from_str("NaN");
    }
    if chars_eq_str(&v, "+Inf") {
        return String::from_str("inf");
    }
    if chars_eq_str(&v, "-Inf") {
        return String::from_str("-inf");
    }
    if chars_eq_str(&v, "0.0E+0") {
        let r = String::from_str("0");
        proof {
            reveal_strlit("0");
            assert(r@ =~= seq!['0']);
        }
        return r;
    }
    if chars_eq_str(&v, "-0.0E+0") {
        let r = String::from_str("-0");
        proof {
            reveal_strlit("-0");
            assert(r@ =~= seq!['-', '0']);
        }
        return r;
    }
    let neg = v.len() > 0 && v[0] == '-';
    let off: usize = if neg {
        1
    } else {
        0
    };
    let ghost t = canon_body(s@);
    proof {
        assert(canon_wf(s@));
        assert(t =~= v@.subrange(off as int, v@.len() as int));
    }
    let e_abs = find_e(&v, off);
    let ghost e = find_from(t, 'E', 0);
    proof {
        lemma_find_shift(v@, off as int, e_abs as int);
        assert(e == e_abs - off);
    }
    // The significant digits: the head digit, then the fraction unless it is
    // the lone zero.
    let mut digs: Vec<char> = Vec::new();
    digs.push(v[off]);
    let frac_is_zero = e_abs == off + 3 && v[off + 2] == '0';
    proof {
        let frac = t.subrange(2, e);
        if frac_is_zero {
            assert(frac =~= seq!['0']);
        } else if frac.len() == 1 {
            assert(frac[0] == t[2]);
            assert(frac != seq!['0']);
        } else {
            assert(frac != seq!['0']);
        }
    }
    if !frac_is_zero {
        let mut i: usize = off + 2;
        while i < e_abs
            invariant
                off + 2 <= i <= e_abs,
                e_abs <= v@.len(),
                digs@ == seq![v@[off as int]] + v@.subrange((off + 2) as int, i as int),
            decreases e_abs - i,
        {
            digs.push(v[i]);
            proof {
                assert(digs@ =~= seq![v@[off as int]] + v@.subrange((off + 2) as int, (i + 1) as int));
            }
            i = i + 1;
        }
    }
    let ghost spec_digits = if t.subrange(2, e) == seq!['0'] {
        t.subrange(0, 1)
    } else {
        t.subrange(0, 1) + t.subrange(2, e)
    };
    proof {
        if frac_is_zero {
            assert(digs@ =~= spec_digits);
        } else {
            assert(v@.subrange((off + 2) as int, e_abs as int) =~= t.subrange(2, e));
            assert(digs@ =~= spec_digits);
        }
        assert(1 <= digs@.len());
    }
    let eneg = v[e_abs + 1] == '-';
    // The exponent value: at most three decimal digits.
    let ghost edigs = t.subrange(e + 2, t.len() as int);
    let mut ev: u32 = 0;
    let mut i: usize = e_abs + 2;
    proof {
        assert(v@.subrange((e_abs + 2) as int, v@.len() as int) =~= edigs);
        assert(edigs.len() <= 3);
    }
    while i < v.len()
        invariant
            e_abs + 2 <= i <= v@.len(),
            v@.len() <= e_abs + 5,
            edigs == v@.subrange((e_abs + 2) as int, v@.len() as int),
            ev == dec_val(v@.subrange((e_abs + 2) as int, i as int)),
        decreases v@.len() - i,
    {
        proof {
            let part = v@.subrange((e_abs + 2) as int, i as int);
            lemma_dec_val_bound(part);
            assert(pow10(0) == 1);
            assert(pow10(1) == 10);
            assert(pow10(2) == 100);
            assert(part.len() <= 2);
            if part.len() == 0 {
                assert(dec_val(part) < 1);
            } else if part.len() == 1 {
                assert(dec_val(part) < 10);
            } else {
                assert(part.len() == 2);
                assert(dec_val(part) < 100);
            }
            assert(v@.subrange((e_abs + 2) as int, (i + 1) as int).drop_last() =~= part);
        }
        ev = ev * 10 + digit_value(v[i]);
        i = i + 1;
    }
    proof {
        assert(v@.subrange((e_abs + 2) as int, v@.len() as int) =~= edigs);
        lemma_dec_val_bound(edigs);
        assert(pow10(0) == 1);
        assert(pow10(1) == 10);
        assert(pow10(2) == 100);
        assert(pow10(3) == 1000);
        if edigs.len() == 0 {
        } else if edigs.len() == 1 {
        } else if edigs.len() == 2 {
        } else {
            assert(edigs.len() == 3);
        }
        assert(ev <= 999);
    }
    // Positional placement.
    let out = emit_positional(&digs, eneg, ev, neg);
    proof {
        assert(out@ =~= plain_style(s@));
    }
    chars_to_string(&out)
}

/// Builds the signed positional text for the digits `d.f x 10^(+-ev)`.
fn emit_positional(digs: &Vec<char>, eneg: bool, ev: u32, neg: bool) -> (out: Vec<char>)
    requires
        digs@.len() >= 1,
        ev <= 999,
    ensures
        out@ == (if neg {
            seq!['-']
        } else {
            Seq::<char>::empty()
        }) + place_point(digs@, eneg, ev as nat),
{
    let mut out: Vec<char> = Vec::new();
    if neg {
        out.push('-');
    }
    let ghost sgn: Seq<char> = if neg {
        seq!['-']
    } else {
        Seq::empty()
    };
    if !eneg || ev == 0 {
        let point: usize = (ev as usize) + 1;
        if point >= digs.len() {
            let ghost base = out@;
            let mut j: usize = 0;
            while j < digs.len()
                invariant
                    j <= digs@.len(),
                    out@ == base + digs@.subrange(0, j as int),
                decreases digs@.len() - j,
            {
                out.push(digs[j]);
                proof {
                    assert(out@ =~= base + digs@.subrange(0, (j + 1) as int));
                }
                j = j + 1;
            }
            proof {
                assert(digs@.subrange(0, digs@.len() as int) =~= digs@);
            }
            let ghost base2 = out@;
            let zcount: usize = point - digs.len();
            let mut z: usize = 0;
            while z < zcount
                invariant
                    z <= zcount,
                    out@ == base2 + zeros(z as nat),
                decreases zcount - z,
            {
                out.push('0');
                z = z + 1;
            }
            proof {
                assert(out@ =~= sgn + (digs@ + zeros((ev + 1 - digs@.len()) as nat)));
            }
        } else {
            let ghost base = out@;
            let mut j: usize = 0;
            while j < point
                invariant
                    j <= point,
                    point < digs@.len(),
                    out@ == base + digs@.subrange(0, j as int),
                decreases point - j,
            {
                out.push(digs[j]);
                proof {
                    assert(out@ =~= base + digs@.subrange(0, (j + 1) as int));
                }
                j = j + 1;
            }
            out.push('.');
            let ghost base2 = out@;
            let mut j2: usize = point;
            while j2 < digs.len()
                invariant
                    point <= j2 <= digs@.len(),
                    out@ == base2 + digs@.subrange(point as int, j2 as int),
                decreases digs@.len() - j2,
            {
                out.push(digs[j2]);
                proof {
                    assert(out@ =~= base2 + digs@.subrange(point as int, (j2 + 1) as int));
                }
                j2 = j2 + 1;
            }
            proof {
                assert(out@ =~= sgn + (digs@.subrange(0, (ev + 1) as int) + seq!['.'] + digs@.subrange(
                    (ev + 1) as int,
                    digs@.len() as int,
                )));
            }
        }
    } else {
        out.push('0');
        out.push('.');
        let ghost base = out@;
        let zcount: usize = (ev as usize) - 1;
        let mut z: usize = 0;
        while z < zcount
            invariant
                z <= zcount,
                out@ == base + zeros(z as nat),
            decreases zcount - z,
        {
            out.push('0');
            z = z + 1;
        }
        let ghost base2 = out@;
        let mut j: usize = 0;
        while j < digs.len()
            invariant
                j <= digs@.len(),
                out@ == base2 + digs@.subrange(0, j as int),
            decreases digs@.len() - j,
        {
            out.push(digs[j]);
            proof {
                assert(out@ =~= base2 + digs@.subrange(0, (j + 1) as int));
            }
            j = j + 1;
        }
        proof {
            assert(out@ =~= sgn + (seq!['0', '.'] + zeros((ev - 1) as nat) + digs@));
        }
    }
    out
}

/// The plain decimal rendering of the encoded value `b`.
pub(crate) fn render_plain(b: u64) -> (r: String)
    ensures
        r@ == plain_style(canon_of(b)),
{
    let c = canon_double(b);
    plain_string(c.as_str())
}

/// The scientific rendering of the encoded value `b`.
pub(crate) fn render_sci(b: u64) -> (r: String)
    ensures
        r@ == sci_style(canon_of(b)),
{
    let c = canon_double(b);
    sci_string(c.as_str())
}

proof fn lemma_find_shift(s: Seq<char>, off: int, j: int)
    requires
        0 <= off <= s.len(),
        off <= j <= s.len(),
        find_from(s, 'E', off) == j,
    ensures
        find_from(s.subrange(off, s.len() as int), 'E', 0) == j - off,
{
    let t = s.subrange(off, s.len() as int);
    assert forall|k: int| 0 <= k < j - off implies t[k] != 'E' by {
        lemma_find_before(s, 'E', off, k + off);
    }
    if j < s.len() {
        lemma_find_found(s, 'E', off, j);
        assert(t[j - off] == 'E');
    }
    lemma_find_from(t, 'E', 0, j - off);
}

proof fn lemma_find_before(s: Seq<char>, c: char, i: int, k: int)
    requires
        0 <= i <= k < find_from(s, c, i),
    ensures
        s[k] != c,
    decreases k - i,
{
    if i < s.len() {
        if i < k {
            lemma_find_before(s, c, i + 1, k);
        }
    }
}

proof fn lemma_find_lower(s: Seq<char>, c: char, i: int)
    requires
        0 <= i <= s.len(),
    ensures
        find_from(s, c, i) >= i,
    decreases s.len() - i,
{
    if i < s.len() && s[i] != c {
        lemma_find_lower(s, c, i + 1);
    }
}

proof fn lemma_find_found(s: Seq<char>, c: char, i: int, j: int)
    requires
        0 <= i <= j < s.len(),
        find_from(s, c, i) == j,
    ensures
        s[j] == c,
    decreases j - i,
{
    if i < j {
        lemma_find_found(s, c, i + 1, j);
    } else {
        if s[j] != c {
            lemma_find_lower(s, c, j + 1);
        }
    }
}

} // verus!
