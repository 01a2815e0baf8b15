//! Human-readable byte sizes.
//!
//! A size is shown in the largest binary unit (B, KiB, MiB, GiB, TiB) in
//! which it is at least 1, with two decimals below 10, one below 100 and
//! none above, and trailing zeros dropped.  The value is taken the way a
//! double-precision float holds it: the byte count is rounded to a 53-bit
//! significand (ties to even) and the decimals are rounded half to even.
//! Everything here is exact integer arithmetic.
use vstd::prelude::*;
use crate::text::{chars_of, decimal, digit_char, digit_exec, push_char, push_decimal, string_of};

verus! {

pub open spec fn pow2(e: nat) -> nat
    decreases e,
{
    if e == 0 {
        1
    } else {
        2 * pow2((e - 1) as nat)
    }
}

/// Number of low bits a 53-bit significand cannot hold.
pub open spec fn f64_shift(n: nat) -> nat
    decreases n,
{
    if n < 9007199254740992 {
        0
    } else {
        1 + f64_shift(n / 2)
    }
}

/// `num / den` rounded to the nearest integer, ties to even.
pub open spec fn round_div_even(num: nat, den: nat) -> nat {
    let q = num / den;
    let r = num % den;
    if 2 * r > den || (2 * r == den && q % 2 == 1) {
        q + 1
    } else {
        q
    }
}

/// The value of `n as f64` (round to nearest, ties to even).
pub open spec fn f64_value(n: nat) -> nat {
    let unit = pow2(f64_shift(n));
    round_div_even(n, unit) * unit
}

pub open spec fn unit_divisor(k: nat) -> nat {
    if k == 0 {
        1
    } else if k == 1 {
        1024
    } else if k == 2 {
        1048576
    } else if k == 3 {
        1073741824
    } else {
        1099511627776
    }
}

/// Index of the unit a value is shown in: the largest `k <= 4` with `f >= 1024^k`.
pub open spec fn unit_index(f: nat) -> nat {
    if f >= 1099511627776 {
        4
    } else if f >= 1073741824 {
        3
    } else if f >= 1048576 {
        2
    } else if f >= 1024 {
        1
    } else {
        0
    }
}

pub open spec fn unit_name(k: nat) -> Seq<char> {
    if k == 1 {
        "KiB"@
    } else if k == 2 {
        "MiB"@
    } else if k == 3 {
        "GiB"@
    } else {
        "TiB"@
    }
}

/// Decimals shown for `f / 1024^k`.
pub open spec fn precision(f: nat, k: nat) -> nat {
    if f >= 100 * unit_divisor(k) {
        0
    } else if f >= 10 * unit_divisor(k) {
        1
    } else {
        2
    }
}

pub open spec fn pow10(p: nat) -> nat {
    if p == 0 {
        1
    } else if p == 1 {
        10
    } else {
        100
    }
}

/// `x / 10^p` written with exactly `p` decimals.
pub open spec fn fixed_point(x: nat, p: nat) -> Seq<char> {
    if p == 0 {
        decimal(x)
    } else if p == 1 {
        decimal(x / 10) + seq!['.', digit_char(x % 10)]
    } else {
        decimal(x / 100) + seq!['.', digit_char((x % 100) / 10), digit_char(x % 10)]
    }
}

pub open spec fn trim_zeros(s: Seq<char>) -> Seq<char>
    decreases s.len(),
{
    if s.contains('.') && s.len() > 0 && s.last() == '0' {
        trim_zeros(s.drop_last())
    } else {
        s
    }
}

/// Trailing zeros after a decimal point are dropped, then a bare point.
pub open spec fn trimmed_float(s: Seq<char>) -> Seq<char> {
    let t = trim_zeros(s);
    if t.len() > 0 && t.last() == '.' {
        t.drop_last()
    } else {
        t
    }
}

pub open spec fn abs(i: int) -> nat {
    if i < 0 {
        (-i) as nat
    } else {
        i as nat
    }
}

/// The text `format_bytes` shows for a byte count (its sign is ignored).
pub open spec fn bytes_text(bytes: int) -> Seq<char> {
    let n = abs(bytes);
    let f = f64_value(n);
    let k = unit_index(f);
    if k == 0 {
        decimal(n) + " B"@
    } else {
        let p = precision(f, k);
        trimmed_float(fixed_point(round_div_even(f * pow10(p), unit_divisor(k)), p)) + " "@
            + unit_name(k)
    }
}

/// The text `format_signed_bytes` shows: an explicit sign unless zero.
pub open spec fn signed_bytes_text(bytes: int) -> Seq<char> {
    if bytes > 0 {
        "+"@ + bytes_text(bytes)
    } else if bytes < 0 {
        "-"@ + bytes_text(bytes)
    } else {
        bytes_text(0)
    }
}

/// Whether `i64::abs` is defined on `bytes`.
pub open spec fn has_abs(bytes: int) -> bool {
    bytes != i64::MIN
}

// ---------------------------------------------------------------------------

proof fn lemma_pow2_pos(e: nat)
    ensures
        pow2(e) >= 1,
    decreases e,
{
    if e > 0 {
        lemma_pow2_pos((e - 1) as nat);
    }
}

/// `n as f64`, as the integer it denotes.
fn f64_value_exec(n: u64) -> (f: u128)
    ensures
        f == f64_value(n as nat),
        f <= 9007199254740992 * 0x1_0000_0000_0000_0000,
{
    let mut q: u64 = n;
    let mut unit: u64 = 1;
    let ghost mut steps: nat = 0;
    while q >= 9007199254740992
        invariant
            unit == pow2(steps),
            unit >= 1,
            q == n / unit,
            f64_shift(n as nat) == steps + f64_shift(q as nat),
        decreases q,
    {
        proof {
            vstd::arithmetic::div_mod::lemma_fundamental_div_mod(n as int, unit as int);
            vstd::arithmetic::div_mod::lemma_mod_bound(n as int, unit as int);
            assert(unit * q <= n);
            assert(unit * 2 <= 4096) by (nonlinear_arith)
                requires
                    unit * q <= n,
                    q >= 9007199254740992,
                    n <= 18446744073709551615u64,
                    unit >= 1,
            ;
            vstd::arithmetic::div_mod::lemma_div_denominator(n as int, unit as int, 2);
        }
        q = q / 2;
        unit = unit * 2;
        proof {
            steps = steps + 1;
        }
    }
    proof {
        vstd::arithmetic::div_mod::lemma_fundamental_div_mod(n as int, unit as int);
        vstd::arithmetic::div_mod::lemma_mod_bound(n as int, unit as int);
    }
    let r: u64 = n - q * unit;
    assert(r == n % unit);
    let rq: u128 = if 2 * (r as u128) > unit as u128 || (2 * (r as u128) == unit as u128 && q % 2
        == 1) {
        q as u128 + 1
    } else {
        q as u128
    };
    assert(rq * unit <= 9007199254740992 * 0x1_0000_0000_0000_0000) by (nonlinear_arith)
        requires
            rq <= 9007199254740992,
            unit <= 0x1_0000_0000_0000_0000,
    ;
    rq * (unit as u128)
}

fn unit_divisor_exec(k: u64) -> (d: u128)
    ensures
        d == unit_divisor(k as nat),
{
    if k == 0 {
        1
    } else if k == 1 {
        1024
    } else if k == 2 {
        1048576
    } else if k == 3 {
        1073741824
    } else {
        1099511627776
    }
}

fn unit_name_exec(k: u64) -> (s: &'static str)
    ensures
        s@ == unit_name(k as nat),
{
    if k == 1 {
        "KiB"
    } else if k == 2 {
        "MiB"
    } else if k == 3 {
        "GiB"
    } else {
        "TiB"
    }
}

fn fixed_point_exec(x: u128, p: u64) -> (s: String)
    requires
        p <= 2,
    ensures
        s@ == fixed_point(x as nat, p as nat),
{
    let mut s = String::new();
    if p == 0 {
        push_decimal(&mut s, x);
    } else if p == 1 {
        push_decimal(&mut s, x / 10);
        push_char(&mut s, '.');
        push_char(&mut s, digit_exec(x % 10));
        assert(s@ =~= decimal((x / 10) as nat) + seq!['.', digit_char((x % 10) as nat)]);
    } else {
        push_decimal(&mut s, x / 100);
        push_char(&mut s, '.');
        push_char(&mut s, digit_exec((x % 100) / 10));
        push_char(&mut s, digit_exec(x % 10));
        assert(s@ =~= decimal((x / 100) as nat) + seq![
            '.',
            digit_char(((x % 100) / 10) as nat),
            digit_char((x % 10) as nat),
        ]);
    }
    s
}

fn contains_dot(v: &Vec<char>) -> (r: bool)
    ensures
        r == v@.contains('.'),
{
    let mut i: usize = 0;
    while i < v.len()
        invariant
            i <= v.len(),
            forall|j: int| 0 <= j < i ==> v@[j] != '.',
        decreases v.len() - i,
    {
        if v[i] == '.' {
            assert(v@[i as int] == '.');
            return true;
        }
        i = i + 1;
    }
    false
}

/// Drops trailing zeros after a decimal point, then a trailing point.
pub fn trim_float(value: String) -> (r: String)
    ensures
        r@ == trimmed_float(value@),
{
    let mut v = chars_of(value.as_str());
    let dot = contains_dot(&v);
    while dot && v.len() > 0 && v[v.len() - 1] == '0'
        invariant
            dot ==> v@.contains('.'),
            !dot ==> !v@.contains('.'),
            trim_zeros(value@) == trim_zeros(v@),
        decreases v.len(),
    {
        let ghost before = v@;
        v.pop();
        proof {
            assert(v@ =~= before.drop_last());
            let j = choose|j: int| 0 <= j < before.len() && before[j] == '.';
            assert(j != before.len() - 1);
            assert(v@[j] == '.');
        }
    }
    assert(trim_zeros(v@) == v@);
    if v.len() > 0 && v[v.len() - 1] == '.' {
        v.pop();
    }
    string_of(&v)
}

/// Formats a byte count in binary units, ignoring its sign.
pub fn format_bytes(bytes: i64) -> (s: String)
    requires
        has_abs(bytes as int),
    ensures
        s@ == bytes_text(bytes as int),
{
    let n: u64 = if bytes < 0 {
        (-bytes) as u64
    } else {
        bytes as u64
    };
    assert(n as nat == abs(bytes as int));
    let f = f64_value_exec(n);
    let k: u64 = if f >= 1099511627776 {
        4
    } else if f >= 1073741824 {
        3
    } else if f >= 1048576 {
        2
    } else if f >= 1024 {
        1
    } else {
        0
    };
    if k == 0 {
        let mut s = String::new();
        push_decimal(&mut s, n as u128);
        s.append(" B");
        return s;
    }
    let d = unit_divisor_exec(k);
    let p: u64 = if f >= 100 * d {
        0
    } else if f >= 10 * d {
        1
    } else {
        2
    };
    let scale: u128 = if p == 0 {
        1
    } else if p == 1 {
        10
    } else {
        100
    };
    assert(f * scale <= 9007199254740992 * 0x1_0000_0000_0000_0000 * 100) by (nonlinear_arith)
        requires
            f <= 9007199254740992 * 0x1_0000_0000_0000_0000,
            scale <= 100,
    ;
    let num: u128 = f * scale;
    let q = num / d;
    let r = num % d;
    let rounded: u128 = if 2 * r > d || (2 * r == d && q % 2 == 1) {
        q + 1
    } else {
        q
    };
    let text = fixed_point_exec(rounded, p);
    let mut out = trim_float(text);
    out.append(" ");
    out.append(unit_name_exec(k));
    out
}

/// Formats a signed byte delta: `+` or `-` in front unless it is zero.
pub fn format_signed_bytes(bytes: i64) -> (s: String)
    requires
        has_abs(bytes as int),
    ensures
        s@ == signed_bytes_text(bytes as int),
{
    if bytes > 0 {
        let mut s = String::new();
        s.append("+");
        let b = format_bytes(bytes);
        s.append(b.as_str());
        s
    } else if bytes < 0 {
        let mut s = String::new();
        s.append("-");
        let b = format_bytes(-bytes);
        s.append(b.as_str());
        assert(bytes_text(-bytes) == bytes_text(bytes as int));
        s
    } else {
        format_bytes(0)
    }
}

/// A size and its negation are shown the same way by `format_bytes`.
pub proof fn lemma_bytes_text_ignores_sign(bytes: int)
    ensures
        bytes_text(bytes) == bytes_text(-bytes),
{
    assert(abs(bytes) == abs(-bytes));
}

} // verus!
