//! Text helpers: the std string calls the library relies on, each with its
//! contract, and verified number formatting.
use vstd::prelude::*;
use vstd::string::*;

verus! {

/// Lexicographic order on character sequences, by code point:
/// negative, zero or positive as `a` sorts before, equal to, or after `b`.
pub open spec fn text_cmp(a: Seq<char>, b: Seq<char>) -> int
    decreases a.len(),
{
    if a.len() == 0 && b.len() == 0 {
        0
    } else if a.len() == 0 {
        -1
    } else if b.len() == 0 {
        1
    } else if (a[0] as int) < (b[0] as int) {
        -1
    } else if (a[0] as int) > (b[0] as int) {
        1
    } else {
        text_cmp(a.drop_first(), b.drop_first())
    }
}

/// `needle` occurs in `hay` as a contiguous run of characters.
pub open spec fn has_infix(hay: Seq<char>, needle: Seq<char>) -> bool {
    exists|i: int|
        0 <= i && i + needle.len() <= hay.len() && #[trigger] hay.subrange(i, i + needle.len())
            == needle
}

/// `s` without the run of `'/'` at its end.
pub open spec fn strip_trailing_slashes(s: Seq<char>) -> Seq<char>
    decreases s.len(),
{
    if s.len() > 0 && s.last() == '/' {
        strip_trailing_slashes(s.drop_last())
    } else {
        s
    }
}

/// The lower-case form of a text, as Unicode defines it.
pub uninterp spec fn lower_of(s: Seq<char>) -> Seq<char>;

/// Relies on `str::to_lowercase`: its result depends on the characters
/// alone, and an empty string stays empty.
#[verifier::external_body]
pub(crate) fn lowercase(s: &str) -> (r: String)
    ensures
        r@ == lower_of(s@),
        s@.len() == 0 ==> r@.len() == 0,
{
    s.to_lowercase()
}

/// Relies on `str::contains` with a `&str` pattern: true exactly when the
/// pattern occurs as a contiguous part of the text.
#[verifier::external_body]
pub(crate) fn contains_text(hay: &str, needle: &str) -> (r: bool)
    ensures
        r == has_infix(hay@, needle@),
{
    hay.contains(needle)
}

/// Relies on `Ord for str`: strings compare lexicographically by their UTF-8
/// bytes, which orders them as their code points do.
#[verifier::external_body]
pub(crate) fn compare_text(a: &str, b: &str) -> (r: i8)
    ensures
        r as int == text_cmp(a@, b@),
{
    match a.cmp(b) {
        std::cmp::Ordering::Less => -1,
        std::cmp::Ordering::Equal => 0,
        std::cmp::Ordering::Greater => 1,
    }
}

/// Relies on `str::trim_end_matches` with a `char` pattern: removes every
/// trailing `'/'`.
#[verifier::external_body]
pub(crate) fn trim_trailing_slashes(s: &str) -> (r: &str)
    ensures
        r@ == strip_trailing_slashes(s@),
{
    s.trim_end_matches('/')
}

/// Relies on `String::push`: appends one character.
#[verifier::external_body]
pub(crate) fn push_char(s: &mut String, c: char)
    ensures
        final(s)@ == old(s)@.push(c),
{
    s.push(c)
}

/// Relies on `String::pop`: removes and returns the last character, if any.
#[verifier::external_body]
pub(crate) fn pop_char(s: &mut String) -> (r: Option<char>)
    ensures
        old(s)@.len() == 0 ==> r is None && final(s)@ == old(s)@,
        old(s)@.len() > 0 ==> r == Some(old(s)@.last()) && final(s)@ == old(s)@.drop_last(),
{
    s.pop()
}

/// The character of a decimal digit.
pub open spec fn digit_char(d: nat) -> char {
    if d == 0 {
        '0'
    } else if d == 1 {
        '1'
    } else if d == 2 {
        '2'
    } else if d == 3 {
        '3'
    } else if d == 4 {
        '4'
    } else if d == 5 {
        '5'
    } else if d == 6 {
        '6'
    } else if d == 7 {
        '7'
    } else if d == 8 {
        '8'
    } else {
        '9'
    }
}

/// The decimal digits of `n`, most significant first, without leading zeros.
pub open spec fn decimal_text(n: nat) -> Seq<char>
    decreases n,
{
    if n < 10 {
        seq![digit_char(n)]
    } else {
        decimal_text(n / 10).push(digit_char(n % 10))
    }
}

fn digit_str(d: u64) -> (r: &'static str)
    requires
        d < 10,
    ensures
        r@ == seq![digit_char(d as nat)],
{
    proof {
        reveal_strlit("0");
        reveal_strlit("1");
        reveal_strlit("2");
        reveal_strlit("3");
        reveal_strlit("4");
        reveal_strlit("5");
        reveal_strlit("6");
        reveal_strlit("7");
        reveal_strlit("8");
        reveal_strlit("9");
    }
    match d {
        0 => "0",
        1 => "1",
        2 => "2",
        3 => "3",
        4 => "4",
        5 => "5",
        6 => "6",
        7 => "7",
        8 => "8",
        _ => "9",
    }
}

/// `n` written in decimal.
pub fn decimal(n: u64) -> (r: String)
    ensures
        r@ == decimal_text(n as nat),
    decreases n,
{
    if n < 10 {
        String::from_str(digit_str(n))
    } else {
        let mut s = decimal(n / 10);
        s.append(digit_str(n % 10));
        s
    }
}

pub open spec fn pow1024(k: nat) -> nat
    decreases k,
{
    if k == 0 {
        1
    } else {
        1024 * pow1024((k - 1) as nat)
    }
}

/// The binary unit for a byte count: the first `k` from `from` on with
/// `b < 1024^(k+1)`, and 5 (PiB) at most.
pub open spec fn unit_from(b: nat, from: nat) -> nat
    decreases 5 - from,
{
    if from >= 5 || b < pow1024(from + 1) {
        from
    } else {
        unit_from(b, from + 1)
    }
}

pub open spec fn unit_name(k: nat) -> Seq<char> {
    if k == 0 {
        seq!['B']
    } else if k == 1 {
        seq!['K', 'i', 'B']
    } else if k == 2 {
        seq!['M', 'i', 'B']
    } else if k == 3 {
        seq!['G', 'i', 'B']
    } else if k == 4 {
        seq!['T', 'i', 'B']
    } else {
        seq!['P', 'i', 'B']
    }
}

/// `x / d` rounded to the nearest integer, ties to the even one.
pub open spec fn div_round_even(x: nat, d: nat) -> nat
    recommends
        d > 0,
{
    let q = x / d;
    let r = x % d;
    if 2 * r > d || (2 * r == d && q % 2 == 1) {
        q + 1
    } else {
        q
    }
}

/// A byte count in binary units with one decimal: "0 B", "512.0 B", "1.5 KiB".
pub open spec fn bytes_text(b: nat) -> Seq<char> {
    if b == 0 {
        seq!['0', ' ', 'B']
    } else {
        let k = unit_from(b, 0);
        let t = div_round_even(10 * b, pow1024(k));
        decimal_text(t / 10) + seq!['.', digit_char(t % 10), ' '] + unit_name(k)
    }
}

fn unit_str(k: usize) -> (r: &'static str)
    requires
        k <= 5,
    ensures
        r@ == unit_name(k as nat),
{
    proof {
        reveal_strlit("B");
        reveal_strlit("KiB");
        reveal_strlit("MiB");
        reveal_strlit("GiB");
        reveal_strlit("TiB");
        reveal_strlit("PiB");
    }
    match k {
        0 => "B",
        1 => "KiB",
        2 => "MiB",
        3 => "GiB",
        4 => "TiB",
        _ => "PiB",
    }
}

proof fn lemma_pow1024_bound(k: nat)
    requires
        k <= 5,
    ensures
        1 <= pow1024(k) <= 1125899906842624,
    decreases k,
{
    reveal_with_fuel(pow1024, 6);
}

/// Formats a byte count in binary units (B, KiB, MiB, GiB, TiB, PiB) with
/// one decimal, rounding the exact quotient half to even.
pub fn format_bytes(bytes: u64) -> (r: String)
    ensures
        r@ == bytes_text(bytes as nat),
{
    if bytes == 0 {
        proof {
            reveal_strlit("0 B");
        }
        return String::from_str("0 B");
    }
    let b = bytes as u128;
    let mut k: usize = 0;
    let mut scale: u128 = 1;
    while k < 5 && b >= scale * 1024
        invariant
            k <= 5,
            scale as nat == pow1024(k as nat),
            1 <= scale <= 1125899906842624,
            unit_from(b as nat, 0) == unit_from(b as nat, k as nat),
        decreases 5 - k,
    {
        proof {
            lemma_pow1024_bound((k + 1) as nat);
        }
        scale = scale * 1024;
        k = k + 1;
    }
    proof {
        lemma_pow1024_bound(k as nat);
    }
    let x: u128 = 10 * b;
    let q = x / scale;
    let rem = x % scale;
    let t: u128 = if 2 * rem > scale || (2 * rem == scale && q % 2 == 1) {
        q + 1
    } else {
        q
    };
    assert(t as nat == div_round_even(10 * (bytes as nat), pow1024(unit_from(bytes as nat, 0))));
    assert(t / 10 <= b) by (nonlinear_arith)
        requires
            t <= q + 1,
            q == x / scale,
            scale >= 1,
            x == 10 * b,
    ;
    let whole = (t / 10) as u64;
    let frac = (t % 10) as u64;
    let mut s = decimal(whole);
    proof {
        reveal_strlit(".");
        reveal_strlit(" ");
    }
    s.append(".");
    s.append(digit_str(frac));
    s.append(" ");
    s.append(unit_str(k));
    assert(s@ =~= bytes_text(bytes as nat));
    s
}

} // verus!
