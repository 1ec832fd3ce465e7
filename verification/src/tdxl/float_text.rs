//! The text of a decimal literal as the number it stands for is written:
//! `Display` writes the shortest positional form (`3.0` is `3`, `1.50` is
//! `1.5`), `Debug` keeps one fractional digit and switches to an exponent
//! below `1e-4` and from `1e16` on. A literal with more than one point is
//! not a number and stands for zero.
//!
//! The rendering works on the literal's decimal digits. For a literal with
//! at most fifteen significant digits whose value lies in the normal range
//! of a 64-bit float, that is the text the float itself prints; a literal
//! with more digits is rendered exactly as it is written, not rounded to
//! the nearest float.
use vstd::prelude::*;
use crate::tdxl::ast::signed_decimal;
use crate::text::{append_chars, chars_of, decimal_string, decimal_string_u128, string_of};

verus! {

/// How many points a text holds.
pub open spec fn dot_count(t: Seq<char>) -> nat
    decreases t.len(),
{
    if t.len() == 0 {
        0
    } else {
        dot_count(t.drop_last()) + if t.last() == '.' {
            1nat
        } else {
            0nat
        }
    }
}

/// The position of the first point, or the length where there is none.
pub open spec fn first_dot(t: Seq<char>) -> int
    decreases t.len(),
{
    if t.len() == 0 {
        0
    } else if t[0] == '.' {
        0
    } else {
        1 + first_dot(t.drop_first())
    }
}

/// How many `0`s a text starts with.
pub open spec fn lead_zeros(s: Seq<char>) -> nat
    decreases s.len(),
{
    if s.len() > 0 && s[0] == '0' {
        1 + lead_zeros(s.drop_first())
    } else {
        0
    }
}

/// A text without its trailing `0`s.
pub open spec fn strip_trailing_zeros(s: Seq<char>) -> Seq<char>
    decreases s.len(),
{
    if s.len() > 0 && s.last() == '0' {
        strip_trailing_zeros(s.drop_last())
    } else {
        s
    }
}

/// `n` zeros.
pub open spec fn zeros(n: nat) -> Seq<char> {
    Seq::new(n, |i: int| '0')
}

/// The significant digits of a one-point literal and where the point
/// stands among them: the value is `0.digits` times ten to that power.
pub open spec fn float_digits(t: Seq<char>) -> (Seq<char>, int) {
    let d = first_dot(t);
    let all = t.subrange(0, d) + t.subrange(d + 1, t.len() as int);
    let z = lead_zeros(all);
    (strip_trailing_zeros(all.subrange(z as int, all.len() as int)), d - z)
}

/// Whether a literal stands for zero: it is not a number, or all its
/// digits are `0`.
pub open spec fn float_is_zero(t: Seq<char>) -> bool {
    dot_count(t) != 1 || float_digits(t).0.len() == 0
}

/// Digits `d` with the point `p` places in, written out: zeros added where
/// the point lies beyond the digits, `0.` and zeros before them where it
/// lies before, and no point where nothing follows it.
pub open spec fn positional(d: Seq<char>, p: int) -> Seq<char> {
    if p >= d.len() {
        d + zeros((p - d.len()) as nat)
    } else if p > 0 {
        d.subrange(0, p) + "."@ + d.subrange(p, d.len() as int)
    } else {
        "0."@ + zeros((-p) as nat) + d
    }
}

/// What `Display` writes for the number a literal stands for.
pub open spec fn float_display(t: Seq<char>) -> Seq<char> {
    if float_is_zero(t) {
        "0"@
    } else {
        positional(float_digits(t).0, float_digits(t).1)
    }
}

/// What `Debug` writes for the number a literal stands for.
pub open spec fn float_debug(t: Seq<char>) -> Seq<char> {
    if float_is_zero(t) {
        "0.0"@
    } else {
        let d = float_digits(t).0;
        let p = float_digits(t).1;
        if -3 <= p <= 16 {
            if p >= d.len() {
                positional(d, p) + ".0"@
            } else {
                positional(d, p)
            }
        } else {
            seq![d[0]] + (if d.len() > 1 {
                "."@ + d.subrange(1, d.len() as int)
            } else {
                Seq::<char>::empty()
            }) + "e"@ + signed_decimal(p - 1)
        }
    }
}

proof fn lemma_dot_count_step(t: Seq<char>, i: int)
    requires
        0 <= i < t.len(),
    ensures
        dot_count(t.subrange(0, i + 1)) == dot_count(t.subrange(0, i)) + if t[i] == '.' {
            1nat
        } else {
            0nat
        },
{
    assert(t.subrange(0, i + 1).drop_last() =~= t.subrange(0, i));
}

proof fn lemma_no_dots(t: Seq<char>)
    requires
        forall|k: int| 0 <= k < t.len() ==> t[k] != '.',
    ensures
        dot_count(t) == 0,
    decreases t.len(),
{
    if t.len() > 0 {
        lemma_no_dots(t.drop_last());
    }
}

proof fn lemma_first_dot_from(t: Seq<char>, i: int)
    requires
        0 <= i <= t.len(),
        forall|k: int| 0 <= k < i ==> t[k] != '.',
    ensures
        first_dot(t) == i + first_dot(t.subrange(i, t.len() as int)),
    decreases i,
{
    if i > 0 {
        lemma_first_dot_from(t.drop_first(), i - 1);
        assert(t.drop_first().subrange(i - 1, t.len() - 1) =~= t.subrange(i, t.len() as int));
    } else {
        assert(t.subrange(0, t.len() as int) =~= t);
    }
}

/// The digits and point position of a one-point literal, computed.
fn digits_of(t: &str) -> (r: Option<(Vec<char>, usize, usize)>)
    ensures
        match r {
            None => float_is_zero(t@),
            Some((d, a, b)) => !float_is_zero(t@) && d@ == float_digits(t@).0 && a as int - b as int
                == float_digits(t@).1 && (a == 0 || b == 0),
        },
{
    let cs = chars_of(t);
    let n = cs.len();
    let mut dots: usize = 0;
    let mut first: usize = n;
    let mut i: usize = 0;
    while i < n
        invariant
            n == cs@.len(),
            cs@ == t@,
            i <= n,
            dots == dot_count(cs@.subrange(0, i as int)),
            dots <= i,
            first <= n,
            first == n ==> forall|k: int| 0 <= k < i ==> cs@[k] != '.',
            first < n ==> first < i && cs@[first as int] == '.' && forall|k: int| 0 <= k < first ==> cs@[k] != '.',
        decreases n - i,
    {
        proof {
            lemma_dot_count_step(cs@, i as int);
        }
        if cs[i] == '.' {
            dots = dots + 1;
            if first == n {
                first = i;
            }
        }
        i += 1;
    }
    assert(cs@.subrange(0, n as int) =~= cs@);
    if dots != 1 {
        return None;
    }
    if first == n {
        proof {
            lemma_no_dots(cs@);
        }
        return None;
    }
    proof {
        lemma_first_dot_from(cs@, first as int);
        assert(cs@.subrange(first as int, n as int)[0] == '.');
    }
    let ghost d = first as int;
    assert(first_dot(t@) == d);
    let mut all: Vec<char> = Vec::new();
    let mut j: usize = 0;
    while j < n
        invariant
            n == cs@.len(),
            cs@ == t@,
            first < n,
            j <= n,
            all@ == if j <= first {
                cs@.subrange(0, j as int)
            } else {
                cs@.subrange(0, first as int) + cs@.subrange(first + 1, j as int)
            },
        decreases n - j,
    {
        if j != first {
            all.push(cs[j]);
        }
        proof {
            if j < first {
                assert(all@ =~= cs@.subrange(0, j + 1));
            } else if j == first {
                assert(cs@.subrange(0, first as int) + cs@.subrange(first + 1, j + 1) =~= cs@.subrange(0, j as int));
            } else {
                assert(all@ =~= cs@.subrange(0, first as int) + cs@.subrange(first + 1, j + 1));
            }
        }
        j += 1;
    }
    let ghost whole = all@;
    assert(whole == t@.subrange(0, d) + t@.subrange(d + 1, t@.len() as int));
    let m = all.len();
    let mut z: usize = 0;
    assert(whole.subrange(0, m as int) =~= whole);
    while z < m && all[z] == '0'
        invariant
            m == all@.len(),
            z <= m,
            lead_zeros(whole) == z + lead_zeros(whole.subrange(z as int, m as int)),
            whole == all@,
        decreases m - z,
    {
        assert(whole.subrange(z as int, m as int).drop_first() =~= whole.subrange(z + 1, m as int));
        z += 1;
    }
    assert(lead_zeros(whole.subrange(z as int, m as int)) == 0);
    let mut e: usize = m;
    assert(whole.subrange(z as int, m as int) =~= whole.subrange(z as int, e as int));
    while e > z && all[e - 1] == '0'
        invariant
            m == all@.len(),
            z <= e <= m,
            whole == all@,
            strip_trailing_zeros(whole.subrange(z as int, m as int)) == strip_trailing_zeros(
                whole.subrange(z as int, e as int),
            ),
        decreases e,
    {
        assert(whole.subrange(z as int, e as int).drop_last() =~= whole.subrange(z as int, e - 1));
        e -= 1;
    }
    let ghost sig = whole.subrange(z as int, e as int);
    assert(strip_trailing_zeros(sig) == sig);
    if e == z {
        return None;
    }
    let mut digits: Vec<char> = Vec::new();
    let mut k: usize = z;
    while k < e
        invariant
            z <= k <= e <= m,
            m == all@.len(),
            whole == all@,
            digits@ == whole.subrange(z as int, k as int),
        decreases e - k,
    {
        digits.push(all[k]);
        assert(digits@ =~= whole.subrange(z as int, k + 1));
        k += 1;
    }
    if z <= first {
        Some((digits, first - z, 0))
    } else {
        Some((digits, 0, z - first))
    }
}

/// The digits `d` with the point placed `a - b` places in.
fn positional_exec(d: &Vec<char>, a: usize, b: usize) -> (r: String)
    requires
        a == 0 || b == 0,
    ensures
        r@ == positional(d@, a as int - b as int),
{
    let mut s = String::new();
    let ghost p = a as int - b as int;
    if b == 0 && a >= d.len() {
        append_chars(&mut s, d.as_slice());
        let mut i: usize = d.len();
        while i < a
            invariant
                d@.len() <= i <= a,
                s@ == d@ + zeros((i - d@.len()) as nat),
            decreases a - i,
        {
            append_chars(&mut s, chars_of("0").as_slice());
            proof {
                reveal_strlit("0");
            }
            assert(s@ =~= d@ + zeros((i + 1 - d@.len()) as nat));
            i += 1;
        }
        s
    } else if b == 0 && a > 0 {
        append_chars(&mut s, &d.as_slice()[0..a]);
        append_chars(&mut s, chars_of(".").as_slice());
        append_chars(&mut s, &d.as_slice()[a..d.len()]);
        assert(s@ =~= d@.subrange(0, p) + "."@ + d@.subrange(p, d@.len() as int));
        s
    } else {
        append_chars(&mut s, chars_of("0.").as_slice());
        let mut i: usize = 0;
        while i < b
            invariant
                i <= b,
                s@ == "0."@ + zeros(i as nat),
            decreases b - i,
        {
            append_chars(&mut s, chars_of("0").as_slice());
            proof {
                reveal_strlit("0");
            }
            assert(s@ =~= "0."@ + zeros((i + 1) as nat));
            i += 1;
        }
        append_chars(&mut s, d.as_slice());
        s
    }
}

/// The text `Display` gives for the number a literal stands for.
pub fn float_display_text(t: &str) -> (r: String)
    ensures
        r@ == float_display(t@),
{
    match digits_of(t) {
        None => string_of(chars_of("0").as_slice()),
        Some((d, a, b)) => positional_exec(&d, a, b),
    }
}

/// The text `Debug` gives for the number a literal stands for.
pub fn float_debug_text(t: &str) -> (r: String)
    ensures
        r@ == float_debug(t@),
{
    match digits_of(t) {
        None => string_of(chars_of("0.0").as_slice()),
        Some((d, a, b)) => {
            let ghost p = a as int - b as int;
            if (b == 0 && a <= 16) || (a == 0 && b <= 3) {
                let mut s = positional_exec(&d, a, b);
                if b == 0 && a >= d.len() {
                    append_chars(&mut s, chars_of(".0").as_slice());
                }
                s
            } else {
                let mut s = String::new();
                append_chars(&mut s, &d.as_slice()[0..1]);
                if d.len() > 1 {
                    append_chars(&mut s, chars_of(".").as_slice());
                    append_chars(&mut s, &d.as_slice()[1..d.len()]);
                }
                append_chars(&mut s, chars_of("e").as_slice());
                if b == 0 {
                    append_chars(&mut s, chars_of(decimal_string(a - 1).as_str()).as_slice());
                    assert(signed_decimal(p - 1) == crate::text::decimal((a - 1) as nat));
                } else {
                    append_chars(&mut s, chars_of("-").as_slice());
                    let mag: u128 = (b as u128) + 1;
                    append_chars(&mut s, chars_of(decimal_string_u128(mag).as_str()).as_slice());
                    assert(signed_decimal(p - 1) == "-"@ + crate::text::decimal(mag as nat));
                }
                proof {
                    let head = seq![d@[0]] + (if d@.len() > 1 {
                        "."@ + d@.subrange(1, d@.len() as int)
                    } else {
                        Seq::<char>::empty()
                    });
                    assert(d@.subrange(0, 1) =~= seq![d@[0]]);
                }
                assert(s@ =~= float_debug(t@));
                s
            }
        },
    }
}

} // verus!
