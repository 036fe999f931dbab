//! Small conversions shared by the parsers of system files.
use vstd::prelude::*;

use crate::text::{all_digits, char_is_ws, digits_val, eq_str, is_digit, is_ws, trim, trim_chars};

verus! {

/// Conversions of human-written quantities.
pub struct Hack;

/// The number of leading ASCII digits of `t`.
pub open spec fn lead_digits(t: Seq<char>) -> nat
    decreases t.len(),
{
    if t.len() > 0 && is_digit(t[0]) {
        1 + lead_digits(t.drop_first())
    } else {
        0
    }
}

/// `t` without its leading whitespace.
pub open spec fn skip_ws(t: Seq<char>) -> Seq<char>
    decreases t.len(),
{
    if t.len() > 0 && is_ws(t[0]) {
        skip_ws(t.drop_first())
    } else {
        t
    }
}

/// An ASCII letter made lowercase; other characters are kept.
pub open spec fn ascii_lower_char(c: char) -> char {
    if 65 <= (c as u32) <= 90 {
        ((c as u32) + 32) as char
    } else {
        c
    }
}

/// The text with its ASCII letters made lowercase.
pub open spec fn ascii_lower(t: Seq<char>) -> Seq<char> {
    Seq::new(t.len(), |i: int| ascii_lower_char(t[i]))
}

/// How many bytes one of a size unit is, the unit already in lowercase:
/// none or `b` for bytes, then `k`, `m`, `g`, `t` alone or followed by `b`
/// or `ib`, each 1024 times the one before.
pub open spec fn unit_factor(u: Seq<char>) -> Option<nat> {
    if u == ""@ || u == "b"@ {
        Some(1)
    } else if u == "k"@ || u == "kb"@ || u == "kib"@ {
        Some(1024)
    } else if u == "m"@ || u == "mb"@ || u == "mib"@ {
        Some(1048576)
    } else if u == "g"@ || u == "gb"@ || u == "gib"@ {
        Some(1073741824)
    } else if u == "t"@ || u == "tb"@ || u == "tib"@ {
        Some(1099511627776)
    } else {
        None
    }
}

/// The number of bytes that a size such as `8192 kB` writes: after
/// trimming, ASCII digits, optional whitespace and a unit; `None` for
/// other text and for sizes beyond `u64`.
pub open spec fn size_bytes(s: Seq<char>) -> Option<u64> {
    let t = trim(s);
    let k = lead_digits(t) as int;
    let unit = ascii_lower(skip_ws(t.skip(k)));
    if k > 0 && unit_factor(unit) is Some && digits_val(t.take(k)) * unit_factor(unit)->0
        <= u64::MAX {
        Some((digits_val(t.take(k)) * unit_factor(unit)->0) as u64)
    } else {
        None
    }
}

/// `size_bytes`, or zero where there is none.
pub open spec fn size_or_zero(s: Seq<char>) -> u64 {
    match size_bytes(s) {
        Some(n) => n,
        None => 0,
    }
}

proof fn lemma_lead_digits(t: Seq<char>, i: int)
    requires
        0 <= i <= t.len(),
        forall|j: int| 0 <= j < i ==> is_digit(#[trigger] t[j]),
        i == t.len() || !is_digit(t[i]),
    ensures
        lead_digits(t) == i,
    decreases i,
{
    if i > 0 {
        lemma_lead_digits(t.drop_first(), i - 1);
    }
}

proof fn lemma_skip_ws(t: Seq<char>, i: int)
    requires
        0 <= i <= t.len(),
        forall|j: int| 0 <= j < i ==> is_ws(#[trigger] t[j]),
        i == t.len() || !is_ws(t[i]),
    ensures
        skip_ws(t) == t.skip(i),
    decreases i,
{
    if i > 0 {
        lemma_skip_ws(t.drop_first(), i - 1);
        assert(t.drop_first().skip(i - 1) =~= t.skip(i));
    } else {
        assert(t.skip(0) =~= t);
    }
}

/// The text with its ASCII letters made lowercase.
pub fn lower_ascii(t: &[char]) -> (r: Vec<char>)
    ensures
        r@ == ascii_lower(t@),
{
    let mut r: Vec<char> = Vec::new();
    let mut i: usize = 0;
    while i < t.len()
        invariant
            0 <= i <= t@.len(),
            r@ =~= ascii_lower(t@).take(i as int),
        decreases t@.len() - i,
    {
        let c = t[i];
        let u = c as u32;
        if 65 <= u && u <= 90 {
            let b: u8 = (u + 32) as u8;
            r.push(b as char);
        } else {
            r.push(c);
        }
        i = i + 1;
    }
    r
}

fn factor_of(u: &[char]) -> (r: Option<u64>)
    ensures
        match r {
            Some(f) => unit_factor(u@) == Some(f as nat),
            None => unit_factor(u@) is None,
        },
{
    if eq_str(u, "") || eq_str(u, "b") {
        Some(1)
    } else if eq_str(u, "k") || eq_str(u, "kb") || eq_str(u, "kib") {
        Some(1024)
    } else if eq_str(u, "m") || eq_str(u, "mb") || eq_str(u, "mib") {
        Some(1048576)
    } else if eq_str(u, "g") || eq_str(u, "gb") || eq_str(u, "gib") {
        Some(1073741824)
    } else if eq_str(u, "t") || eq_str(u, "tb") || eq_str(u, "tib") {
        Some(1099511627776)
    } else {
        None
    }
}

/// Reads a size in bytes from characters.
pub fn size_of_chars(s: &[char]) -> (r: Option<u64>)
    ensures
        r == size_bytes(s@),
{
    let t = trim_chars(s);
    let n = t.len();
    let mut k: usize = 0;
    let mut acc: u64 = 0;
    let mut big = false;
    while k < n && t[k] as u32 >= 48 && t[k] as u32 <= 57
        invariant
            0 <= k <= n == t@.len(),
            forall|j: int| 0 <= j < k ==> is_digit(#[trigger] t@[j]),
            !big ==> acc as nat == digits_val(t@.take(k as int)),
            big ==> digits_val(t@.take(k as int)) > u64::MAX,
        decreases n - k,
    {
        let d = (t[k] as u32 - 48) as u64;
        assert(t@.take(k + 1).drop_last() =~= t@.take(k as int));
        if !big {
            if acc > (u64::MAX - d) / 10 {
                big = true;
            } else {
                acc = acc * 10 + d;
            }
        } else {
            assert(digits_val(t@.take(k + 1)) >= digits_val(t@.take(k as int)) * 10);
        }
        k = k + 1;
    }
    proof {
        lemma_lead_digits(t@, k as int);
    }
    if k == 0 {
        return None;
    }
    let mut w = k;
    while w < n && char_is_ws(t[w])
        invariant
            k <= w <= n == t@.len(),
            forall|j: int| 0 <= j < w - k ==> is_ws(#[trigger] t@.skip(k as int)[j]),
        decreases n - w,
    {
        w = w + 1;
    }
    proof {
        lemma_skip_ws(t@.skip(k as int), w - k);
        assert(t@.skip(k as int).skip(w - k) =~= t@.skip(w as int));
    }
    let rest = crate::text::slice_copy(&t, w, n);
    assert(rest@ =~= t@.skip(w as int));
    let unit = lower_ascii(&rest);
    match factor_of(&unit) {
        None => None,
        Some(f) => {
            if big {
                assert(digits_val(t@.take(k as int)) * f >= digits_val(t@.take(k as int))) by (
                nonlinear_arith)
                    requires
                        f >= 1,
                ;
                None
            } else if f > 1 && acc > u64::MAX / f {
                assert(acc * f > u64::MAX) by (nonlinear_arith)
                    requires
                        f > 1,
                        acc > u64::MAX / f,
                ;
                None
            } else {
                assert(acc * f <= u64::MAX) by (nonlinear_arith)
                    requires
                        f >= 1,
                        f == 1 || acc <= u64::MAX / f,
                ;
                Some(acc * f)
            }
        },
    }
}

impl Hack {
    /// The number of bytes that a size such as `8192 kB` writes, or `None`
    /// when the text is no such size or the size is beyond `u64`.
    pub fn size_to_bytes(s: &str) -> (r: Option<u64>)
        ensures
            r == size_bytes(s@),
    {
        let cs = crate::text::chars_of(s);
        size_of_chars(&cs)
    }

    /// A size in bytes as `size_to_bytes` reads it, or 0 where it reads
    /// none.
    pub fn size_to_bytes_zero(s: &str) -> (r: u64)
        ensures
            r == size_or_zero(s@),
    {
        match Self::size_to_bytes(s) {
            Some(n) => n,
            None => 0,
        }
    }
}

/// The factor of an interval's unit: none or `s` for seconds, `m`, `h`
/// and `d` for minutes, hours and days; 0 for anything else.
pub open spec fn interval_unit(u: Seq<char>) -> u64 {
    if u.len() == 0 || u == "s"@ {
        1
    } else if u == "m"@ {
        60
    } else if u == "h"@ {
        3600
    } else if u == "d"@ {
        86400
    } else {
        0
    }
}

/// The seconds of an interval written as a number and a unit: the text is
/// trimmed, its leading ASCII digits read as a `u64` (0 when there are none
/// or they do not fit), the rest trimmed as the unit; the product is capped
/// at `u64::MAX`.
pub open spec fn interval_of(text: Seq<char>) -> u64 {
    let t = trim(text);
    let i = lead_digits(t) as int;
    let n = crate::text::u64_or(t.take(i), 0);
    let f = interval_unit(trim(t.skip(i)));
    if n * f > u64::MAX {
        u64::MAX
    } else {
        (n * f) as u64
    }
}

/// The seconds of an interval, as `interval_of` reads it.
pub fn interval_secs(text: &str) -> (r: u64)
    ensures
        r == interval_of(text@),
{
    let t = trim_chars(&crate::text::chars_of(text));
    let n_chars = t.len();
    let mut i: usize = 0;
    while i < n_chars && (t[i] as u32) >= 48 && (t[i] as u32) <= 57
        invariant
            0 <= i <= n_chars == t@.len(),
            forall|j: int| 0 <= j < i ==> is_digit(#[trigger] t@[j]),
        decreases n_chars - i,
    {
        i = i + 1;
    }
    proof {
        lemma_lead_digits(t@, i as int);
    }
    let digits = crate::text::slice_copy(&t, 0, i);
    let rest = crate::text::slice_copy(&t, i, n_chars);
    assert(digits@ =~= t@.take(i as int));
    assert(rest@ =~= t@.skip(i as int));
    let n = crate::text::parse_u64_or(&digits, 0);
    let unit = trim_chars(&rest);
    proof {
        reveal_strlit("s");
        reveal_strlit("m");
        reveal_strlit("h");
        reveal_strlit("d");
    }
    let f: u64 = if unit.len() == 0 || eq_str(&unit, "s") {
        1
    } else if eq_str(&unit, "m") {
        60
    } else if eq_str(&unit, "h") {
        3600
    } else if eq_str(&unit, "d") {
        86400
    } else {
        0
    };
    match n.checked_mul(f) {
        Some(v) => v,
        None => u64::MAX,
    }
}

} // verus!
