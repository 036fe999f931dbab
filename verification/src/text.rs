//! Character-level text utilities shared by the parsers of this crate.
//!
//! Text is handled as `Vec<char>` while it is taken apart; each function
//! states its result over `Seq<char>` with a spec function that says what
//! the corresponding operation of `str` does.
use vstd::prelude::*;

verus! {

/// `char::is_whitespace`: the Unicode `White_Space` property.
pub open spec fn is_ws(c: char) -> bool {
    let u = c as u32;
    ||| 9 <= u <= 13
    ||| u == 32
    ||| u == 0x85
    ||| u == 0xa0
    ||| u == 0x1680
    ||| 0x2000 <= u <= 0x200a
    ||| u == 0x2028
    ||| u == 0x2029
    ||| u == 0x202f
    ||| u == 0x205f
    ||| u == 0x3000
}

/// Tests one character for whitespace.
pub fn char_is_ws(c: char) -> (r: bool)
    ensures
        r == is_ws(c),
{
    let u = c as u32;
    (9 <= u && u <= 13) || u == 32 || u == 0x85 || u == 0xa0 || u == 0x1680 || (0x2000 <= u
        && u <= 0x200a) || u == 0x2028 || u == 0x2029 || u == 0x202f || u == 0x205f || u
        == 0x3000
}

/// The words found so far and the word in progress, after reading `s`
/// from left to right and cutting at whitespace.
pub open spec fn ws_state(s: Seq<char>) -> (Seq<Seq<char>>, Seq<char>)
    decreases s.len(),
{
    if s.len() == 0 {
        (Seq::empty(), Seq::empty())
    } else {
        let (w, cur) = ws_state(s.drop_last());
        let c = s.last();
        if is_ws(c) {
            if cur.len() > 0 {
                (w.push(cur), Seq::empty())
            } else {
                (w, Seq::empty())
            }
        } else {
            (w, cur.push(c))
        }
    }
}

/// `str::split_whitespace`: the maximal runs of non-whitespace characters.
pub open spec fn split_ws(s: Seq<char>) -> Seq<Seq<char>> {
    let (w, cur) = ws_state(s);
    if cur.len() > 0 {
        w.push(cur)
    } else {
        w
    }
}

/// The pieces found so far and the piece in progress, after reading `s`
/// from left to right and cutting at `d`.
pub open spec fn split_state(s: Seq<char>, d: char) -> (Seq<Seq<char>>, Seq<char>)
    decreases s.len(),
{
    if s.len() == 0 {
        (Seq::empty(), Seq::empty())
    } else {
        let (w, cur) = split_state(s.drop_last(), d);
        let c = s.last();
        if c == d {
            (w.push(cur), Seq::empty())
        } else {
            (w, cur.push(c))
        }
    }
}

/// `str::split` at one character: all pieces, empty ones included.
pub open spec fn split_on(s: Seq<char>, d: char) -> Seq<Seq<char>> {
    let (w, cur) = split_state(s, d);
    w.push(cur)
}

/// `str::split_whitespace`, collected into owned pieces.
pub fn split_whitespace(s: &[char]) -> (r: Vec<Vec<char>>)
    ensures
        r@.len() == split_ws(s@).len(),
        forall|i: int| 0 <= i < r@.len() ==> #[trigger] r@[i]@ == split_ws(s@)[i],
{
    let mut words: Vec<Vec<char>> = Vec::new();
    let mut cur: Vec<char> = Vec::new();
    let mut i: usize = 0;
    while i < s.len()
        invariant
            0 <= i <= s@.len(),
            words@.len() == ws_state(s@.take(i as int)).0.len(),
            forall|j: int|
                0 <= j < words@.len() ==> #[trigger] words@[j]@ == ws_state(
                    s@.take(i as int),
                ).0[j],
            cur@ == ws_state(s@.take(i as int)).1,
        decreases s@.len() - i,
    {
        let c = s[i];
        assert(s@.take(i + 1).drop_last() =~= s@.take(i as int));
        assert(s@.take(i + 1).last() == c);
        if char_is_ws(c) {
            if cur.len() > 0 {
                let done = cur;
                words.push(done);
                cur = Vec::new();
            }
        } else {
            cur.push(c);
        }
        i = i + 1;
    }
    assert(s@.take(s@.len() as int) =~= s@);
    if cur.len() > 0 {
        words.push(cur);
    }
    words
}

/// `str::split` at one character, collected into owned pieces.
pub fn split_char(s: &[char], d: char) -> (r: Vec<Vec<char>>)
    ensures
        r@.len() == split_on(s@, d).len(),
        forall|i: int| 0 <= i < r@.len() ==> #[trigger] r@[i]@ == split_on(s@, d)[i],
{
    let mut pieces: Vec<Vec<char>> = Vec::new();
    let mut cur: Vec<char> = Vec::new();
    let mut i: usize = 0;
    while i < s.len()
        invariant
            0 <= i <= s@.len(),
            pieces@.len() == split_state(s@.take(i as int), d).0.len(),
            forall|j: int|
                0 <= j < pieces@.len() ==> #[trigger] pieces@[j]@ == split_state(
                    s@.take(i as int),
                    d,
                ).0[j],
            cur@ == split_state(s@.take(i as int), d).1,
        decreases s@.len() - i,
    {
        let c = s[i];
        assert(s@.take(i + 1).drop_last() =~= s@.take(i as int));
        assert(s@.take(i + 1).last() == c);
        if c == d {
            let done = cur;
            pieces.push(done);
            cur = Vec::new();
        } else {
            cur.push(c);
        }
        i = i + 1;
    }
    assert(s@.take(s@.len() as int) =~= s@);
    pieces.push(cur);
    pieces
}


/// `str::trim_start`: drops leading whitespace.
pub open spec fn trim_start(s: Seq<char>) -> Seq<char>
    decreases s.len(),
{
    if s.len() > 0 && is_ws(s[0]) {
        trim_start(s.drop_first())
    } else {
        s
    }
}

/// `str::trim_end`: drops trailing whitespace.
pub open spec fn trim_end(s: Seq<char>) -> Seq<char>
    decreases s.len(),
{
    if s.len() > 0 && is_ws(s.last()) {
        trim_end(s.drop_last())
    } else {
        s
    }
}

/// `str::trim`.
pub open spec fn trim(s: Seq<char>) -> Seq<char> {
    trim_end(trim_start(s))
}

proof fn lemma_trim_start_skip(s: Seq<char>, i: int)
    requires
        0 <= i <= s.len(),
        forall|j: int| 0 <= j < i ==> is_ws(#[trigger] s[j]),
    ensures
        trim_start(s) == trim_start(s.skip(i)),
    decreases i,
{
    if i > 0 {
        assert(s.skip(1) =~= s.drop_first());
        lemma_trim_start_skip(s.drop_first(), i - 1);
        assert(s.drop_first().skip(i - 1) =~= s.skip(i));
    } else {
        assert(s.skip(0) =~= s);
    }
}

proof fn lemma_trim_end_take(s: Seq<char>, k: int)
    requires
        0 <= k <= s.len(),
        forall|j: int| k <= j < s.len() ==> is_ws(#[trigger] s[j]),
    ensures
        trim_end(s) == trim_end(s.take(k)),
    decreases s.len() - k,
{
    if k < s.len() {
        assert(s.take(s.len() - 1) =~= s.drop_last());
        lemma_trim_end_take(s.drop_last(), k);
        assert(s.drop_last().take(k) =~= s.take(k));
    } else {
        assert(s.take(k) =~= s);
    }
}

/// `str::trim`, as an owned copy.
pub fn trim_chars(s: &[char]) -> (r: Vec<char>)
    ensures
        r@ == trim(s@),
{
    let n = s.len();
    let mut a: usize = 0;
    while a < n && char_is_ws(s[a])
        invariant
            0 <= a <= n == s@.len(),
            forall|j: int| 0 <= j < a ==> is_ws(#[trigger] s@[j]),
        decreases n - a,
    {
        a = a + 1;
    }
    proof {
        lemma_trim_start_skip(s@, a as int);
        if a < n {
            assert(trim_start(s@.skip(a as int)) == s@.skip(a as int));
        } else {
            assert(s@.skip(a as int).len() == 0);
        }
    }
    let mut b: usize = n;
    while b > a && char_is_ws(s[b - 1])
        invariant
            0 <= a <= b <= n == s@.len(),
            forall|j: int| b <= j < n ==> is_ws(#[trigger] s@[j]),
        decreases b,
    {
        b = b - 1;
    }
    let ghost t = s@.skip(a as int);
    proof {
        assert forall|j: int| (b - a) <= j < t.len() implies is_ws(#[trigger] t[j]) by {
            assert(t[j] == s@[j + a]);
        }
        lemma_trim_end_take(t, (b - a) as int);
        if b > a {
            assert(t.take((b - a) as int).last() == s@[b - 1]);
        }
    }
    let mut r: Vec<char> = Vec::new();
    let mut i = a;
    while i < b
        invariant
            a <= i <= b <= s@.len(),
            r@ =~= s@.subrange(a as int, i as int),
        decreases b - i,
    {
        r.push(s[i]);
        i = i + 1;
    }
    assert(t.take((b - a) as int) =~= s@.subrange(a as int, b as int));
    r
}

/// `i` is where `d` first occurs in `s`.
pub open spec fn first_at(s: Seq<char>, d: char, i: int) -> bool {
    &&& 0 <= i < s.len()
    &&& s[i] == d
    &&& forall|j: int| 0 <= j < i ==> s[j] != d
}

/// The first position of `d` in `s`.
pub fn find_char(s: &[char], d: char) -> (r: Option<usize>)
    ensures
        r matches Some(i) ==> first_at(s@, d, i as int),
        r is None ==> !s@.contains(d),
{
    let mut i: usize = 0;
    while i < s.len()
        invariant
            0 <= i <= s@.len(),
            forall|j: int| 0 <= j < i ==> s@[j] != d,
        decreases s@.len() - i,
    {
        if s[i] == d {
            return Some(i);
        }
        i = i + 1;
    }
    None
}

/// The last position of `d` in `s`.
pub open spec fn last_at(s: Seq<char>, d: char, i: int) -> bool {
    &&& 0 <= i < s.len()
    &&& s[i] == d
    &&& forall|j: int| i < j < s.len() ==> s[j] != d
}

/// `str::rfind` for one character.
pub fn rfind_char(s: &[char], d: char) -> (r: Option<usize>)
    ensures
        r matches Some(i) ==> last_at(s@, d, i as int),
        r is None ==> !s@.contains(d),
{
    let mut i: usize = s.len();
    while i > 0
        invariant
            0 <= i <= s@.len(),
            forall|j: int| i <= j < s@.len() ==> s@[j] != d,
        decreases i,
    {
        if s[i - 1] == d {
            return Some(i - 1);
        }
        i = i - 1;
    }
    None
}

/// A copy of `s[from..to]`.
pub fn slice_copy(s: &[char], from: usize, to: usize) -> (r: Vec<char>)
    requires
        from <= to <= s@.len(),
    ensures
        r@ == s@.subrange(from as int, to as int),
{
    let mut r: Vec<char> = Vec::new();
    let mut i = from;
    while i < to
        invariant
            from <= i <= to <= s@.len(),
            r@ =~= s@.subrange(from as int, i as int),
        decreases to - i,
    {
        r.push(s[i]);
        i = i + 1;
    }
    r
}

/// `str::split_once` at one character.
pub open spec fn split_once_spec(s: Seq<char>, d: char) -> Option<(Seq<char>, Seq<char>)> {
    if s.contains(d) {
        let i = choose|i: int| first_at(s, d, i);
        Some((s.take(i), s.skip(i + 1)))
    } else {
        None
    }
}

proof fn lemma_first_at_unique(s: Seq<char>, d: char, i: int, k: int)
    requires
        first_at(s, d, i),
        first_at(s, d, k),
    ensures
        i == k,
{
}

/// `str::split_once` at one character.
pub fn split_once(s: &[char], d: char) -> (r: Option<(Vec<char>, Vec<char>)>)
    ensures
        r matches Some((a, b)) ==> split_once_spec(s@, d) == Some((a@, b@)),
        r is None ==> split_once_spec(s@, d) is None,
{
    match find_char(s, d) {
        None => None,
        Some(i) => {
            assert(first_at(s@, d, i as int));
            let n = s.len();
            assert(i < n);
            proof {
                assert(s@[i as int] == d);
                let k = choose|k: int| first_at(s@, d, k);
                lemma_first_at_unique(s@, d, i as int, k);
            }
            let a = slice_copy(s, 0, i);
            let b = slice_copy(s, i + 1, n);
            assert(a@ =~= s@.take(i as int));
            assert(b@ =~= s@.skip(i + 1));
            Some((a, b))
        },
    }
}

/// `s` starts with `p`.
pub open spec fn has_prefix(s: Seq<char>, p: Seq<char>) -> bool {
    p.len() <= s.len() && s.take(p.len() as int) == p
}

/// `s` ends with `p`.
pub open spec fn has_suffix(s: Seq<char>, p: Seq<char>) -> bool {
    p.len() <= s.len() && s.skip(s.len() - p.len()) == p
}

/// `str::starts_with`.
pub fn starts_with(s: &[char], p: &[char]) -> (r: bool)
    ensures
        r == has_prefix(s@, p@),
{
    if p.len() > s.len() {
        return false;
    }
    let mut i: usize = 0;
    while i < p.len()
        invariant
            0 <= i <= p@.len() <= s@.len(),
            forall|j: int| 0 <= j < i ==> s@[j] == p@[j],
        decreases p@.len() - i,
    {
        if s[i] != p[i] {
            assert(s@.take(p@.len() as int)[i as int] != p@[i as int]);
            return false;
        }
        i = i + 1;
    }
    assert(s@.take(p@.len() as int) =~= p@);
    true
}

/// `str::ends_with`.
pub fn ends_with(s: &[char], p: &[char]) -> (r: bool)
    ensures
        r == has_suffix(s@, p@),
{
    if p.len() > s.len() {
        return false;
    }
    let n = s.len();
    let off = n - p.len();
    let mut i: usize = 0;
    while i < p.len()
        invariant
            0 <= i <= p@.len() <= s@.len(),
            off == s@.len() - p@.len(),
            n == s@.len(),
            forall|j: int| 0 <= j < i ==> s@[off + j] == p@[j],
        decreases p@.len() - i,
    {
        assert(off + i < n);
        if s[off + i] != p[i] {
            assert(s@.skip(off as int)[i as int] != p@[i as int]);
            return false;
        }
        i = i + 1;
    }
    assert(s@.skip(off as int) =~= p@);
    true
}

/// Equality of two character sequences.
pub fn chars_eq(a: &[char], b: &[char]) -> (r: bool)
    ensures
        r == (a@ == b@),
{
    if a.len() != b.len() {
        return false;
    }
    let mut i: usize = 0;
    while i < a.len()
        invariant
            0 <= i <= a@.len() == b@.len(),
            forall|j: int| 0 <= j < i ==> a@[j] == b@[j],
        decreases a@.len() - i,
    {
        if a[i] != b[i] {
            return false;
        }
        i = i + 1;
    }
    assert(a@ =~= b@);
    true
}


/// An ASCII decimal digit.
pub open spec fn is_digit(c: char) -> bool {
    48 <= (c as u32) <= 57
}

/// The value of an ASCII decimal digit.
pub open spec fn digit_val(c: char) -> nat {
    ((c as u32) - 48) as nat
}

/// Every character is an ASCII decimal digit.
pub open spec fn all_digits(s: Seq<char>) -> bool {
    forall|i: int| 0 <= i < s.len() ==> is_digit(#[trigger] s[i])
}

/// The number that a run of decimal digits writes.
pub open spec fn digits_val(s: Seq<char>) -> nat
    decreases s.len(),
{
    if s.len() == 0 {
        0
    } else {
        digits_val(s.drop_last()) * 10 + digit_val(s.last())
    }
}

/// What `FromStr` of an unsigned integer reads, before the range check:
/// an optional `+` and at least one ASCII digit, nothing else.
pub open spec fn unsigned_text(s: Seq<char>) -> Option<nat> {
    let body = if s.len() > 0 && s[0] == '+' {
        s.drop_first()
    } else {
        s
    };
    if body.len() > 0 && all_digits(body) {
        Some(digits_val(body))
    } else {
        None
    }
}

/// What `FromStr` of a signed integer reads, before the range check:
/// an optional `+` or `-` and at least one ASCII digit, nothing else.
pub open spec fn signed_text(s: Seq<char>) -> Option<int> {
    if s.len() > 0 && s[0] == '-' {
        let body = s.drop_first();
        if body.len() > 0 && all_digits(body) {
            Some(-(digits_val(body) as int))
        } else {
            None
        }
    } else {
        match unsigned_text(s) {
            Some(v) => Some(v as int),
            None => None,
        }
    }
}

/// `FromStr` of an unsigned integer type whose largest value is `max`.
pub open spec fn parse_unsigned(s: Seq<char>, max: nat) -> Option<nat> {
    match unsigned_text(s) {
        Some(v) => if v <= max {
            Some(v)
        } else {
            None
        },
        None => None,
    }
}

/// `FromStr` of a signed integer type with range `min..=max`.
pub open spec fn parse_signed(s: Seq<char>, min: int, max: int) -> Option<int> {
    match signed_text(s) {
        Some(v) => if min <= v <= max {
            Some(v)
        } else {
            None
        },
        None => None,
    }
}

proof fn lemma_digits_val_prefix(s: Seq<char>, k: int)
    requires
        0 <= k <= s.len(),
    ensures
        digits_val(s.take(k)) <= digits_val(s),
    decreases s.len(),
{
    if k < s.len() {
        assert(s.take(k) =~= s.drop_last().take(k));
        lemma_digits_val_prefix(s.drop_last(), k);
    } else {
        assert(s.take(k) =~= s);
    }
}

/// Reads `s[from..]` as decimal digits into a `u128`; `None` when it is
/// empty, holds another character, or does not fit.
fn digits_u128(s: &[char], from: usize) -> (r: Option<u128>)
    requires
        from <= s@.len(),
    ensures
        r matches Some(v) ==> {
            &&& s@.skip(from as int).len() > 0
            &&& all_digits(s@.skip(from as int))
            &&& v as nat == digits_val(s@.skip(from as int))
        },
        r is None ==> !(s@.skip(from as int).len() > 0 && all_digits(s@.skip(from as int))
            && digits_val(s@.skip(from as int)) <= u128::MAX),
{
    let ghost body = s@.skip(from as int);
    if from == s.len() {
        return None;
    }
    let mut acc: u128 = 0;
    let mut i = from;
    while i < s.len()
        invariant
            from <= i <= s@.len(),
            body == s@.skip(from as int),
            all_digits(body.take(i - from)),
            acc as nat == digits_val(body.take(i - from)),
        decreases s@.len() - i,
    {
        let c = s[i];
        let u = c as u32;
        assert(body.take(i + 1 - from).drop_last() =~= body.take(i - from));
        assert(body.take(i + 1 - from).last() == c);
        if u < 48 || u > 57 {
            assert(body[i - from] == c);
            return None;
        }
        let d = (u - 48) as u128;
        let next = match acc.checked_mul(10) {
            Some(m) => m.checked_add(d),
            None => None,
        };
        match next {
            Some(nv) => {
                acc = nv;
            },
            None => {
                proof {
                    assert(all_digits(body.take(i + 1 - from)));
                    if body.len() > 0 && all_digits(body) {
                        lemma_digits_val_prefix(body, i + 1 - from);
                    }
                }
                return None;
            },
        }
        i = i + 1;
    }
    assert(body.take(s@.len() - from) =~= body);
    Some(acc)
}

/// The magnitude after an optional leading `+`.
fn unsigned_u128(s: &[char]) -> (r: Option<u128>)
    ensures
        r matches Some(v) ==> unsigned_text(s@) == Some(v as nat),
        r is None ==> (unsigned_text(s@) is None || unsigned_text(s@)->0 > u128::MAX),
{
    let from: usize = if s.len() > 0 && s[0] == '+' {
        1
    } else {
        0
    };
    assert(from == 1 ==> s@.skip(1) =~= s@.drop_first());
    assert(s@.skip(0) =~= s@);
    digits_u128(s, from)
}

/// `u64::from_str`.
pub fn parse_u64(s: &[char]) -> (r: Option<u64>)
    ensures
        r matches Some(v) ==> parse_unsigned(s@, u64::MAX as nat) == Some(v as nat),
        r is None ==> parse_unsigned(s@, u64::MAX as nat) is None,
{
    match unsigned_u128(s) {
        Some(v) => if v <= u64::MAX as u128 {
            Some(v as u64)
        } else {
            None
        },
        None => None,
    }
}

/// `usize::from_str`.
pub fn parse_usize(s: &[char]) -> (r: Option<usize>)
    ensures
        r matches Some(v) ==> parse_unsigned(s@, usize::MAX as nat) == Some(v as nat),
        r is None ==> parse_unsigned(s@, usize::MAX as nat) is None,
{
    match unsigned_u128(s) {
        Some(v) => if v <= usize::MAX as u128 {
            Some(v as usize)
        } else {
            None
        },
        None => None,
    }
}

/// `u32::from_str`.
pub fn parse_u32(s: &[char]) -> (r: Option<u32>)
    ensures
        r matches Some(v) ==> parse_unsigned(s@, u32::MAX as nat) == Some(v as nat),
        r is None ==> parse_unsigned(s@, u32::MAX as nat) is None,
{
    match unsigned_u128(s) {
        Some(v) => if v <= u32::MAX as u128 {
            Some(v as u32)
        } else {
            None
        },
        None => None,
    }
}

/// Signed magnitude: `(negative, magnitude)` of `s`.
fn signed_parts(s: &[char]) -> (r: Option<(bool, u128)>)
    ensures
        r matches Some((neg, m)) ==> signed_text(s@) == Some(
            if neg {
                -(m as int)
            } else {
                m as int
            },
        ),
        r is None ==> (signed_text(s@) is None || signed_text(s@)->0 > u128::MAX
            || signed_text(s@)->0 < -(u128::MAX as int)),
{
    if s.len() > 0 && s[0] == '-' {
        assert(s@.skip(1) =~= s@.drop_first());
        match digits_u128(s, 1) {
            Some(m) => Some((true, m)),
            None => None,
        }
    } else {
        match unsigned_u128(s) {
            Some(m) => Some((false, m)),
            None => None,
        }
    }
}

/// `i64::from_str`.
pub fn parse_i64(s: &[char]) -> (r: Option<i64>)
    ensures
        r matches Some(v) ==> parse_signed(s@, i64::MIN as int, i64::MAX as int) == Some(
            v as int,
        ),
        r is None ==> parse_signed(s@, i64::MIN as int, i64::MAX as int) is None,
{
    match signed_parts(s) {
        Some((neg, m)) => if neg {
            if m <= 0x8000_0000_0000_0000u128 {
                if m == 0x8000_0000_0000_0000u128 {
                    Some(i64::MIN)
                } else {
                    Some(-(m as i64))
                }
            } else {
                None
            }
        } else {
            if m <= i64::MAX as u128 {
                Some(m as i64)
            } else {
                None
            }
        },
        None => None,
    }
}

/// `i32::from_str`.
pub fn parse_i32(s: &[char]) -> (r: Option<i32>)
    ensures
        r matches Some(v) ==> parse_signed(s@, i32::MIN as int, i32::MAX as int) == Some(
            v as int,
        ),
        r is None ==> parse_signed(s@, i32::MIN as int, i32::MAX as int) is None,
{
    match parse_i64(s) {
        Some(v) => if i32::MIN as i64 <= v && v <= i32::MAX as i64 {
            Some(v as i32)
        } else {
            None
        },
        None => None,
    }
}

/// `isize::from_str`.
pub fn parse_isize(s: &[char]) -> (r: Option<isize>)
    ensures
        r matches Some(v) ==> parse_signed(s@, isize::MIN as int, isize::MAX as int) == Some(
            v as int,
        ),
        r is None ==> parse_signed(s@, isize::MIN as int, isize::MAX as int) is None,
{
    match parse_i64(s) {
        Some(v) => if isize::MIN as i64 <= v && v <= isize::MAX as i64 {
            Some(v as isize)
        } else {
            None
        },
        None => None,
    }
}

/// The ASCII digit for `d < 10`.
pub open spec fn digit_char(d: nat) -> char {
    ((48 + d) as u32) as char
}

/// The decimal text of `n`, as `Display` writes it.
pub open spec fn dec(n: nat) -> Seq<char>
    decreases n,
{
    if n < 10 {
        seq![digit_char(n)]
    } else {
        dec(n / 10).push(digit_char(n % 10))
    }
}

/// The decimal text of a signed number, with `-` before a negative one.
pub open spec fn dec_int(n: int) -> Seq<char> {
    if n < 0 {
        seq!['-'] + dec((-n) as nat)
    } else {
        dec(n as nat)
    }
}

/// Writes `n` in decimal.
pub fn fmt_u128(n: u128) -> (r: Vec<char>)
    ensures
        r@ == dec(n as nat),
    decreases n,
{
    let d = (n % 10) as u32;
    let c = char_from_digit(d);
    if n < 10 {
        let mut v: Vec<char> = Vec::new();
        v.push(c);
        v
    } else {
        let mut v = fmt_u128(n / 10);
        v.push(c);
        v
    }
}

fn char_from_digit(d: u32) -> (c: char)
    requires
        d < 10,
    ensures
        c == digit_char(d as nat),
{
    let b: u8 = 48u8 + (d as u8);
    b as char
}

/// Writes a signed number in decimal.
pub fn fmt_i128(n: i128) -> (r: Vec<char>)
    requires
        n > i128::MIN,
    ensures
        r@ == dec_int(n as int),
{
    if n < 0 {
        let mut v: Vec<char> = Vec::new();
        v.push('-');
        let m = fmt_u128((-n) as u128);
        let mut i: usize = 0;
        while i < m.len()
            invariant
                0 <= i <= m@.len(),
                v@ =~= seq!['-'] + m@.take(i as int),
            decreases m@.len() - i,
        {
            v.push(m[i]);
            i = i + 1;
        }
        assert(m@.take(m@.len() as int) =~= m@);
        v
    } else {
        fmt_u128(n as u128)
    }
}

/// Appends `b` to `a`.
pub fn push_all(a: &mut Vec<char>, b: &[char])
    ensures
        final(a)@ == old(a)@ + b@,
{
    let ghost a0 = a@;
    let mut i: usize = 0;
    while i < b.len()
        invariant
            0 <= i <= b@.len(),
            a@ =~= a0 + b@.take(i as int),
        decreases b@.len() - i,
    {
        a.push(b[i]);
        i = i + 1;
    }
    assert(b@.take(b@.len() as int) =~= b@);
}

/// The characters of a string slice.
pub fn chars_of(s: &str) -> (r: Vec<char>)
    ensures
        r@ == s@,
{
    broadcast use vstd::string::axiom_spec_iter;
    let mut r: Vec<char> = Vec::new();
    for c in it: s.chars()
        invariant
            r@ == it.seq().take(it.index() as int),
            it.seq() == s@,
    {
        r.push(c);
    }
    r
}

/// A string made of the given characters.
#[verifier::external_body]
pub(crate) fn string_of(s: &[char]) -> (r: String)
    ensures
        r@ == s@,
{
    s.iter().collect()
}

/// What `str::to_lowercase` returns for a text.
pub uninterp spec fn lowercase(s: Seq<char>) -> Seq<char>;

/// Every character is ASCII.
pub open spec fn all_ascii_chars(s: Seq<char>) -> bool {
    forall|i: int| 0 <= i < s.len() ==> (#[trigger] s[i] as u32) < 128
}

/// Calls `str::to_lowercase` on the text and returns its characters; the
/// result is named `lowercase` of the input. For ASCII text it is the text
/// with its letters `A`..`Z` made lowercase (the Unicode lowercase mapping
/// of an ASCII character is its ASCII lowercase); of other text nothing
/// more is claimed.
#[verifier::external_body]
pub(crate) fn to_lowercase(s: &[char]) -> (r: Vec<char>)
    ensures
        r@ == lowercase(s@),
        all_ascii_chars(s@) ==> r@ == crate::hack::ascii_lower(s@),
{
    let t: String = s.iter().collect();
    t.to_lowercase().chars().collect()
}

/// `a` holds the same characters as the literal `b`.
pub fn eq_str(a: &[char], b: &str) -> (r: bool)
    ensures
        r == (a@ == b@),
{
    let bc = chars_of(b);
    chars_eq(a, &bc)
}

/// A string made of the literal `prefix` followed by `s`.
pub fn text_with(prefix: &str, s: &[char]) -> (r: String)
    ensures
        r@ == prefix@ + s@,
{
    let mut t = chars_of(prefix);
    push_all(&mut t, s);
    string_of(&t)
}

/// `s.parse::<usize>().unwrap_or(d)`.
pub open spec fn usize_or(s: Seq<char>, d: usize) -> usize {
    match parse_unsigned(s, usize::MAX as nat) {
        Some(v) => v as usize,
        None => d,
    }
}

/// `s.parse::<u64>().unwrap_or(d)`.
pub open spec fn u64_or(s: Seq<char>, d: u64) -> u64 {
    match parse_unsigned(s, u64::MAX as nat) {
        Some(v) => v as u64,
        None => d,
    }
}

/// `s.parse::<u32>().unwrap_or(d)`.
pub open spec fn u32_or(s: Seq<char>, d: u32) -> u32 {
    match parse_unsigned(s, u32::MAX as nat) {
        Some(v) => v as u32,
        None => d,
    }
}

/// Reads a `usize`, or gives `d` for text that is none.
pub fn parse_usize_or(s: &[char], d: usize) -> (r: usize)
    ensures
        r == usize_or(s@, d),
{
    match parse_usize(s) {
        Some(v) => v,
        None => d,
    }
}

/// Reads a `u64`, or gives `d` for text that is none.
pub fn parse_u64_or(s: &[char], d: u64) -> (r: u64)
    ensures
        r == u64_or(s@, d),
{
    match parse_u64(s) {
        Some(v) => v,
        None => d,
    }
}

/// Reads a `u32`, or gives `d` for text that is none.
pub fn parse_u32_or(s: &[char], d: u32) -> (r: u32)
    ensures
        r == u32_or(s@, d),
{
    match parse_u32(s) {
        Some(v) => v,
        None => d,
    }
}

/// A `key<d>value` line cut at the first `d`: the key trimmed and in
/// lowercase, the value trimmed.
pub open spec fn key_value(line: Seq<char>, d: char) -> Option<(Seq<char>, Seq<char>)> {
    match split_once_spec(line, d) {
        Some((k, v)) => Some((lowercase(trim(k)), trim(v))),
        None => None,
    }
}

/// Cuts a `key<d>value` line: the key trimmed and in lowercase, the value
/// trimmed.
pub fn split_key_value(line: &[char], d: char) -> (r: Option<(Vec<char>, Vec<char>)>)
    ensures
        match r {
            Some((k, v)) => key_value(line@, d) == Some((k@, v@)),
            None => key_value(line@, d) is None,
        },
{
    match split_once(line, d) {
        Some((k, v)) => {
            let kt = trim_chars(&k);
            let key = to_lowercase(&kt);
            let value = trim_chars(&v);
            Some((key, value))
        },
        None => None,
    }
}

/// The string holds the same characters as the literal.
pub fn string_is(s: &String, lit: &str) -> (r: bool)
    ensures
        r == (s@ == lit@),
{
    let a = chars_of(s.as_str());
    eq_str(&a, lit)
}

/// Each piece made a string.
pub fn strings_of(pieces: &Vec<Vec<char>>) -> (r: Vec<String>)
    ensures
        r@.len() == pieces@.len(),
        forall|i: int| 0 <= i < pieces@.len() ==> #[trigger] r@[i]@ == pieces@[i]@,
{
    let mut r: Vec<String> = Vec::new();
    let mut i: usize = 0;
    while i < pieces.len()
        invariant
            0 <= i <= pieces@.len(),
            r@.len() == i,
            forall|j: int| 0 <= j < i ==> #[trigger] r@[j]@ == pieces@[j]@,
        decreases pieces@.len() - i,
    {
        r.push(string_of(&pieces[i]));
        i = i + 1;
    }
    r
}

/// The pieces joined with `sep` between them.
pub open spec fn join_with(parts: Seq<Seq<char>>, sep: char) -> Seq<char>
    decreases parts.len(),
{
    if parts.len() == 0 {
        Seq::empty()
    } else if parts.len() == 1 {
        parts[0]
    } else {
        join_with(parts.drop_last(), sep) + seq![sep] + parts.last()
    }
}

/// Joins pieces with `sep` between them.
pub fn join_pieces(parts: &Vec<Vec<char>>, sep: char) -> (r: Vec<char>)
    ensures
        r@ == join_with(parts@.map_values(|p: Vec<char>| p@), sep),
{
    let ghost ps = parts@.map_values(|p: Vec<char>| p@);
    let mut r: Vec<char> = Vec::new();
    let mut i: usize = 0;
    while i < parts.len()
        invariant
            0 <= i <= parts@.len() == ps.len(),
            ps == parts@.map_values(|p: Vec<char>| p@),
            r@ == join_with(ps.take(i as int), sep),
        decreases parts@.len() - i,
    {
        assert(ps.take(i + 1).drop_last() =~= ps.take(i as int));
        if i > 0 {
            r.push(sep);
        }
        push_all(&mut r, &parts[i]);
        i = i + 1;
    }
    assert(ps.take(parts@.len() as int) =~= ps);
    r
}

/// Whether the string is empty.
pub fn string_empty(s: &String) -> (r: bool)
    ensures
        r == (s@.len() == 0),
{
    let c = chars_of(s.as_str());
    c.len() == 0
}

} // verus!
