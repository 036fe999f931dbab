//! IP address utilities: classification, numeric forms and CIDR ranges.
use vstd::prelude::*;

use crate::error::{Error, ErrorType};
use crate::text::{
    all_digits, chars_of, dec, digit_char, digits_val, fmt_u128, is_digit, parse_signed, parse_unsigned, push_all,
    split_char, split_on, split_state, text_with,
};

verus! {

/// Namespace of the IP address utilities.
#[derive(Debug)]
pub struct Ip;

/// The version of an IP address.
#[derive(Debug, Clone, Copy, PartialEq, Eq, Structural)]
pub enum IpVersion {
    V4,
    V6,
}

/// A parsed IP address as a number.
#[derive(Debug, Clone, Copy, PartialEq, Eq, Structural)]
pub enum IpValue {
    V4(u32),
    V6(u128),
}

/// The octets of an IPv4 address, most significant first.
pub open spec fn octet(a: u32, k: nat) -> nat {
    ((a as nat) / pow256(3 - k)) % 256
}

/// `256` to the power `k`, for `k <= 3`.
pub open spec fn pow256(k: int) -> nat {
    if k <= 0 {
        1
    } else if k == 1 {
        256
    } else if k == 2 {
        65536
    } else {
        16777216
    }
}

/// Dotted-decimal text of an IPv4 address, as `Ipv4Addr`'s `Display`
/// writes it.
pub open spec fn ipv4_text(a: u32) -> Seq<char> {
    dec(octet(a, 0)) + seq!['.'] + dec(octet(a, 1)) + seq!['.'] + dec(octet(a, 2)) + seq!['.']
        + dec(octet(a, 3))
}

/// Writes an IPv4 address in dotted decimal.
pub fn format_ipv4(a: u32) -> (r: Vec<char>)
    ensures
        r@ == ipv4_text(a),
{
    let o0 = fmt_u128((a / 16777216) as u128);
    let o1 = fmt_u128(((a / 65536) % 256) as u128);
    let o2 = fmt_u128(((a / 256) % 256) as u128);
    let o3 = fmt_u128((a % 256) as u128);
    assert((a / 16777216) as nat == octet(a, 0)) by {
        assert(a as nat / 16777216 < 256);
    }
    let mut r = o0;
    r.push('.');
    push_all(&mut r, &o1);
    r.push('.');
    push_all(&mut r, &o2);
    r.push('.');
    push_all(&mut r, &o3);
    r
}

/// `Ipv4Addr::is_private`: `10.0.0.0/8`, `172.16.0.0/12`, `192.168.0.0/16`.
pub open spec fn v4_is_private(a: u32) -> bool {
    ||| octet(a, 0) == 10
    ||| (octet(a, 0) == 172 && 16 <= octet(a, 1) <= 31)
    ||| (octet(a, 0) == 192 && octet(a, 1) == 168)
}

/// The IPv4 addresses that `Ip::is_bogon` reports: private, loopback
/// (`127.0.0.0/8`), link-local (`169.254.0.0/16`), multicast
/// (`224.0.0.0/4`), documentation (`192.0.2.0/24`, `198.51.100.0/24`,
/// `203.0.113.0/24`) and those in `0.0.0.0/8`.
pub open spec fn v4_is_bogon(a: u32) -> bool {
    ||| v4_is_private(a)
    ||| octet(a, 0) == 127
    ||| (octet(a, 0) == 169 && octet(a, 1) == 254)
    ||| (224 <= octet(a, 0) <= 239)
    ||| (octet(a, 0) == 192 && octet(a, 1) == 0 && octet(a, 2) == 2)
    ||| (octet(a, 0) == 198 && octet(a, 1) == 51 && octet(a, 2) == 100)
    ||| (octet(a, 0) == 203 && octet(a, 1) == 0 && octet(a, 2) == 113)
    ||| octet(a, 0) == 0
}

/// The first 16-bit segment of an IPv6 address.
pub open spec fn v6_segment0(v: u128) -> nat {
    (v as nat) / 0x1_0000_0000_0000_0000_0000_0000_0000
}

/// The IPv6 addresses that `Ip::is_bogon` reports: loopback (`::1`),
/// unspecified (`::`), multicast (`ff00::/8`) and unique local
/// (`fc00::/7`).
pub open spec fn v6_is_bogon(v: u128) -> bool {
    ||| v == 1
    ||| v == 0
    ||| v6_segment0(v) >= 0xff00
    ||| (0xfc00 <= v6_segment0(v) <= 0xfdff)
}

/// The texts joined with `.` between them.
pub open spec fn join_dots(parts: Seq<Seq<char>>) -> Seq<char>
    decreases parts.len(),
{
    if parts.len() == 0 {
        Seq::empty()
    } else if parts.len() == 1 {
        parts[0]
    } else {
        join_dots(parts.drop_last()) + seq!['.'] + parts.last()
    }
}

/// Each piece has at most three characters and reads as an integer in
/// `0..=255`.
pub open spec fn all_octets(parts: Seq<Seq<char>>) -> bool {
    forall|i: int|
        0 <= i < parts.len() ==> {
            &&& parts[i].len() <= 3
            &&& #[trigger] parse_signed(parts[i], isize::MIN as int, isize::MAX as int) is Some
            &&& 0 <= parse_signed(parts[i], isize::MIN as int, isize::MAX as int)->0 <= 255
        }
}

/// The decimal text of each piece's value.
pub open spec fn octet_texts(parts: Seq<Seq<char>>) -> Seq<Seq<char>> {
    Seq::new(
        parts.len(),
        |i: int| dec(parse_signed(parts[i], isize::MIN as int, isize::MAX as int)->0 as nat),
    )
}

/// `2^(w - p)` bits cleared from the top: the network mask of a prefix.
pub open spec fn mask_v4(p: u32) -> u32 {
    if p == 0 {
        0
    } else {
        (0xffff_ffffu32 << ((32 - p) as u32)) as u32
    }
}

/// The network mask of an IPv6 prefix.
pub open spec fn mask_v6(p: u32) -> u128 {
    if p == 0 {
        0
    } else {
        (0xffff_ffff_ffff_ffff_ffff_ffff_ffff_ffffu128 << ((128 - p) as u128)) as u128
    }
}

fn get_mask_v4(prefix: u32) -> (r: u32)
    requires
        prefix <= 32,
    ensures
        r == mask_v4(prefix),
{
    if prefix == 0 {
        0
    } else {
        u32::MAX << (32 - prefix)
    }
}

fn get_mask_v6(prefix: u32) -> (r: u128)
    requires
        prefix <= 128,
    ensures
        r == mask_v6(prefix),
{
    if prefix == 0 {
        0
    } else {
        u128::MAX << ((128 - prefix) as u128)
    }
}

/// `n` is the number of leading zero bits of the 128-bit `x`.
pub open spec fn is_lz128(x: u128, n: u32) -> bool {
    &&& n <= 128
    &&& (n == 128 <==> x == 0)
    &&& (0 < n < 128 ==> x >> ((128 - n) as u128) == 0)
    &&& (n < 128 ==> (x >> ((127 - n) as u128)) & 1 == 1)
}

/// The number of leading zero bits of a 128-bit number.
pub open spec fn lz128(x: u128) -> u32 {
    choose|n: u32| is_lz128(x, n)
}

proof fn lemma_lz128_unique(x: u128, n: u32, m: u32)
    requires
        is_lz128(x, n),
        is_lz128(x, m),
    ensures
        n == m,
{
    assert(n == m) by (bit_vector)
        requires
            is_lz128(x, n),
            is_lz128(x, m),
    ;
}

/// Searching down from bit `127 - n`, where the bits above are zero, finds
/// the count of leading zero bits of a nonzero number.
proof fn lz128_search(x: u128, n: u32) -> (r: u32)
    requires
        x != 0,
        n < 128,
        n > 0 ==> x >> ((128 - n) as u128) == 0,
    ensures
        is_lz128(x, r),
    decreases 128 - n,
{
    if (x >> ((127 - n) as u128)) & 1 == 1 {
        n
    } else {
        assert(n < 127) by (bit_vector)
            requires
                x != 0,
                n < 128,
                n > 0 ==> x >> ((128 - n) as u128) == 0,
                (x >> ((127 - n) as u128)) & 1 != 1,
        ;
        assert(x >> ((128 - (n + 1)) as u128) == 0) by (bit_vector)
            requires
                n < 127,
                n > 0 ==> x >> ((128 - n) as u128) == 0,
                (x >> ((127 - n) as u128)) & 1 != 1,
        ;
        lz128_search(x, (n + 1) as u32)
    }
}

/// Every 128-bit number has a count of leading zero bits.
proof fn lz128_witness(x: u128) -> (n: u32)
    ensures
        is_lz128(x, n),
{
    if x == 0 {
        128
    } else {
        lz128_search(x, 0)
    }
}

/// `u128::leading_zeros`.
fn leading_zeros128(x: u128) -> (r: u32)
    ensures
        is_lz128(x, r),
        r == lz128(x),
{
    if x == 0 {
        assert(is_lz128(x, 128));
        proof {
            lemma_lz128_unique(x, 128, lz128(x));
        }
        return 128;
    }
    let mut n: u32 = 0;
    while (x >> ((127 - n) as u128)) & 1 == 0
        invariant
            x != 0,
            n < 128,
            n > 0 ==> x >> ((128 - n) as u128) == 0,
        decreases 128 - n,
    {
        assert(n < 127) by (bit_vector)
            requires
                x != 0,
                n < 128,
                n > 0 ==> x >> ((128 - n) as u128) == 0,
                (x >> ((127 - n) as u128)) & 1 == 0,
        ;
        assert(x >> ((128 - (n + 1)) as u128) == 0) by (bit_vector)
            requires
                n < 127,
                n > 0 ==> x >> ((128 - n) as u128) == 0,
                (x >> ((127 - n) as u128)) & 1 == 0,
        ;
        n = n + 1;
    }
    let y = x >> ((127 - n) as u128);
    assert(y & 1 != 0 ==> y & 1 == 1) by (bit_vector);
    proof {
        lemma_lz128_unique(x, n, lz128(x));
    }
    n
}


/// One octet of a dotted-decimal address: one to three ASCII digits, at
/// most 255, and no leading zero unless the octet is `0` itself.
pub open spec fn octet_text_ok(p: Seq<char>) -> bool {
    &&& 1 <= p.len() <= 3
    &&& all_digits(p)
    &&& digits_val(p) <= 255
    &&& !(p.len() > 1 && p[0] == '0')
}

/// `str::parse::<Ipv4Addr>`, as a number: four octets in decimal divided
/// by `.`, without octal or hexadecimal forms.
pub open spec fn ipv4_parse(s: Seq<char>) -> Option<u32> {
    let parts = split_on(s, '.');
    if parts.len() == 4 && forall|i: int| 0 <= i < 4 ==> octet_text_ok(#[trigger] parts[i]) {
        Some(
            (digits_val(parts[0]) * 16777216 + digits_val(parts[1]) * 65536 + digits_val(parts[2])
                * 256 + digits_val(parts[3])) as u32,
        )
    } else {
        None
    }
}

fn octet_value(p: &[char]) -> (r: Option<u32>)
    ensures
        r matches Some(v) ==> octet_text_ok(p@) && v as nat == digits_val(p@),
        r is None ==> !octet_text_ok(p@),
{
    if p.len() == 0 || p.len() > 3 {
        return None;
    }
    if p.len() > 1 && p[0] == '0' {
        return None;
    }
    match crate::text::parse_u32(p) {
        None => None,
        Some(v) => {
            proof {
                if p@[0] == '+' {
                    assert(!crate::text::is_digit(p@[0]));
                }
                assert(!(p@.len() > 0 && p@[0] == '+') ==> crate::text::unsigned_text(p@)
                    == if p@.len() > 0 && all_digits(p@) {
                    Some(digits_val(p@))
                } else {
                    None
                });
            }
            if p[0] == '+' {
                return None;
            }
            if v <= 255 {
                Some(v)
            } else {
                None
            }
        },
    }
}

/// Parses dotted-decimal IPv4 text into its number.
pub fn parse_ipv4(s: &[char]) -> (r: Option<u32>)
    ensures
        r == ipv4_parse(s@),
{
    let parts = split_char(s, '.');
    if parts.len() != 4 {
        return None;
    }
    let a = octet_value(&parts[0]);
    let b = octet_value(&parts[1]);
    let c = octet_value(&parts[2]);
    let d = octet_value(&parts[3]);
    match (a, b, c, d) {
        (Some(a), Some(b), Some(c), Some(d)) => {
            assert(forall|i: int| 0 <= i < 4 ==> octet_text_ok(#[trigger] split_on(s@, '.')[i]))
                by {
                assert(parts@[0]@ == split_on(s@, '.')[0]);
                assert(parts@[1]@ == split_on(s@, '.')[1]);
                assert(parts@[2]@ == split_on(s@, '.')[2]);
                assert(parts@[3]@ == split_on(s@, '.')[3]);
            }
            Some(a * 16777216 + b * 65536 + c * 256 + d)
        },
        _ => {
            proof {
                assert(parts@[0]@ == split_on(s@, '.')[0]);
                assert(parts@[1]@ == split_on(s@, '.')[1]);
                assert(parts@[2]@ == split_on(s@, '.')[2]);
                assert(parts@[3]@ == split_on(s@, '.')[3]);
            }
            None
        },
    }
}


/// An ASCII hexadecimal digit.
pub open spec fn is_hex(c: char) -> bool {
    ||| 48 <= (c as u32) <= 57
    ||| 97 <= (c as u32) <= 102
    ||| 65 <= (c as u32) <= 70
}

/// The value of an ASCII hexadecimal digit.
pub open spec fn hex_val(c: char) -> nat {
    if (c as u32) <= 57 {
        ((c as u32) - 48) as nat
    } else if (c as u32) <= 70 {
        ((c as u32) - 55) as nat
    } else {
        ((c as u32) - 87) as nat
    }
}

/// The number that a run of hexadecimal digits writes.
pub open spec fn hex_digits_val(s: Seq<char>) -> nat
    decreases s.len(),
{
    if s.len() == 0 {
        0
    } else {
        hex_digits_val(s.drop_last()) * 16 + hex_val(s.last())
    }
}

/// One group of an IPv6 address: one to four hexadecimal digits.
pub open spec fn hex_group_ok(p: Seq<char>) -> bool {
    &&& 1 <= p.len() <= 4
    &&& forall|i: int| 0 <= i < p.len() ==> is_hex(#[trigger] p[i])
}

/// The pieces of a `:`-separated run, or none for the empty text.
pub open spec fn colon_pieces(s: Seq<char>) -> Seq<Seq<char>> {
    if s.len() == 0 {
        Seq::empty()
    } else {
        split_on(s, ':')
    }
}

/// The 16-bit values of a run of groups, where the last piece may be a
/// dotted-decimal IPv4 address standing for two groups. `None` when a
/// piece is malformed.
pub open spec fn group_values(pieces: Seq<Seq<char>>, ipv4_last: bool) -> Option<Seq<nat>>
    decreases pieces.len(),
{
    if pieces.len() == 0 {
        Some(Seq::empty())
    } else if pieces.len() == 1 && ipv4_last && ipv4_parse(pieces[0]) is Some {
        let a = ipv4_parse(pieces[0])->0;
        Some(seq![(a as nat) / 65536, (a as nat) % 65536])
    } else if hex_group_ok(pieces[0]) {
        match group_values(pieces.drop_first(), ipv4_last) {
            Some(rest) => Some(seq![hex_digits_val(pieces[0])] + rest),
            None => None,
        }
    } else {
        None
    }
}

/// The number that eight 16-bit groups make, first group most significant.
pub open spec fn groups_value(g: Seq<nat>) -> nat
    decreases g.len(),
{
    if g.len() == 0 {
        0
    } else {
        groups_value(g.drop_last()) * 65536 + g.last()
    }
}

/// `i` is where `::` first occurs in `s`.
pub open spec fn first_double_colon(s: Seq<char>, i: int) -> bool {
    &&& 0 <= i && i + 1 < s.len()
    &&& s[i] == ':' && s[i + 1] == ':'
    &&& forall|j: int| 0 <= j < i ==> !(#[trigger] s[j] == ':' && s[j + 1] == ':')
}

/// The groups that an IPv6 text stands for: eight groups, or six groups
/// and an IPv4 address; or groups before and after one `::` that stands
/// for at least one zero group.
pub open spec fn ipv6_groups(s: Seq<char>) -> Option<Seq<nat>> {
    if exists|i: int| first_double_colon(s, i) {
        let i = choose|i: int| first_double_colon(s, i);
        let head = group_values(colon_pieces(s.take(i)), false);
        let tail = group_values(colon_pieces(s.skip(i + 2)), true);
        match (head, tail) {
            (Some(h), Some(t)) => if h.len() + t.len() <= 7 {
                Some(h + Seq::new((8 - h.len() - t.len()) as nat, |k: int| 0nat) + t)
            } else {
                None
            },
            _ => None,
        }
    } else {
        match group_values(split_on(s, ':'), true) {
            Some(g) => if g.len() == 8 {
                Some(g)
            } else {
                None
            },
            None => None,
        }
    }
}

/// `str::parse::<Ipv6Addr>`, as a number.
pub open spec fn ipv6_parse(s: Seq<char>) -> Option<u128> {
    match ipv6_groups(s) {
        Some(g) => Some(groups_value(g) as u128),
        None => None,
    }
}

/// `str::parse::<IpAddr>`: an IPv4 address, else an IPv6 address.
pub open spec fn ip_parse(s: Seq<char>) -> Option<IpValue> {
    match ipv4_parse(s) {
        Some(a) => Some(IpValue::V4(a)),
        None => match ipv6_parse(s) {
            Some(v) => Some(IpValue::V6(v)),
            None => None,
        },
    }
}

fn hex_group_value(p: &[char]) -> (r: Option<u32>)
    ensures
        r matches Some(v) ==> hex_group_ok(p@) && v as nat == hex_digits_val(p@) && v < 65536,
        r is None ==> !hex_group_ok(p@),
{
    if p.len() == 0 || p.len() > 4 {
        return None;
    }
    let mut acc: u32 = 0;
    let mut i: usize = 0;
    while i < p.len()
        invariant
            0 <= i <= p@.len() <= 4,
            forall|j: int| 0 <= j < i ==> is_hex(#[trigger] p@[j]),
            acc as nat == hex_digits_val(p@.take(i as int)),
            acc < pow16(i as nat),
        decreases p@.len() - i,
    {
        let c = p[i];
        let u = c as u32;
        let d: u32 = if 48 <= u && u <= 57 {
            u - 48
        } else if 97 <= u && u <= 102 {
            u - 87
        } else if 65 <= u && u <= 70 {
            u - 55
        } else {
            return None;
        };
        assert(p@.take(i + 1).drop_last() =~= p@.take(i as int));
        proof {
            lemma_pow16_small();
        }
        assert(pow16((i + 1) as nat) == pow16(i as nat) * 16);
        assert(acc < 4096);
        acc = acc * 16 + d;
        i = i + 1;
    }
    assert(p@.take(p@.len() as int) =~= p@);
    proof {
        lemma_pow16_small();
    }
    Some(acc)
}

/// `16` to the power `k`, for small `k`.
pub open spec fn pow16(k: nat) -> nat
    decreases k,
{
    if k == 0 {
        1
    } else {
        16 * pow16((k - 1) as nat)
    }
}


proof fn lemma_pow16_small()
    ensures
        pow16(0) == 1,
        pow16(1) == 16,
        pow16(2) == 256,
        pow16(3) == 4096,
        pow16(4) == 65536,
{
    reveal_with_fuel(pow16, 5);
}


/// `a` put before the groups in `o`, when there are any.
pub open spec fn prepend_groups(a: Seq<nat>, o: Option<Seq<nat>>) -> Option<Seq<nat>> {
    match o {
        Some(t) => Some(a + t),
        None => None,
    }
}

/// The values of a vector of groups.
pub open spec fn vals_of(v: Seq<u32>) -> Seq<nat> {
    Seq::new(v.len(), |i: int| v[i] as nat)
}

fn groups_of_pieces(pieces: &Vec<Vec<char>>, ipv4_last: bool) -> (r: Option<Vec<u32>>)
    ensures
        r matches Some(v) ==> group_values(pieces@.map_values(|p: Vec<char>| p@), ipv4_last)
            == Some(vals_of(v@)),
        r is None ==> group_values(pieces@.map_values(|p: Vec<char>| p@), ipv4_last) is None,
        r matches Some(v) ==> forall|i: int| 0 <= i < v@.len() ==> v@[i] < 65536,
{
    let ghost view = pieces@.map_values(|p: Vec<char>| p@);
    let mut vals: Vec<u32> = Vec::new();
    let mut k: usize = 0;
    let n = pieces.len();
    proof {
        assert(view.skip(0) =~= view);
        assert(vals_of(vals@) =~= Seq::<nat>::empty());
        if let Some(t) = group_values(view, ipv4_last) {
            assert(Seq::<nat>::empty() + t =~= t);
        }
    }
    while k < n
        invariant
            0 <= k <= n == pieces@.len() == view.len(),
            view == pieces@.map_values(|p: Vec<char>| p@),
            group_values(view, ipv4_last) == prepend_groups(
                vals_of(vals@),
                group_values(view.skip(k as int), ipv4_last),
            ),
            forall|i: int| 0 <= i < vals@.len() ==> vals@[i] < 65536,
        decreases n - k,
    {
        let ghost rest = view.skip(k as int);
        assert(rest[0] == pieces@[k as int]@);
        assert(rest.drop_first() =~= view.skip(k + 1));
        if k + 1 == n && ipv4_last {
            if let Some(a) = parse_ipv4(&pieces[k]) {
                assert(rest.len() == 1);
                let hi = a / 65536;
                let lo = a % 65536;
                vals.push(hi);
                vals.push(lo);
                assert(view.skip(n as int) =~= Seq::<Seq<char>>::empty());
                assert(vals_of(vals@) =~= vals_of(vals@.take(vals@.len() - 2)) + seq![
                    (a as nat) / 65536,
                    (a as nat) % 65536,
                ]);
                return Some(vals);
            }
        }
        match hex_group_value(&pieces[k]) {
            None => {
                return None;
            },
            Some(v) => {
                let ghost before = vals@;
                vals.push(v);
                assert(vals_of(vals@) =~= vals_of(before) + seq![hex_digits_val(rest[0])]);
                assert(vals_of(before) + (seq![hex_digits_val(rest[0])] + Seq::<nat>::empty())
                    =~= vals_of(vals@) + Seq::<nat>::empty());
            },
        }
        k = k + 1;
    }
    assert(view.skip(n as int) =~= Seq::<Seq<char>>::empty());
    assert(vals_of(vals@) + Seq::<nat>::empty() =~= vals_of(vals@));
    Some(vals)
}

/// `65536` to the power `k`.
pub open spec fn pow65536(k: nat) -> nat
    decreases k,
{
    if k == 0 {
        1
    } else {
        65536 * pow65536((k - 1) as nat)
    }
}

proof fn lemma_groups_value_bound(g: Seq<nat>)
    requires
        forall|i: int| 0 <= i < g.len() ==> g[i] < 65536,
    ensures
        groups_value(g) < pow65536(g.len()),
    decreases g.len(),
{
    if g.len() > 0 {
        lemma_groups_value_bound(g.drop_last());
        let a = groups_value(g.drop_last());
        let p = pow65536((g.len() - 1) as nat);
        assert(a * 65536 + g.last() < p * 65536) by (nonlinear_arith)
            requires
                a < p,
                g.last() < 65536,
        ;
    }
}

/// The number of eight groups.
fn value_of_groups(g: &Vec<u32>) -> (r: u128)
    requires
        g@.len() == 8,
        forall|i: int| 0 <= i < 8 ==> g@[i] < 65536,
    ensures
        r as nat == groups_value(vals_of(g@)),
{
    let mut acc: u128 = 0;
    let mut i: usize = 0;
    proof {
        reveal_with_fuel(pow65536, 9);
    }
    while i < 8
        invariant
            0 <= i <= 8,
            g@.len() == 8,
            forall|j: int| 0 <= j < 8 ==> g@[j] < 65536,
            acc as nat == groups_value(vals_of(g@).take(i as int)),
            pow65536(8) == 0x1_0000_0000_0000_0000_0000_0000_0000_0000,
        decreases 8 - i,
    {
        let ghost t = vals_of(g@).take(i + 1);
        assert(t.drop_last() =~= vals_of(g@).take(i as int));
        proof {
            lemma_groups_value_bound(t);
            lemma_pow65536_mono((i + 1) as nat, 8);
        }
        acc = acc * 65536 + g[i] as u128;
        i = i + 1;
    }
    assert(vals_of(g@).take(8) =~= vals_of(g@));
    acc
}

proof fn lemma_pow65536_mono(a: nat, b: nat)
    requires
        a <= b,
    ensures
        pow65536(a) <= pow65536(b),
    decreases b,
{
    if a < b {
        lemma_pow65536_mono(a, (b - 1) as nat);
    }
}

/// Parses IPv6 text into its number.
pub fn parse_ipv6(s: &[char]) -> (r: Option<u128>)
    ensures
        r == ipv6_parse(s@),
{
    let n = s.len();
    let mut i: usize = 0;
    let mut at: usize = 0;
    let mut found = false;
    while i < n && i + 1 < n
        invariant
            i <= n,
            n == s@.len(),
            found ==> at + 1 < n && s@[at as int] == ':' && s@[at + 1] == ':',
            found ==> forall|j: int| 0 <= j < at ==> !(#[trigger] s@[j] == ':' && s@[j + 1] == ':'),
            !found ==> forall|j: int| 0 <= j < i ==> !(#[trigger] s@[j] == ':' && s@[j + 1] == ':'),
        decreases n - i,
    {
        if !found && s[i] == ':' && s[i + 1] == ':' {
            found = true;
            at = i;
        }
        i = i + 1;
    }
    if found {
        let i = at;
        assert(first_double_colon(s@, i as int));
        proof {
            let k = choose|k: int| first_double_colon(s@, k);
            if k < i {
                assert(!(s@[k] == ':' && s@[k + 1] == ':'));
            }
            if i < k {
                assert(!(s@[i as int] == ':' && s@[i + 1] == ':'));
            }
        }
        let head_text = crate::text::slice_copy(s, 0, i);
        let tail_text = crate::text::slice_copy(s, i + 2, n);
        assert(head_text@ =~= s@.take(i as int));
        assert(tail_text@ =~= s@.skip(i + 2));
        let head_pieces = if head_text.len() == 0 {
            Vec::new()
        } else {
            split_char(&head_text, ':')
        };
        let tail_pieces = if tail_text.len() == 0 {
            Vec::new()
        } else {
            split_char(&tail_text, ':')
        };
        assert(head_pieces@.map_values(|p: Vec<char>| p@) =~= colon_pieces(head_text@));
        assert(tail_pieces@.map_values(|p: Vec<char>| p@) =~= colon_pieces(tail_text@));
        let h = groups_of_pieces(&head_pieces, false);
        let t = groups_of_pieces(&tail_pieces, true);
        match (h, t) {
            (Some(h), Some(t)) => {
                if h.len() > 7 || t.len() > 7 - h.len() {
                    return None;
                }
                let zeros = 8 - h.len() - t.len();
                let mut all = h;
                let ghost hv = all@;
                let mut z: usize = 0;
                while z < zeros
                    invariant
                        0 <= z <= zeros,
                        all@ =~= hv + Seq::new(z as nat, |k: int| 0u32),
                    decreases zeros - z,
                {
                    all.push(0);
                    z = z + 1;
                }
                let ghost hz = all@;
                let mut j: usize = 0;
                while j < t.len()
                    invariant
                        0 <= j <= t@.len(),
                        all@ =~= hz + t@.take(j as int),
                    decreases t@.len() - j,
                {
                    all.push(t[j]);
                    j = j + 1;
                }
                assert(t@.take(t@.len() as int) =~= t@);
                assert(vals_of(all@) =~= vals_of(hv) + Seq::new(
                    (8 - vals_of(hv).len() - vals_of(t@).len()) as nat,
                    |k: int| 0nat,
                ) + vals_of(t@));
                let v = value_of_groups(&all);
                Some(v)
            },
            _ => None,
        }
    } else {
        assert(!exists|k: int| first_double_colon(s@, k)) by {
            if exists|k: int| first_double_colon(s@, k) {
                let k = choose|k: int| first_double_colon(s@, k);
                assert(!(s@[k] == ':' && s@[k + 1] == ':'));
            }
        }
        let pieces = split_char(s, ':');
        assert(pieces@.map_values(|p: Vec<char>| p@) =~= split_on(s@, ':'));
        match groups_of_pieces(&pieces, true) {
            Some(g) => if g.len() == 8 {
                Some(value_of_groups(&g))
            } else {
                None
            },
            None => None,
        }
    }
}

/// Parses an IP address of either version.
pub fn parse_ip(s: &[char]) -> (r: Option<IpValue>)
    ensures
        r == ip_parse(s@),
{
    match parse_ipv4(s) {
        Some(a) => Some(IpValue::V4(a)),
        None => match parse_ipv6(s) {
            Some(v) => Some(IpValue::V6(v)),
            None => None,
        },
    }
}


/// The lowercase hexadecimal digit for `d < 16`.
pub open spec fn hex_char(d: nat) -> char {
    if d < 10 {
        ((48 + d) as u32) as char
    } else {
        ((87 + d) as u32) as char
    }
}

/// Lowercase hexadecimal text of `n` without leading zeros, as `{:x}`
/// writes it.
pub open spec fn hex(n: nat) -> Seq<char>
    decreases n,
{
    if n < 16 {
        seq![hex_char(n)]
    } else {
        hex(n / 16).push(hex_char(n % 16))
    }
}

fn hex_digit_char(d: u32) -> (c: char)
    requires
        d < 16,
    ensures
        c == hex_char(d as nat),
{
    if d < 10 {
        ((48u8 + d as u8) as char)
    } else {
        ((87u8 + d as u8) as char)
    }
}

/// Writes `n` in lowercase hexadecimal.
fn fmt_hex(n: u32) -> (r: Vec<char>)
    ensures
        r@ == hex(n as nat),
    decreases n,
{
    let c = hex_digit_char(n % 16);
    if n < 16 {
        let mut v: Vec<char> = Vec::new();
        v.push(c);
        v
    } else {
        let mut v = fmt_hex(n / 16);
        v.push(c);
        v
    }
}

/// The groups in hexadecimal, joined by `:`.
pub open spec fn hex_join(g: Seq<nat>) -> Seq<char>
    decreases g.len(),
{
    if g.len() == 0 {
        Seq::empty()
    } else if g.len() == 1 {
        hex(g[0])
    } else {
        hex_join(g.drop_last()) + seq![':'] + hex(g.last())
    }
}

/// The eight 16-bit segments of an IPv6 address, most significant first.
pub open spec fn segments(v: u128) -> Seq<nat> {
    Seq::new(8, |k: int| ((v as nat) / pow65536((7 - k) as nat)) % 65536)
}

/// Segments `s .. s + l` are all zero, and there is at least one.
pub open spec fn zero_span(g: Seq<nat>, s: int, l: int) -> bool {
    &&& 0 <= s
    &&& 1 <= l
    &&& s + l <= g.len()
    &&& forall|k: int| s <= k < s + l ==> #[trigger] g[k] == 0
}

/// `s .. s + l` is the longest run of zero segments, and the first of the
/// longest ones.
pub open spec fn longest_zero_span(g: Seq<nat>, s: int, l: int) -> bool {
    &&& zero_span(g, s, l)
    &&& forall|s2: int, l2: int| #[trigger]
        zero_span(g, s2, l2) ==> l2 < l || (l2 == l && s <= s2)
}

/// The text of an IPv6 address as `Ipv6Addr`'s `Display` writes it: an
/// IPv4-mapped address as `::ffff:` and dotted decimal; otherwise the
/// segments in hexadecimal, the first longest run of two or more zero
/// segments written as `::`.
pub open spec fn ipv6_text(v: u128) -> Seq<char> {
    let g = segments(v);
    if g[0] == 0 && g[1] == 0 && g[2] == 0 && g[3] == 0 && g[4] == 0 && g[5] == 0xffff {
        seq![':', ':', 'f', 'f', 'f', 'f', ':'] + ipv4_text((g[6] * 65536 + g[7]) as u32)
    } else if exists|s: int, l: int| longest_zero_span(g, s, l) && l >= 2 {
        let (s, l) = choose|s: int, l: int| longest_zero_span(g, s, l) && l >= 2;
        hex_join(g.take(s)) + seq![':', ':'] + hex_join(g.skip(s + l))
    } else {
        hex_join(g)
    }
}

proof fn lemma_longest_unique(g: Seq<nat>, s: int, l: int, s2: int, l2: int)
    requires
        longest_zero_span(g, s, l),
        longest_zero_span(g, s2, l2),
    ensures
        s == s2 && l == l2,
{
    assert(zero_span(g, s2, l2));
    assert(zero_span(g, s, l));
}

fn segments_of(v: u128) -> (r: Vec<u32>)
    ensures
        r@.len() == 8,
        vals_of(r@) == segments(v),
        forall|i: int| 0 <= i < 8 ==> r@[i] < 65536,
{
    proof {
        reveal_with_fuel(pow65536, 8);
    }
    let mut d: u128 = 0x1_0000_0000_0000_0000_0000_0000_0000;
    let mut r: Vec<u32> = Vec::new();
    let mut k: usize = 0;
    while k < 8
        invariant
            0 <= k <= 8,
            r@.len() == k,
            k < 8 ==> d as nat == pow65536((7 - k) as nat),
            k < 8 ==> d > 0,
            forall|i: int| 0 <= i < k ==> r@[i] as nat == segments(v)[i],
            forall|i: int| 0 <= i < k ==> r@[i] < 65536,
        decreases 8 - k,
    {
        let x = ((v / d) % 65536) as u32;
        r.push(x);
        if k < 7 {
            assert(pow65536((7 - k) as nat) == 65536 * pow65536((7 - k - 1) as nat));
            d = d / 65536;
        }
        k = k + 1;
    }
    assert(vals_of(r@) =~= segments(v));
    r
}

/// Writes the groups `from .. to` in hexadecimal, joined by `:`.
fn fmt_groups(g: &Vec<u32>, from: usize, to: usize) -> (r: Vec<char>)
    requires
        from <= to <= g@.len(),
    ensures
        r@ == hex_join(vals_of(g@).subrange(from as int, to as int)),
{
    let mut r: Vec<char> = Vec::new();
    let mut i = from;
    assert(vals_of(g@).subrange(from as int, from as int) =~= Seq::<nat>::empty());
    while i < to
        invariant
            from <= i <= to <= g@.len(),
            r@ == hex_join(vals_of(g@).subrange(from as int, i as int)),
        decreases to - i,
    {
        let ghost x = vals_of(g@).subrange(from as int, i + 1);
        assert(x.drop_last() =~= vals_of(g@).subrange(from as int, i as int));
        if i > from {
            r.push(':');
        }
        let h = fmt_hex(g[i]);
        push_all(&mut r, &h);
        i = i + 1;
    }
    r
}

/// Writes an IPv6 address as `Ipv6Addr`'s `Display` does.
pub fn format_ipv6(v: u128) -> (r: Vec<char>)
    ensures
        r@ == ipv6_text(v),
{
    let g = segments_of(v);
    let ghost gs = segments(v);
    assert(forall|i: int| 0 <= i < 8 ==> g@[i] as nat == gs[i]);
    if g[0] == 0 && g[1] == 0 && g[2] == 0 && g[3] == 0 && g[4] == 0 && g[5] == 0xffff {
        let mut r: Vec<char> = Vec::new();
        r.push(':');
        r.push(':');
        r.push('f');
        r.push('f');
        r.push('f');
        r.push('f');
        r.push(':');
        let a = format_ipv4(g[6] * 65536 + g[7]);
        push_all(&mut r, &a);
        assert(r@ =~= seq![':', ':', 'f', 'f', 'f', 'f', ':'] + ipv4_text(
            (gs[6] * 65536 + gs[7]) as u32,
        ));
        return r;
    }
    let mut best_s: usize = 0;
    let mut best_l: usize = 0;
    let mut cur_l: usize = 0;
    let mut i: usize = 0;
    while i < 8
        invariant
            0 <= i <= 8,
            g@.len() == 8,
            forall|j: int| 0 <= j < 8 ==> g@[j] as nat == gs[j],
            gs.len() == 8,
            cur_l <= i,
            forall|k: int| i - cur_l <= k < i ==> #[trigger] gs[k] == 0,
            cur_l < i ==> gs[i - cur_l - 1] != 0,
            best_l <= i,
            best_l > 0 ==> zero_span(gs, best_s as int, best_l as int) && best_s + best_l <= i,
            forall|s2: int, l2: int|
                #![trigger zero_span(gs, s2, l2)]
                zero_span(gs, s2, l2) && s2 + l2 <= i ==> l2 < best_l || (l2 == best_l && best_s
                    <= s2),
        decreases 8 - i,
    {
        if g[i] == 0 {
            let ghost old_best_l = best_l;
            let ghost old_best_s = best_s;
            let ghost old_cur_l = cur_l;
            cur_l = cur_l + 1;
            if cur_l > best_l {
                best_s = i + 1 - cur_l;
                best_l = cur_l;
            }
            assert forall|s2: int, l2: int|
                zero_span(gs, s2, l2) && s2 + l2 <= i + 1 implies l2 < best_l || (l2 == best_l
                && best_s <= s2) by {
                if s2 + l2 == i + 1 {
                    if s2 < i - old_cur_l {
                        assert(gs[i - old_cur_l - 1] == 0);
                    }
                }
            }
        } else {
            assert forall|s2: int, l2: int|
                zero_span(gs, s2, l2) && s2 + l2 <= i + 1 implies l2 < best_l || (l2 == best_l
                && best_s <= s2) by {
                if s2 + l2 == i + 1 {
                    assert(gs[i as int] == 0);
                }
            }
            cur_l = 0;
        }
        i = i + 1;
    }
    if best_l >= 2 {
        assert(longest_zero_span(gs, best_s as int, best_l as int));
        proof {
            let (s, l) = choose|s: int, l: int| longest_zero_span(gs, s, l) && l >= 2;
            lemma_longest_unique(gs, s, l, best_s as int, best_l as int);
        }
        let mut r = fmt_groups(&g, 0, best_s);
        r.push(':');
        r.push(':');
        let t = fmt_groups(&g, best_s + best_l, 8);
        push_all(&mut r, &t);
        assert(vals_of(g@) =~= gs);
        assert(gs.take(best_s as int) =~= gs.subrange(0, best_s as int));
        assert(gs.skip(best_s + best_l) =~= gs.subrange(best_s + best_l, 8));
        r
    } else {
        assert(!exists|s: int, l: int| longest_zero_span(gs, s, l) && l >= 2) by {
            if exists|s: int, l: int| longest_zero_span(gs, s, l) && l >= 2 {
                let (s, l) = choose|s: int, l: int| longest_zero_span(gs, s, l) && l >= 2;
                assert(zero_span(gs, s, l));
            }
        }
        let r = fmt_groups(&g, 0, 8);
        assert(vals_of(g@) =~= gs);
        assert(gs.subrange(0, 8) =~= gs);
        r
    }
}


/// The version of a parsed address.
pub open spec fn version_of(v: IpValue) -> IpVersion {
    match v {
        IpValue::V4(_) => IpVersion::V4,
        IpValue::V6(_) => IpVersion::V6,
    }
}

/// The number of a parsed address.
pub open spec fn value_of(v: IpValue) -> u128 {
    match v {
        IpValue::V4(a) => a as u128,
        IpValue::V6(b) => b,
    }
}

/// What `Ip::is_bogon` answers for a text.
pub open spec fn bogon_text(s: Seq<char>) -> bool {
    match ip_parse(s) {
        Some(IpValue::V4(a)) => v4_is_bogon(a),
        Some(IpValue::V6(v)) => v6_is_bogon(v),
        None => false,
    }
}

/// The normalized form of dotted text, when every piece is a short number
/// in `0..=255` and there are at most four.
pub open spec fn normalize_ipv4_text(s: Seq<char>) -> Option<Seq<char>> {
    let parts = split_on(s, '.');
    if parts.len() <= 4 && all_octets(parts) {
        Some(join_dots(octet_texts(parts)))
    } else {
        None
    }
}

/// The text of an address given by its number and version; `None` for an
/// IPv4 number that does not fit in 32 bits.
pub open spec fn long_text(long: u128, version: IpVersion) -> Option<Seq<char>> {
    match version {
        IpVersion::V4 => if long <= u32::MAX {
            Some(ipv4_text(long as u32))
        } else {
            None
        },
        IpVersion::V6 => Some(ipv6_text(long)),
    }
}

fn v4_bogon(a: u32) -> (r: bool)
    ensures
        r == v4_is_bogon(a),
{
    let o0 = a / 16777216;
    let o1 = (a / 65536) % 256;
    let o2 = (a / 256) % 256;
    assert(o0 as nat == octet(a, 0));
    o0 == 10 || (o0 == 172 && 16 <= o1 && o1 <= 31) || (o0 == 192 && o1 == 168) || o0 == 127 || (
    o0 == 169 && o1 == 254) || (224 <= o0 && o0 <= 239) || (o0 == 192 && o1 == 0 && o2 == 2) || (o0
        == 198 && o1 == 51 && o2 == 100) || (o0 == 203 && o1 == 0 && o2 == 113) || o0 == 0
}

fn v6_bogon(v: u128) -> (r: bool)
    ensures
        r == v6_is_bogon(v),
{
    let s0 = v / 0x1_0000_0000_0000_0000_0000_0000_0000;
    v == 1 || v == 0 || s0 >= 0xff00 || (0xfc00 <= s0 && s0 <= 0xfdff)
}

fn text_string(t: &Vec<char>) -> (r: String)
    ensures
        r@ == t@,
{
    crate::text::string_of(t)
}

impl Ip {
    /// Whether the text is an address reserved from public routing: for
    /// IPv4 private, loopback, link-local, multicast, documentation or
    /// `0.0.0.0/8`; for IPv6 loopback, unspecified, multicast or unique
    /// local. Text that is no address is no bogon.
    pub fn is_bogon(ip: &str) -> (r: bool)
        ensures
            r == bogon_text(ip@),
    {
        let cs = chars_of(ip);
        match parse_ip(&cs) {
            Some(IpValue::V4(a)) => v4_bogon(a),
            Some(IpValue::V6(v)) => v6_bogon(v),
            None => false,
        }
    }

    /// The version of an address; an `InvalidInput` error naming the text
    /// when it is no address.
    pub fn version(ip: &str) -> (r: Result<IpVersion, Error>)
        ensures
            match r {
                Ok(v) => ip_parse(ip@) is Some && v == version_of(ip_parse(ip@)->0),
                Err(e) => ip_parse(ip@) is None && e.error_type == ErrorType::InvalidInput
                    && e.message@ == "Invalid IP address: "@ + ip@,
            },
    {
        let cs = chars_of(ip);
        match parse_ip(&cs) {
            Some(IpValue::V4(_)) => Ok(IpVersion::V4),
            Some(IpValue::V6(_)) => Ok(IpVersion::V6),
            None => Err(
                Error {
                    error_type: ErrorType::InvalidInput,
                    message: text_with("Invalid IP address: ", &cs),
                },
            ),
        }
    }

    /// The version of an address that is public, that is, no bogon.
    pub fn public_ip_version(ip: &str) -> (r: Option<IpVersion>)
        ensures
            r matches Some(v) ==> ip_parse(ip@) is Some && !bogon_text(ip@) && v == version_of(
                ip_parse(ip@)->0,
            ),
            r is None ==> ip_parse(ip@) is None || bogon_text(ip@),
    {
        match Self::version(ip) {
            Ok(v) => if !Self::is_bogon(ip) {
                Some(v)
            } else {
                None
            },
            Err(_) => None,
        }
    }

    /// The number of an address: an IPv4 address as its 32-bit number, an
    /// IPv6 address as its 128-bit number; a `Parse` error naming the text
    /// when it is no address.
    pub fn ip_to_long(ip: &str) -> (r: Result<u128, Error>)
        ensures
            match r {
                Ok(n) => ip_parse(ip@) is Some && n == value_of(ip_parse(ip@)->0),
                Err(e) => ip_parse(ip@) is None && e.error_type == ErrorType::Parse && e.message@
                    == "Failed to parse IP address: "@ + ip@,
            },
    {
        let cs = chars_of(ip);
        match parse_ip(&cs) {
            Some(IpValue::V4(a)) => Ok(a as u128),
            Some(IpValue::V6(v)) => Ok(v),
            None => Err(
                Error {
                    error_type: ErrorType::Parse,
                    message: text_with("Failed to parse IP address: ", &cs),
                },
            ),
        }
    }

    /// Rewrites up to four `.`-separated numbers of at most three digits,
    /// each in `0..=255`, without their leading zeros; any other text is an
    /// `InvalidInput` error.
    pub fn normalize_ip4(ip: &str) -> (r: Result<String, Error>)
        ensures
            match r {
                Ok(t) => normalize_ipv4_text(ip@) == Some(t@),
                Err(e) => normalize_ipv4_text(ip@) is None && e.error_type
                    == ErrorType::InvalidInput && e.message@ == "Invalid IP address"@,
            },
    {
        let cs = chars_of(ip);
        let parts = split_char(&cs, '.');
        let ghost view = split_on(cs@, '.');
        if parts.len() > 4 {
            return Err(Error::invalid_input("Invalid IP address"));
        }
        let mut out: Vec<char> = Vec::new();
        let mut k: usize = 0;
        while k < parts.len()
            invariant
                0 <= k <= parts@.len() <= 4,
                parts@.len() == view.len(),
                view == split_on(cs@, '.'),
                cs@ == ip@,
                forall|i: int| 0 <= i < parts@.len() ==> #[trigger] parts@[i]@ == view[i],
                all_octets(view.take(k as int)),
                out@ == join_dots(octet_texts(view.take(k as int))),
            decreases parts@.len() - k,
        {
            let ghost before = view.take(k as int);
            let ghost after = view.take(k + 1);
            assert(after.drop_last() =~= before);
            if parts[k].len() > 3 {
                assert(!all_octets(view)) by {
                    assert(view[k as int].len() > 3);
                }
                return Err(Error::invalid_input("Invalid IP address"));
            }
            match crate::text::parse_isize(&parts[k]) {
                None => {
                    assert(!all_octets(view)) by {
                        assert(parse_signed(view[k as int], isize::MIN as int, isize::MAX as int)
                            is None);
                    }
                    return Err(Error::invalid_input("Invalid IP address"));
                },
                Some(n) => {
                    if n < 0 || n > 255 {
                        assert(!all_octets(view)) by {
                            assert(parse_signed(
                                view[k as int],
                                isize::MIN as int,
                                isize::MAX as int,
                            )->0 == n);
                        }
                        return Err(Error::invalid_input("Invalid IP address"));
                    }
                    let t = crate::text::fmt_u128(n as u128);
                    if k > 0 {
                        out.push('.');
                    }
                    push_all(&mut out, &t);
                    assert(octet_texts(after).drop_last() =~= octet_texts(before));
                    assert(octet_texts(after).last() == t@);
                    assert(all_octets(after)) by {
                        assert forall|i: int| 0 <= i < after.len() implies {
                            &&& after[i].len() <= 3
                            &&& #[trigger] parse_signed(
                                after[i],
                                isize::MIN as int,
                                isize::MAX as int,
                            ) is Some
                            &&& 0 <= parse_signed(
                                after[i],
                                isize::MIN as int,
                                isize::MAX as int,
                            )->0 <= 255
                        } by {
                            if i < k {
                                assert(after[i] == before[i]);
                            }
                        }
                    }
                },
            }
            k = k + 1;
        }
        assert(view.take(parts@.len() as int) =~= view);
        Ok(text_string(&out))
    }

    /// The text of an address given by its number: an IPv4 number must fit
    /// in 32 bits, else an `InvalidInput` error.
    pub fn long_to_ip(long: u128, version: IpVersion) -> (r: Result<String, Error>)
        ensures
            match r {
                Ok(t) => long_text(long, version) == Some(t@),
                Err(e) => long_text(long, version) is None && e.error_type
                    == ErrorType::InvalidInput && e.message@ == "Overflow IPv4"@,
            },
    {
        match version {
            IpVersion::V4 => {
                if long > u32::MAX as u128 {
                    return Err(Error::invalid_input("Overflow IPv4"));
                }
                let t = format_ipv4(long as u32);
                Ok(text_string(&t))
            },
            IpVersion::V6 => {
                let t = format_ipv6(long);
                Ok(text_string(&t))
            },
        }
    }
}


/// The first and last address of the IPv4 block `ip/p`.
pub open spec fn cidr_v4_bounds(ip: u32, p: u32) -> (u32, u32) {
    let m = mask_v4(p);
    (ip & m, (ip & m) | !m)
}

/// The first and last address of the IPv6 block `ip/p`.
pub open spec fn cidr_v6_bounds(ip: u128, p: u32) -> (u128, u128) {
    let m = mask_v6(p);
    (ip & m, (ip & m) | !m)
}

/// The prefix length of the smallest block that `Ip::ipv4_to_cidr_string`
/// builds from two addresses: the number of leading bits they share.
pub open spec fn cidr_prefix_v4(start: u32, end: u32) -> u32 {
    if start ^ end == 0 {
        32
    } else {
        (start ^ end).leading_zeros()
    }
}

/// The prefix length that `Ip::ipv6_to_cidr_string` builds.
pub open spec fn cidr_prefix_v6(start: u128, end: u128) -> u32 {
    if start ^ end == 0 {
        128
    } else {
        lz128(start ^ end)
    }
}

/// The text of `a/p`, with the address written by `addr`.
pub open spec fn cidr_text(addr: Seq<char>, p: u32) -> Seq<char> {
    addr + seq!['/'] + dec(p as nat)
}

/// The pieces of `IP/Prefix` text, when there are exactly two.
pub open spec fn cidr_parts(s: Seq<char>) -> Option<(Seq<char>, Seq<char>)> {
    let parts = split_on(s, '/');
    if parts.len() == 2 {
        Some((parts[0], parts[1]))
    } else {
        None
    }
}

/// What `Ip::range_to_bounds_v4` returns: both addresses written out
/// again, or the error for the first text that is no IPv4 address, or for
/// a start above the end.
pub open spec fn bounds_v4_outcome(start: Seq<char>, end: Seq<char>) -> Result<
    (Seq<char>, Seq<char>),
    (ErrorType, Seq<char>),
> {
    match (ipv4_parse(start), ipv4_parse(end)) {
        (None, _) => Err((ErrorType::InvalidInput, "Invalid Start IP"@)),
        (Some(_), None) => Err((ErrorType::InvalidInput, "Invalid End IP"@)),
        (Some(s), Some(e)) => if s > e {
            Err((ErrorType::InvalidRange, "Start IP must be less than End IP"@))
        } else {
            Ok((ipv4_text(s), ipv4_text(e)))
        },
    }
}

/// What `Ip::ipv4_cidr_to_range` returns for `IP/Prefix` text.
pub open spec fn cidr_v4_outcome(cidr: Seq<char>) -> Result<
    (Seq<char>, Seq<char>),
    (ErrorType, Seq<char>),
> {
    match cidr_parts(cidr) {
        None => Err((ErrorType::InvalidInput, "Format must be IP/Prefix"@)),
        Some((a, b)) => match ipv4_parse(a) {
            None => Err((ErrorType::InvalidInput, "Invalid IP"@)),
            Some(ip) => match parse_unsigned(b, u32::MAX as nat) {
                None => Err((ErrorType::InvalidRange, "Invalid Prefix"@)),
                Some(p) => if p > 32 {
                    Err((ErrorType::InvalidRange, "Prefix > 32"@))
                } else {
                    Ok(
                        (
                            ipv4_text(cidr_v4_bounds(ip, p as u32).0),
                            ipv4_text(cidr_v4_bounds(ip, p as u32).1),
                        ),
                    )
                },
            },
        },
    }
}

/// What `Ip::ipv6_cidr_to_range` returns for `IP/Prefix` text.
pub open spec fn cidr_v6_outcome(cidr: Seq<char>) -> Result<
    (Seq<char>, Seq<char>),
    (ErrorType, Seq<char>),
> {
    match cidr_parts(cidr) {
        None => Err((ErrorType::InvalidInput, "Format must be IP/Prefix"@)),
        Some((a, b)) => match ipv6_parse(a) {
            None => Err((ErrorType::InvalidInput, "Invalid IPv6"@)),
            Some(ip) => match parse_unsigned(b, u32::MAX as nat) {
                None => Err((ErrorType::InvalidRange, "Invalid Prefix"@)),
                Some(p) => if p > 128 {
                    Err((ErrorType::InvalidRange, "Prefix > 128"@))
                } else {
                    Ok(
                        (
                            ipv6_text(cidr_v6_bounds(ip, p as u32).0),
                            ipv6_text(cidr_v6_bounds(ip, p as u32).1),
                        ),
                    )
                },
            },
        },
    }
}

/// What `Ip::ipv4_to_cidr_string` returns for two texts.
pub open spec fn to_cidr_v4_outcome(start: Seq<char>, end: Seq<char>) -> Result<
    Seq<char>,
    (ErrorType, Seq<char>),
> {
    match (ipv4_parse(start), ipv4_parse(end)) {
        (None, _) => Err((ErrorType::InvalidInput, "Invalid Start IP"@)),
        (Some(_), None) => Err((ErrorType::InvalidInput, "Invalid End IP"@)),
        (Some(s), Some(e)) => if s > e {
            Err((ErrorType::InvalidRange, "Start IP must be less than End IP"@))
        } else {
            Ok(cidr_text(ipv4_text(s & mask_v4(cidr_prefix_v4(s, e))), cidr_prefix_v4(s, e)))
        },
    }
}

/// What `Ip::ipv6_to_cidr_string` returns for two texts.
pub open spec fn to_cidr_v6_outcome(start: Seq<char>, end: Seq<char>) -> Result<
    Seq<char>,
    (ErrorType, Seq<char>),
> {
    match (ipv6_parse(start), ipv6_parse(end)) {
        (None, _) => Err((ErrorType::InvalidInput, "Invalid Start IPv6"@)),
        (Some(_), None) => Err((ErrorType::InvalidInput, "Invalid End IPv6"@)),
        (Some(s), Some(e)) => if s > e {
            Err((ErrorType::InvalidRange, "Start IP must be less than End IP"@))
        } else {
            Ok(cidr_text(ipv6_text(s & mask_v6(cidr_prefix_v6(s, e))), cidr_prefix_v6(s, e)))
        },
    }
}

fn split_cidr(cs: &Vec<char>) -> (r: Option<(Vec<char>, Vec<char>)>)
    ensures
        match r {
            Some((a, b)) => cidr_parts(cs@) == Some((a@, b@)),
            None => cidr_parts(cs@) is None,
        },
{
    let mut parts = split_char(cs, '/');
    if parts.len() != 2 {
        return None;
    }
    let b = parts.pop().unwrap();
    let a = parts.pop().unwrap();
    Some((a, b))
}

fn cidr_string(addr: &Vec<char>, p: u32) -> (r: String)
    ensures
        r@ == cidr_text(addr@, p),
{
    let mut t = addr.clone();
    t.push('/');
    let d = fmt_u128(p as u128);
    push_all(&mut t, &d);
    text_string(&t)
}

impl Ip {
    /// The two addresses written out again, when both are IPv4 addresses
    /// and the first is not above the second.
    pub fn range_to_bounds_v4(start_ip: &str, end_ip: &str) -> (r: Result<(String, String), Error>)
        ensures
            match r {
                Ok((a, b)) => bounds_v4_outcome(start_ip@, end_ip@) == Ok::<_, (ErrorType, Seq<char>)>((a@, b@)),
                Err(e) => bounds_v4_outcome(start_ip@, end_ip@) == Err::<(Seq<char>, Seq<char>), _>(e@),
            },
    {
        let sc = chars_of(start_ip);
        let start = match parse_ipv4(&sc) {
            Some(a) => a,
            None => return Err(Error::invalid_input("Invalid Start IP")),
        };
        let ec = chars_of(end_ip);
        let end = match parse_ipv4(&ec) {
            Some(a) => a,
            None => return Err(Error::invalid_input("Invalid End IP")),
        };
        if start > end {
            return Err(Error::invalid_range("Start IP must be less than End IP"));
        }
        let a = format_ipv4(start);
        let b = format_ipv4(end);
        Ok((text_string(&a), text_string(&b)))
    }

    /// The first and last address of an IPv4 block written `IP/Prefix`.
    pub fn ipv4_cidr_to_range(cidr: &str) -> (r: Result<(String, String), Error>)
        ensures
            match r {
                Ok((a, b)) => cidr_v4_outcome(cidr@) == Ok::<_, (ErrorType, Seq<char>)>((a@, b@)),
                Err(e) => cidr_v4_outcome(cidr@) == Err::<(Seq<char>, Seq<char>), _>(e@),
            },
    {
        let cs = chars_of(cidr);
        let (a, b) = match split_cidr(&cs) {
            Some(x) => x,
            None => return Err(Error::invalid_input("Format must be IP/Prefix")),
        };
        let ip = match parse_ipv4(&a) {
            Some(v) => v,
            None => return Err(Error::invalid_input("Invalid IP")),
        };
        let prefix = match crate::text::parse_u32(&b) {
            Some(p) => p,
            None => return Err(Error::invalid_range("Invalid Prefix")),
        };
        if prefix > 32 {
            return Err(Error::invalid_range("Prefix > 32"));
        }
        let mask = get_mask_v4(prefix);
        let first = ip & mask;
        let last = first | !mask;
        let f = format_ipv4(first);
        let l = format_ipv4(last);
        Ok((text_string(&f), text_string(&l)))
    }

    /// The first and last address of an IPv6 block written `IP/Prefix`.
    pub fn ipv6_cidr_to_range(cidr: &str) -> (r: Result<(String, String), Error>)
        ensures
            match r {
                Ok((a, b)) => cidr_v6_outcome(cidr@) == Ok::<_, (ErrorType, Seq<char>)>((a@, b@)),
                Err(e) => cidr_v6_outcome(cidr@) == Err::<(Seq<char>, Seq<char>), _>(e@),
            },
    {
        let cs = chars_of(cidr);
        let (a, b) = match split_cidr(&cs) {
            Some(x) => x,
            None => return Err(Error::invalid_input("Format must be IP/Prefix")),
        };
        let ip = match parse_ipv6(&a) {
            Some(v) => v,
            None => return Err(Error::invalid_input("Invalid IPv6")),
        };
        let prefix = match crate::text::parse_u32(&b) {
            Some(p) => p,
            None => return Err(Error::invalid_range("Invalid Prefix")),
        };
        if prefix > 128 {
            return Err(Error::invalid_range("Prefix > 128"));
        }
        let mask = get_mask_v6(prefix);
        let first = ip & mask;
        let last = first | !mask;
        let f = format_ipv6(first);
        let l = format_ipv6(last);
        Ok((text_string(&f), text_string(&l)))
    }

    /// The smallest IPv4 block, written `IP/Prefix`, that holds both
    /// addresses: the prefix is the number of leading bits they share.
    pub fn ipv4_to_cidr_string(start_ip: &str, end_ip: &str) -> (r: Result<String, Error>)
        ensures
            match r {
                Ok(t) => to_cidr_v4_outcome(start_ip@, end_ip@) == Ok::<_, (ErrorType, Seq<char>)>(t@),
                Err(e) => to_cidr_v4_outcome(start_ip@, end_ip@) == Err::<Seq<char>, _>(e@),
            },
    {
        let sc = chars_of(start_ip);
        let start = match parse_ipv4(&sc) {
            Some(a) => a,
            None => return Err(Error::invalid_input("Invalid Start IP")),
        };
        let ec = chars_of(end_ip);
        let end = match parse_ipv4(&ec) {
            Some(a) => a,
            None => return Err(Error::invalid_input("Invalid End IP")),
        };
        if start > end {
            return Err(Error::invalid_range("Start IP must be less than End IP"));
        }
        let diff = start ^ end;
        let prefix = if diff == 0 {
            32
        } else {
            diff.leading_zeros()
        };
        proof {
            vstd::std_specs::bits::axiom_u32_leading_zeros(diff);
        }
        let base = format_ipv4(start & get_mask_v4(prefix));
        Ok(cidr_string(&base, prefix))
    }

    /// The smallest IPv6 block, written `IP/Prefix`, that holds both
    /// addresses.
    pub fn ipv6_to_cidr_string(start_ip: &str, end_ip: &str) -> (r: Result<String, Error>)
        ensures
            match r {
                Ok(t) => to_cidr_v6_outcome(start_ip@, end_ip@) == Ok::<_, (ErrorType, Seq<char>)>(t@),
                Err(e) => to_cidr_v6_outcome(start_ip@, end_ip@) == Err::<Seq<char>, _>(e@),
            },
    {
        let sc = chars_of(start_ip);
        let start = match parse_ipv6(&sc) {
            Some(a) => a,
            None => return Err(Error::invalid_input("Invalid Start IPv6")),
        };
        let ec = chars_of(end_ip);
        let end = match parse_ipv6(&ec) {
            Some(a) => a,
            None => return Err(Error::invalid_input("Invalid End IPv6")),
        };
        if start > end {
            return Err(Error::invalid_range("Start IP must be less than End IP"));
        }
        let diff = start ^ end;
        let prefix = if diff == 0 {
            128
        } else {
            leading_zeros128(diff)
        };
        let base = format_ipv6(start & get_mask_v6(prefix));
        Ok(cidr_string(&base, prefix))
    }
}


/// The first address of an IPv4 block is not above the address it was
/// written with, nor that above the last address.
pub proof fn lemma_cidr_v4_contains(ip: u32, p: u32)
    requires
        p <= 32,
    ensures
        cidr_v4_bounds(ip, p).0 <= ip <= cidr_v4_bounds(ip, p).1,
{
    let m = mask_v4(p);
    assert((ip & m) <= ip && ip <= ((ip & m) | !m)) by (bit_vector);
}

/// The first address of an IPv6 block is not above the address it was
/// written with, nor that above the last address.
pub proof fn lemma_cidr_v6_contains(ip: u128, p: u32)
    requires
        p <= 128,
    ensures
        cidr_v6_bounds(ip, p).0 <= ip <= cidr_v6_bounds(ip, p).1,
{
    let m = mask_v6(p);
    assert((ip & m) <= ip && ip <= ((ip & m) | !m)) by (bit_vector);
}

/// The IPv4 block that `Ip::ipv4_to_cidr_string` builds from a start and
/// an end holds both: they share its first `prefix` bits, so both lie
/// between the block's first and last address.
pub proof fn lemma_cidr_v4_covers(start: u32, end: u32)
    requires
        start <= end,
    ensures
        start & mask_v4(cidr_prefix_v4(start, end)) == end & mask_v4(cidr_prefix_v4(start, end)),
        cidr_v4_bounds(start, cidr_prefix_v4(start, end)).0 <= start,
        end <= cidr_v4_bounds(start, cidr_prefix_v4(start, end)).1,
{
    let d = start ^ end;
    let p = cidr_prefix_v4(start, end);
    vstd::std_specs::bits::axiom_u32_leading_zeros(d);
    if d == 0 {
        assert(start == end) by (bit_vector)
            requires
                d == start ^ end,
                d == 0,
        ;
    } else {
        assert(p < 32);
        if p == 0 {
            let m = mask_v4(p);
            assert(start & m == end & m) by (bit_vector)
                requires
                    m == 0,
            ;
        } else {
            assert(d >> ((32 - p) as u32) == 0);
            let sh = (32 - p) as u32;
            let m = mask_v4(p);
            assert(m == 0xffff_ffffu32 << sh);
            assert(start & m == end & m) by (bit_vector)
                requires
                    m == 0xffff_ffffu32 << sh,
                    d == start ^ end,
                    d >> sh == 0,
                    0 < sh <= 32,
            ;
            assert((start & (0xffff_ffffu32 << sh)) == (end & (0xffff_ffffu32 << sh)))
                by (bit_vector)
                requires
                    d == start ^ end,
                    d >> sh == 0,
                    0 < sh <= 32,
            ;
        }
    }
    let m = mask_v4(p);
    assert(start & m == end & m);
    lemma_cidr_v4_contains(start, p);
    assert(end <= ((end & m) | !m)) by (bit_vector);
}

/// The IPv6 block that `Ip::ipv6_to_cidr_string` builds from a start and
/// an end holds both.
pub proof fn lemma_cidr_v6_covers(start: u128, end: u128)
    requires
        start <= end,
    ensures
        start & mask_v6(cidr_prefix_v6(start, end)) == end & mask_v6(cidr_prefix_v6(start, end)),
        cidr_v6_bounds(start, cidr_prefix_v6(start, end)).0 <= start,
        end <= cidr_v6_bounds(start, cidr_prefix_v6(start, end)).1,
{
    let d = start ^ end;
    let p = cidr_prefix_v6(start, end);
    if d == 0 {
        assert(start == end) by (bit_vector)
            requires
                d == start ^ end,
                d == 0,
        ;
    } else {
        let n = lz128_witness(d);
        lemma_lz128_unique(d, n, lz128(d));
        assert(p < 128);
        if p == 0 {
            let m = mask_v6(p);
            assert(start & m == end & m) by (bit_vector)
                requires
                    m == 0,
            ;
        } else {
            let sh = (128 - p) as u128;
            assert(d >> sh == 0);
            let m = mask_v6(p);
            assert(m == 0xffff_ffff_ffff_ffff_ffff_ffff_ffff_ffffu128 << sh);
            assert(start & m == end & m) by (bit_vector)
                requires
                    m == 0xffff_ffff_ffff_ffff_ffff_ffff_ffff_ffffu128 << sh,
                    d == start ^ end,
                    d >> sh == 0,
                    0 < sh <= 128,
            ;
        }
    }
    let m = mask_v6(p);
    lemma_cidr_v6_contains(start, p);
    assert(end <= ((end & m) | !m)) by (bit_vector);
}


proof fn lemma_split_piece(p: Seq<char>, piece: Seq<char>, d: char)
    requires
        !piece.contains(d),
    ensures
        split_state(p + piece, d) == (split_state(p, d).0, split_state(p, d).1 + piece),
    decreases piece.len(),
{
    if piece.len() == 0 {
        assert(p + piece =~= p);
        assert(split_state(p, d).1 + piece =~= split_state(p, d).1);
    } else {
        let q = piece.drop_last();
        assert(!q.contains(d)) by {
            if q.contains(d) {
                let i = choose|i: int| 0 <= i < q.len() && q[i] == d;
                assert(piece[i] == d);
            }
        }
        lemma_split_piece(p, q, d);
        assert((p + piece).drop_last() =~= p + q);
        assert((p + piece).last() == piece.last());
        assert(piece.last() != d) by {
            assert(piece[piece.len() - 1] == piece.last());
        }
        assert(split_state(p, d).1 + q.push(piece.last()) =~= (split_state(p, d).1 + q).push(piece.last()));
        assert(q.push(piece.last()) =~= piece);
    }
}

proof fn lemma_split_cut(p: Seq<char>, d: char)
    ensures
        split_state(p.push(d), d) == (split_state(p, d).0.push(split_state(p, d).1), Seq::<char>::empty()),
{
    assert(p.push(d).drop_last() =~= p);
}

proof fn lemma_dec_digits(n: nat)
    ensures
        1 <= dec(n).len(),
        all_digits(dec(n)),
        digits_val(dec(n)) == n,
        n >= 1 ==> dec(n)[0] != '0',
        n < 10 ==> dec(n).len() == 1,
        n < 100 ==> dec(n).len() <= 2,
        n < 1000 ==> dec(n).len() <= 3,
    decreases n,
{
    if n < 10 {
        let c = digit_char(n);
        assert(c as u32 == 48 + n);
        assert(dec(n).drop_last() =~= Seq::<char>::empty());
        assert(crate::text::digit_val(c) == n);
        assert(digits_val(dec(n)) == digits_val(Seq::<char>::empty()) * 10 + crate::text::digit_val(c));
    } else {
        lemma_dec_digits(n / 10);
        let c = digit_char(n % 10);
        assert(c as u32 == 48 + n % 10);
        let s = dec(n);
        assert(s.drop_last() =~= dec(n / 10));
        assert(s.last() == c);
        assert(s[0] == dec(n / 10)[0]);
        assert forall|i: int| 0 <= i < s.len() implies is_digit(#[trigger] s[i]) by {
            if i < s.len() - 1 {
                assert(s[i] == dec(n / 10)[i]);
            }
        }
        assert(crate::text::digit_val(c) == n % 10);
        assert(digits_val(s) == digits_val(dec(n / 10)) * 10 + crate::text::digit_val(c));
        assert((n / 10) * 10 + n % 10 == n) by (nonlinear_arith);
    }
}

proof fn lemma_dec_no_dot(n: nat)
    ensures
        !dec(n).contains('.'),
{
    lemma_dec_digits(n);
    if dec(n).contains('.') {
        let i = choose|i: int| 0 <= i < dec(n).len() && dec(n)[i] == '.';
        assert(is_digit(dec(n)[i]));
    }
}

proof fn lemma_octet_ok(n: nat)
    requires
        n < 256,
    ensures
        octet_text_ok(dec(n)),
{
    lemma_dec_digits(n);
    if dec(n).len() > 1 {
        assert(n >= 10);
    }
}

/// Dotted decimal reads back as the address it was written from: the text
/// `Ip::long_to_ip` writes of an IPv4 number is read by `Ip::ip_to_long`
/// as that number.
pub proof fn lemma_ipv4_text_roundtrip(a: u32)
    ensures
        ipv4_parse(ipv4_text(a)) == Some(a),
{
    let d0 = dec(octet(a, 0));
    let d1 = dec(octet(a, 1));
    let d2 = dec(octet(a, 2));
    let d3 = dec(octet(a, 3));
    let dot = seq!['.'];
    lemma_dec_no_dot(octet(a, 0));
    lemma_dec_no_dot(octet(a, 1));
    lemma_dec_no_dot(octet(a, 2));
    lemma_dec_no_dot(octet(a, 3));
    let e = Seq::<char>::empty();
    lemma_split_piece(e, d0, '.');
    assert(e + d0 =~= d0);
    assert(split_state(e, '.') == (Seq::<Seq<char>>::empty(), e));
    assert(e + d0 =~= d0);
    lemma_split_cut(d0, '.');
    assert(d0 + dot =~= d0.push('.'));
    lemma_split_piece(d0 + dot, d1, '.');
    lemma_split_cut(d0 + dot + d1, '.');
    assert(d0 + dot + d1 + dot =~= (d0 + dot + d1).push('.'));
    lemma_split_piece(d0 + dot + d1 + dot, d2, '.');
    lemma_split_cut(d0 + dot + d1 + dot + d2, '.');
    assert(d0 + dot + d1 + dot + d2 + dot =~= (d0 + dot + d1 + dot + d2).push('.'));
    lemma_split_piece(d0 + dot + d1 + dot + d2 + dot, d3, '.');
    let t = ipv4_text(a);
    assert(t =~= d0 + dot + d1 + dot + d2 + dot + d3);
    let parts = split_on(t, '.');
    assert(parts =~= seq![d0, d1, d2, d3]);
    lemma_octet_ok(octet(a, 0));
    lemma_octet_ok(octet(a, 1));
    lemma_octet_ok(octet(a, 2));
    lemma_octet_ok(octet(a, 3));
    lemma_dec_digits(octet(a, 0));
    lemma_dec_digits(octet(a, 1));
    lemma_dec_digits(octet(a, 2));
    lemma_dec_digits(octet(a, 3));
    assert(((a / 16777216) % 256) * 16777216 + ((a / 65536) % 256) * 65536 + ((a / 256) % 256) * 256 + (a / 1) % 256
        == a) by (bit_vector);
}


/// `Ip::ip_to_long` reads back what `Ip::long_to_ip` writes of an IPv4
/// number: the text is an IPv4 address whose value is that number.
pub proof fn lemma_long_ip_roundtrip_v4(long: u128)
    requires
        long <= u32::MAX,
    ensures
        long_text(long, IpVersion::V4) matches Some(t) && ip_parse(t) == Some(IpValue::V4(long as u32))
            && value_of(IpValue::V4(long as u32)) == long,
{
    lemma_ipv4_text_roundtrip(long as u32);
}


proof fn lemma_hex_char(d: nat)
    requires
        d < 16,
    ensures
        is_hex(hex_char(d)),
        hex_val(hex_char(d)) == d,
        hex_char(d) != ':',
        hex_char(d) != '.',
{
    if d < 10 {
        assert(hex_char(d) as u32 == 48 + d);
    } else {
        assert(hex_char(d) as u32 == 87 + d);
    }
}

proof fn lemma_hex_digits(n: nat)
    ensures
        1 <= hex(n).len(),
        forall|i: int| 0 <= i < hex(n).len() ==> is_hex(#[trigger] hex(n)[i]) && hex(n)[i] != ':'
            && hex(n)[i] != '.',
        hex_digits_val(hex(n)) == n,
        n < 16 ==> hex(n).len() == 1,
        n < 256 ==> hex(n).len() <= 2,
        n < 4096 ==> hex(n).len() <= 3,
        n < 65536 ==> hex(n).len() <= 4,
    decreases n,
{
    if n < 16 {
        lemma_hex_char(n);
        assert(hex(n).drop_last() =~= Seq::<char>::empty());
        assert(hex_digits_val(hex(n)) == hex_digits_val(Seq::<char>::empty()) * 16 + hex_val(hex_char(n)));
    } else {
        lemma_hex_digits(n / 16);
        lemma_hex_char(n % 16);
        let s = hex(n);
        assert(s.drop_last() =~= hex(n / 16));
        assert forall|i: int| 0 <= i < s.len() implies is_hex(#[trigger] s[i]) && s[i] != ':' && s[i] != '.' by {
            if i < s.len() - 1 {
                assert(s[i] == hex(n / 16)[i]);
            }
        }
        assert(s.last() == hex_char(n % 16));
        assert(hex_digits_val(s) == hex_digits_val(hex(n / 16)) * 16 + hex_val(hex_char(n % 16)));
        assert((n / 16) * 16 + n % 16 == n) by (nonlinear_arith);
    }
}

/// A text without the separator is one piece.
proof fn lemma_split_single(p: Seq<char>, d: char)
    requires
        !p.contains(d),
    ensures
        split_on(p, d) == seq![p],
{
    let e = Seq::<char>::empty();
    lemma_split_piece(e, p, d);
    assert(e + p =~= p);
    assert(split_state(e, d) == (Seq::<Seq<char>>::empty(), e));
    assert(split_state(e, d).1 + p =~= p);
    assert(Seq::<Seq<char>>::empty().push(p) =~= seq![p]);
}

proof fn lemma_hex_group(n: nat)
    requires
        n < 65536,
    ensures
        hex_group_ok(hex(n)),
        !hex(n).contains(':'),
        !hex(n).contains('.'),
        ipv4_parse(hex(n)) is None,
{
    lemma_hex_digits(n);
    if hex(n).contains(':') {
        let i = choose|i: int| 0 <= i < hex(n).len() && hex(n)[i] == ':';
        assert(hex(n)[i] != ':');
    }
    if hex(n).contains('.') {
        let i = choose|i: int| 0 <= i < hex(n).len() && hex(n)[i] == '.';
        assert(hex(n)[i] != '.');
    }
    lemma_split_single(hex(n), '.');
}

/// Colons only stand alone, between other characters.
pub open spec fn single_colons(x: Seq<char>) -> bool {
    &&& x.len() >= 1
    &&& x[0] != ':'
    &&& x.last() != ':'
    &&& forall|j: int| 0 <= j < x.len() - 1 ==> !(#[trigger] x[j] == ':' && x[j + 1] == ':')
}

/// The hexadecimal texts of the groups.
pub open spec fn hex_pieces(g: Seq<nat>) -> Seq<Seq<char>> {
    Seq::new(g.len(), |k: int| hex(g[k]))
}

proof fn lemma_hex_join(g: Seq<nat>)
    requires
        g.len() >= 1,
        forall|k: int| 0 <= k < g.len() ==> #[trigger] g[k] < 65536,
    ensures
        split_on(hex_join(g), ':') == hex_pieces(g),
        single_colons(hex_join(g)),
    decreases g.len(),
{
    if g.len() == 1 {
        lemma_hex_group(g[0]);
        lemma_hex_digits(g[0]);
        lemma_split_single(hex(g[0]), ':');
        assert(hex_pieces(g) =~= seq![hex(g[0])]);
        assert(hex(g[0]).last() == hex(g[0])[hex(g[0]).len() - 1]);
    } else {
        let a = hex_join(g.drop_last());
        let h = hex(g.last());
        lemma_hex_join(g.drop_last());
        lemma_hex_group(g.last());
        lemma_hex_digits(g.last());
        let t = hex_join(g);
        assert(t == a + seq![':'] + h);
        lemma_split_cut(a, ':');
        assert(a + seq![':'] =~= a.push(':'));
        lemma_split_piece(a.push(':'), h, ':');
        assert(split_state(a.push(':'), ':').1 + h =~= h);
        assert(hex_pieces(g) =~= hex_pieces(g.drop_last()).push(h));
        assert(t.len() == a.len() + 1 + h.len());
        assert(t[0] == a[0]);
        assert(t.last() == h[h.len() - 1]);
        assert forall|j: int| 0 <= j < t.len() - 1 implies !(#[trigger] t[j] == ':' && t[j + 1] == ':') by {
            if j < a.len() - 1 {
                assert(t[j] == a[j] && t[j + 1] == a[j + 1]);
            } else if j == a.len() - 1 {
                assert(t[j] == a.last());
            } else if j == a.len() {
                assert(t[j + 1] == h[0]);
            } else {
                assert(t[j] == h[j - a.len() - 1]);
            }
        }
    }
}

proof fn lemma_group_values_hex(g: Seq<nat>, ipv4_last: bool)
    requires
        forall|k: int| 0 <= k < g.len() ==> #[trigger] g[k] < 65536,
    ensures
        group_values(hex_pieces(g), ipv4_last) == Some(g),
    decreases g.len(),
{
    let p = hex_pieces(g);
    if g.len() == 0 {
        assert(p =~= Seq::<Seq<char>>::empty());
    } else {
        lemma_hex_group(g[0]);
        lemma_hex_digits(g[0]);
        assert(p[0] == hex(g[0]));
        lemma_group_values_hex(g.drop_first(), ipv4_last);
        assert(p.drop_first() =~= hex_pieces(g.drop_first()));
        assert(seq![g[0]] + g.drop_first() =~= g);
    }
}

proof fn lemma_pow65536_pos(k: nat)
    ensures
        pow65536(k) > 0,
    decreases k,
{
    if k > 0 {
        lemma_pow65536_pos((k - 1) as nat);
    }
}

proof fn lemma_segments_prefix(v: u128, k: int)
    requires
        0 <= k <= 8,
    ensures
        groups_value(segments(v).take(k)) == (v as nat) / pow65536((8 - k) as nat),
    decreases k,
{
    let g = segments(v);
    let x = v as nat;
    if k == 0 {
        reveal_with_fuel(pow65536, 9);
        assert(pow65536(8) == 0x1_0000_0000_0000_0000_0000_0000_0000_0000);
        assert(g.take(0) =~= Seq::<nat>::empty());
        let d = pow65536(8);
        assert(x < d);
        assert(x / d == 0) by (nonlinear_arith)
            requires
                x < d,
                d > 0,
        ;
    } else {
        lemma_segments_prefix(v, k - 1);
        let p = pow65536((8 - k) as nat);
        lemma_pow65536_pos((8 - k) as nat);
        assert(pow65536((9 - k) as nat) == 65536 * p);
        assert(g.take(k).drop_last() =~= g.take(k - 1));
        assert(g.take(k).last() == (x / p) % 65536);
        vstd::arithmetic::div_mod::lemma_div_denominator(x as int, p as int, 65536);
        assert(x / (p * 65536) == x / (65536 * p)) by (nonlinear_arith);
        vstd::arithmetic::div_mod::lemma_fundamental_div_mod((x / p) as int, 65536);
        let q = x / p;
        assert(groups_value(g.take(k)) == groups_value(g.take(k - 1)) * 65536 + g.take(k).last());
        assert(groups_value(g.take(k - 1)) == x / pow65536((9 - k) as nat));
        assert(x / pow65536((9 - k) as nat) == q / 65536);
        assert(q == 65536 * (q / 65536) + q % 65536);
    }
}

/// The segments of an address are 16-bit values that make up its number.
proof fn lemma_segments_value(v: u128)
    ensures
        forall|k: int| 0 <= k < 8 ==> #[trigger] segments(v)[k] < 65536,
        groups_value(segments(v)) == v,
{
    assert forall|k: int| 0 <= k < 8 implies #[trigger] segments(v)[k] < 65536 by {
        lemma_pow65536_pos((7 - k) as nat);
    }
    lemma_segments_prefix(v, 8);
    assert(segments(v).take(8) =~= segments(v));
    assert(pow65536(0) == 1);
    assert((v as nat) / 1 == v as nat);
}

proof fn lemma_split_join(a: Seq<char>, b: Seq<char>, d: char)
    requires
        !b.contains(d),
    ensures
        split_on(a + seq![d] + b, d) == split_on(a, d).push(b),
{
    lemma_split_cut(a, d);
    assert(a + seq![d] =~= a.push(d));
    lemma_split_piece(a.push(d), b, d);
    assert(split_state(a.push(d), d).1 + b =~= b);
}

proof fn lemma_ipv4_text_no_colon(a: u32)
    ensures
        !ipv4_text(a).contains(':'),
{
    let t = ipv4_text(a);
    lemma_dec_digits(octet(a, 0));
    lemma_dec_digits(octet(a, 1));
    lemma_dec_digits(octet(a, 2));
    lemma_dec_digits(octet(a, 3));
    if t.contains(':') {
        let i = choose|i: int| 0 <= i < t.len() && t[i] == ':';
        let d0 = dec(octet(a, 0));
        let d1 = dec(octet(a, 1));
        let d2 = dec(octet(a, 2));
        let d3 = dec(octet(a, 3));
        let n0 = d0.len() as int;
        let n1 = n0 + 1 + d1.len();
        let n2 = n1 + 1 + d2.len();
        if i < n0 {
            assert(t[i] == d0[i]);
            assert(is_digit(d0[i]));
        } else if i == n0 || i == n1 || i == n2 {
            assert(t[i] == '.');
        } else if i < n1 {
            assert(t[i] == d1[i - n0 - 1]);
            assert(is_digit(d1[i - n0 - 1]));
        } else if i < n2 {
            assert(t[i] == d2[i - n1 - 1]);
            assert(is_digit(d2[i - n1 - 1]));
        } else {
            assert(t[i] == d3[i - n2 - 1]);
            assert(is_digit(d3[i - n2 - 1]));
        }
    }
}

/// The groups that `::` drops are zero: putting them back gives the
/// segments.
proof fn lemma_span_restore(g: Seq<nat>, s: int, l: int)
    requires
        zero_span(g, s, l),
    ensures
        g.take(s) + Seq::new(l as nat, |k: int| 0nat) + g.skip(s + l) == g,
{
    let r = g.take(s) + Seq::new(l as nat, |k: int| 0nat) + g.skip(s + l);
    assert forall|k: int| 0 <= k < g.len() implies #[trigger] r[k] == g[k] by {
        if s <= k < s + l {
            assert(g[k] == 0);
        }
    }
    assert(r =~= g);
}

/// An IPv4-mapped address written as `::ffff:` and dotted decimal reads
/// back as its segments.
proof fn lemma_ipv6_mapped(v: u128)
    requires
        ({
            let g = segments(v);
            g[0] == 0 && g[1] == 0 && g[2] == 0 && g[3] == 0 && g[4] == 0 && g[5] == 0xffff
        }),
    ensures
        ipv6_groups(ipv6_text(v)) == Some(segments(v)),
{
    let g = segments(v);
    lemma_segments_value(v);
    let a = (g[6] * 65536 + g[7]) as u32;
    assert(g[6] < 65536 && g[7] < 65536);
    assert(a as nat == g[6] * 65536 + g[7]);
    let t4 = ipv4_text(a);
    let f = seq!['f', 'f', 'f', 'f'];
    let t = ipv6_text(v);
    assert(t == seq![':', ':', 'f', 'f', 'f', 'f', ':'] + t4);
    assert(first_double_colon(t, 0));
    assert forall|i: int| first_double_colon(t, i) implies i == 0 by {
        if i > 0 {
            assert(!(t[0] == ':' && t[1] == ':'));
        }
    }
    let i = choose|i: int| first_double_colon(t, i);
    assert(i == 0);
    assert(t.take(0) =~= Seq::<char>::empty());
    assert(group_values(colon_pieces(t.take(0)), false) == Some(Seq::<nat>::empty()));
    let u = t.skip(2);
    assert(u =~= f + seq![':'] + t4);
    lemma_ipv4_text_no_colon(a);
    lemma_split_join(f, t4, ':');
    assert(!f.contains(':')) by {
        if f.contains(':') {
            let j = choose|j: int| 0 <= j < f.len() && f[j] == ':';
        }
    }
    lemma_split_single(f, ':');
    assert(colon_pieces(u) =~= seq![f, t4]);
    lemma_ipv4_text_roundtrip(a);
    assert('f' as u32 == 102);
    assert(hex_group_ok(f));
    reveal_with_fuel(hex_digits_val, 5);
    assert(f.drop_last() =~= seq!['f', 'f', 'f']);
    assert(f.drop_last().drop_last() =~= seq!['f', 'f']);
    assert(f.drop_last().drop_last().drop_last() =~= seq!['f']);
    assert(seq!['f'].drop_last() =~= Seq::<char>::empty());
    assert(hex_digits_val(f) == 65535);
    let pieces = seq![f, t4];
    assert(pieces.drop_first() =~= seq![t4]);
    let hi = (a as nat) / 65536;
    let lo = (a as nat) % 65536;
    assert(group_values(seq![t4], true) == Some(seq![hi, lo]));
    assert(group_values(pieces, true) == Some(seq![65535nat] + seq![hi, lo]));
    assert(hi == g[6] && lo == g[7]) by (nonlinear_arith)
        requires
            a as nat == g[6] * 65536 + g[7],
            g[7] < 65536,
            hi == (a as nat) / 65536,
            lo == (a as nat) % 65536,
    ;
    let tail = seq![65535nat] + seq![hi, lo];
    let r = Seq::<nat>::empty() + Seq::new((8 - 0 - 3) as nat, |k: int| 0nat) + tail;
    assert(r =~= g);
}

/// The groups written in hexadecimal and joined by `:` read back as
/// themselves, with the last group never read as IPv4.
proof fn lemma_hex_join_groups(g: Seq<nat>, ipv4_last: bool)
    requires
        forall|k: int| 0 <= k < g.len() ==> #[trigger] g[k] < 65536,
    ensures
        group_values(colon_pieces(hex_join(g)), ipv4_last) == Some(g),
{
    if g.len() == 0 {
        assert(hex_join(g) =~= Seq::<char>::empty());
        assert(g =~= Seq::<nat>::empty());
    } else {
        lemma_hex_join(g);
        lemma_group_values_hex(g, ipv4_last);
    }
}

/// An address whose first longest run of zero segments is written as `::`
/// reads back as its segments.
proof fn lemma_ipv6_compressed(v: u128, s: int, l: int)
    requires
        longest_zero_span(segments(v), s, l),
        l >= 2,
    ensures
        ({
            let g = segments(v);
            ipv6_groups(hex_join(g.take(s)) + seq![':', ':'] + hex_join(g.skip(s + l))) == Some(g)
        }),
{
    let g = segments(v);
    lemma_segments_value(v);
    let a = g.take(s);
    let b = g.skip(s + l);
    assert forall|k: int| 0 <= k < a.len() implies #[trigger] a[k] < 65536 by {
        assert(a[k] == g[k]);
    }
    assert forall|k: int| 0 <= k < b.len() implies #[trigger] b[k] < 65536 by {
        assert(b[k] == g[k + s + l]);
    }
    let p = hex_join(a);
    let q = hex_join(b);
    let t = p + seq![':', ':'] + q;
    let i0 = p.len() as int;
    if a.len() > 0 {
        lemma_hex_join(a);
    } else {
        assert(p =~= Seq::<char>::empty());
    }
    assert forall|j: int| 0 <= j < i0 implies !(#[trigger] t[j] == ':' && t[j + 1] == ':') by {
        if j < i0 - 1 {
            assert(t[j] == p[j] && t[j + 1] == p[j + 1]);
        } else {
            assert(t[j] == p.last());
        }
    }
    assert(t[i0] == ':' && t[i0 + 1] == ':');
    assert(first_double_colon(t, i0));
    assert forall|i: int| first_double_colon(t, i) implies i == i0 by {
        if i < i0 {
            assert(!(t[i] == ':' && t[i + 1] == ':'));
        } else if i > i0 {
            assert(!(t[i0] == ':' && t[i0 + 1] == ':'));
        }
    }
    let i = choose|i: int| first_double_colon(t, i);
    assert(i == i0);
    assert(t.take(i0) =~= p);
    assert(t.skip(i0 + 2) =~= q);
    lemma_hex_join_groups(a, false);
    lemma_hex_join_groups(b, true);
    assert(a.len() + b.len() <= 7);
    lemma_span_restore(g, s, l);
    assert((8 - a.len() - b.len()) as nat == l as nat);
}

/// An address with no run of two zero segments, written in full, reads back
/// as its segments.
proof fn lemma_ipv6_full(v: u128)
    ensures
        ipv6_groups(hex_join(segments(v))) == Some(segments(v)),
{
    let g = segments(v);
    lemma_segments_value(v);
    let t = hex_join(g);
    lemma_hex_join(g);
    assert forall|i: int| !first_double_colon(t, i) by {
        if first_double_colon(t, i) {
            assert(0 <= i < t.len() - 1);
            assert(!(t[i] == ':' && t[i + 1] == ':'));
        }
    }
    lemma_group_values_hex(g, true);
}

/// IPv6 text reads back as the address it was written from: the text
/// `Ip::long_to_ip` writes of an IPv6 number is read by `Ip::ip_to_long` as
/// that number.
pub proof fn lemma_ipv6_text_roundtrip(v: u128)
    ensures
        ipv6_parse(ipv6_text(v)) == Some(v),
{
    let g = segments(v);
    lemma_segments_value(v);
    if g[0] == 0 && g[1] == 0 && g[2] == 0 && g[3] == 0 && g[4] == 0 && g[5] == 0xffff {
        lemma_ipv6_mapped(v);
    } else if exists|s: int, l: int| longest_zero_span(g, s, l) && l >= 2 {
        let (s, l) = choose|s: int, l: int| longest_zero_span(g, s, l) && l >= 2;
        lemma_ipv6_compressed(v, s, l);
    } else {
        lemma_ipv6_full(v);
    }
}

/// Every character other than the separator lands in some piece.
proof fn lemma_split_covers(s: Seq<char>, d: char, i: int)
    requires
        0 <= i < s.len(),
        s[i] != d,
    ensures
        exists|k: int| 0 <= k < split_on(s, d).len() && #[trigger] split_on(s, d)[k].contains(s[i]),
    decreases s.len(),
{
    let c = s.last();
    let sp = s.drop_last();
    let (w, cur) = split_state(sp, d);
    if i == s.len() - 1 {
        assert(split_state(s, d) == (w, cur.push(c)));
        let ps = split_on(s, d);
        assert(ps[w.len() as int] == cur.push(c));
        assert(cur.push(c)[cur.len() as int] == c);
        assert(c == s[i]);
        assert(split_on(s, d)[w.len() as int].contains(s[i]));
    } else {
        lemma_split_covers(sp, d, i);
        assert(sp[i] == s[i]);
        let k = choose|k: int| 0 <= k < split_on(sp, d).len() && #[trigger] split_on(sp, d)[k].contains(sp[i]);
        let ps = split_on(s, d);
        if c == d {
            assert(ps[k] == split_on(sp, d)[k]);
        } else {
            if k < w.len() {
                assert(ps[k] == w[k]);
            } else {
                assert(ps[k] == cur.push(c));
                let j = choose|j: int| 0 <= j < cur.len() && cur[j] == sp[i];
                assert(cur.push(c)[j] == sp[i]);
            }
        }
        assert(split_on(s, d)[k].contains(s[i]));
    }
}

/// Text with a colon is no IPv4 address.
proof fn lemma_colon_not_ipv4(t: Seq<char>, i: int)
    requires
        0 <= i < t.len(),
        t[i] == ':',
    ensures
        ipv4_parse(t) is None,
{
    lemma_split_covers(t, '.', i);
    let parts = split_on(t, '.');
    let k = choose|k: int| 0 <= k < parts.len() && #[trigger] parts[k].contains(t[i]);
    let j = choose|j: int| 0 <= j < parts[k].len() && parts[k][j] == t[i];
    assert(!is_digit(parts[k][j]));
    if parts.len() == 4 {
        assert(!octet_text_ok(parts[k]));
    }
}

/// `Ip::ip_to_long` reads back what `Ip::long_to_ip` writes of an IPv6
/// number: the text is an IPv6 address whose value is that number.
pub proof fn lemma_long_ip_roundtrip_v6(long: u128)
    ensures
        long_text(long, IpVersion::V6) matches Some(t) && ip_parse(t) == Some(IpValue::V6(long))
            && value_of(IpValue::V6(long)) == long,
{
    let t = ipv6_text(long);
    let g = segments(long);
    lemma_ipv6_text_roundtrip(long);
    lemma_segments_value(long);
    if g[0] == 0 && g[1] == 0 && g[2] == 0 && g[3] == 0 && g[4] == 0 && g[5] == 0xffff {
        assert(t[0] == ':');
        lemma_colon_not_ipv4(t, 0);
    } else if exists|s: int, l: int| longest_zero_span(g, s, l) && l >= 2 {
        let (s, l) = choose|s: int, l: int| longest_zero_span(g, s, l) && l >= 2;
        let p = hex_join(g.take(s));
        assert(t == p + seq![':', ':'] + hex_join(g.skip(s + l)));
        assert(t[p.len() as int] == ':');
        lemma_colon_not_ipv4(t, p.len() as int);
    } else {
        lemma_hex_join(g);
        let a = hex_join(g.take(7));
        assert(g.take(8).drop_last() =~= g.take(7));
        assert(g.take(8) =~= g);
        assert(t == a + seq![':'] + hex(g[7]));
        assert(t[a.len() as int] == ':');
        lemma_colon_not_ipv4(t, a.len() as int);
    }
}

/// No block with a longer prefix than the one `Ip::ipv4_to_cidr_string`
/// picks holds both addresses: the two differ under every longer mask.
pub proof fn lemma_cidr_v4_smallest(start: u32, end: u32, q: u32)
    requires
        start <= end,
        cidr_prefix_v4(start, end) < q <= 32,
    ensures
        start & mask_v4(q) != end & mask_v4(q),
{
    let d = start ^ end;
    let p = cidr_prefix_v4(start, end);
    vstd::std_specs::bits::axiom_u32_leading_zeros(d);
    assert(d != 0);
    assert(p == d.leading_zeros());
    assert(p < 32);
    let b = (31 - p) as u32;
    let sh = (32 - q) as u32;
    let m = mask_v4(q);
    assert(m == 0xffff_ffffu32 << sh);
    assert((d >> b) & 1u32 != 0u32);
    assert(sh <= b);
    assert(start & m != end & m) by (bit_vector)
        requires
            d == start ^ end,
            (d >> b) & 1u32 != 0u32,
            sh <= b,
            b < 32,
            m == 0xffff_ffffu32 << sh,
    ;
}

/// An address written as `IpAddr` writes it is read by `Ip::ip_to_long` as
/// its number, which `Ip::long_to_ip` writes back as the same text, for
/// IPv4 and for IPv6.
pub proof fn lemma_canonical_text_round_trip(a: u32, v: u128)
    ensures
        ip_parse(ipv4_text(a)) == Some(IpValue::V4(a)),
        long_text(value_of(IpValue::V4(a)), IpVersion::V4) == Some(ipv4_text(a)),
        ip_parse(ipv6_text(v)) == Some(IpValue::V6(v)),
        long_text(value_of(IpValue::V6(v)), IpVersion::V6) == Some(ipv6_text(v)),
{
    lemma_ipv4_text_roundtrip(a);
    lemma_long_ip_roundtrip_v6(v);
}

proof fn lemma_no_char_in_ipv4_text(a: u32, c: char)
    requires
        c != '.',
        !(48 <= (c as u32) <= 57),
    ensures
        !ipv4_text(a).contains(c),
{
    let t = ipv4_text(a);
    lemma_dec_digits(octet(a, 0));
    lemma_dec_digits(octet(a, 1));
    lemma_dec_digits(octet(a, 2));
    lemma_dec_digits(octet(a, 3));
    if t.contains(c) {
        let i = choose|i: int| 0 <= i < t.len() && t[i] == c;
        let d0 = dec(octet(a, 0));
        let d1 = dec(octet(a, 1));
        let d2 = dec(octet(a, 2));
        let d3 = dec(octet(a, 3));
        let n0 = d0.len() as int;
        let n1 = n0 + 1 + d1.len();
        let n2 = n1 + 1 + d2.len();
        if i < n0 {
            assert(t[i] == d0[i]);
            assert(is_digit(d0[i]));
        } else if i == n0 || i == n1 || i == n2 {
            assert(t[i] == '.');
        } else if i < n1 {
            assert(t[i] == d1[i - n0 - 1]);
            assert(is_digit(d1[i - n0 - 1]));
        } else if i < n2 {
            assert(t[i] == d2[i - n1 - 1]);
            assert(is_digit(d2[i - n1 - 1]));
        } else {
            assert(t[i] == d3[i - n2 - 1]);
            assert(is_digit(d3[i - n2 - 1]));
        }
    }
}

/// The block that `Ip::ipv4_to_cidr_string` writes for two IPv4 addresses,
/// with the start not above the end, is read back by
/// `Ip::ipv4_cidr_to_range` as a range from at most the start to at least
/// the end; and no block with a longer prefix holds both.
pub proof fn lemma_cidr_v4_text_round_trip(start: u32, end: u32)
    requires
        start <= end,
    ensures
        ({
            let p = cidr_prefix_v4(start, end);
            let text = cidr_text(ipv4_text(start & mask_v4(p)), p);
            let (f, l) = cidr_v4_bounds(start, p);
            &&& cidr_v4_outcome(text) == Ok::<(Seq<char>, Seq<char>), (ErrorType, Seq<char>)>(
                (ipv4_text(f), ipv4_text(l)),
            )
            &&& f <= start
            &&& end <= l
            &&& forall|q: u32| p < q <= 32 ==> #[trigger] (start & mask_v4(q)) != end & mask_v4(q)
        }),
{
    let p = cidr_prefix_v4(start, end);
    let m = mask_v4(p);
    let x = start & m;
    let a = ipv4_text(x);
    let b = dec(p as nat);
    let text = cidr_text(a, p);
    lemma_cidr_v4_covers(start, end);
    vstd::std_specs::bits::axiom_u32_leading_zeros(start ^ end);
    assert(p <= 32);
    lemma_no_char_in_ipv4_text(x, '/');
    lemma_dec_digits(p as nat);
    assert(!b.contains('/')) by {
        if b.contains('/') {
            let i = choose|i: int| 0 <= i < b.len() && b[i] == '/';
            assert(is_digit(b[i]));
        }
    }
    lemma_split_join(a, b, '/');
    lemma_split_single(a, '/');
    assert(text == a + seq!['/'] + b);
    assert(split_on(text, '/') =~= seq![a, b]);
    lemma_ipv4_text_roundtrip(x);
    assert(b.len() > 0 && b[0] != '+') by {
        assert(is_digit(b[0]));
    }
    assert(crate::text::unsigned_text(b) == Some(p as nat));
    assert(x & m == x) by (bit_vector)
        requires
            x == start & m,
    ;
    assert forall|q: u32| p < q <= 32 implies #[trigger] (start & mask_v4(q)) != end & mask_v4(q) by {
        lemma_cidr_v4_smallest(start, end, q);
    }
}

/// The IPv4 bogons by number: an address is a bogon exactly when it lies in
/// `0.0.0.0/8`, `10.0.0.0/8`, `127.0.0.0/8`, `169.254.0.0/16`,
/// `172.16.0.0/12`, `192.0.2.0/24`, `192.168.0.0/16`, `198.51.100.0/24`,
/// `203.0.113.0/24` or the multicast block `224.0.0.0/4`; and
/// `Ip::is_bogon` answers so for the text of every IPv4 address.
pub proof fn lemma_v4_bogon_ranges(a: u32)
    ensures
        v4_is_bogon(a) <==> {
            ||| a <= 0x00ff_ffff
            ||| 0x0a00_0000 <= a <= 0x0aff_ffff
            ||| 0x7f00_0000 <= a <= 0x7fff_ffff
            ||| 0xa9fe_0000 <= a <= 0xa9fe_ffff
            ||| 0xac10_0000 <= a <= 0xac1f_ffff
            ||| 0xc000_0200 <= a <= 0xc000_02ff
            ||| 0xc0a8_0000 <= a <= 0xc0a8_ffff
            ||| 0xc633_6400 <= a <= 0xc633_64ff
            ||| 0xcb00_7100 <= a <= 0xcb00_71ff
            ||| 0xe000_0000 <= a <= 0xefff_ffff
        },
        0xe000_0000 <= a <= 0xefff_ffff ==> bogon_text(ipv4_text(a)),
        bogon_text(ipv4_text(a)) == v4_is_bogon(a),
{
    let x = a as int;
    let o0 = octet(a, 0);
    let o1 = octet(a, 1);
    let o2 = octet(a, 2);
    assert(o0 == x / 16777216);
    assert(o1 == (x / 65536) % 256);
    assert(o2 == (x / 256) % 256);
    let q1 = x / 65536;
    let q2 = x / 256;
    assert(q1 == o0 * 256 + o1) by (nonlinear_arith)
        requires
            0 <= x,
            q1 == x / 65536,
            o0 == x / 16777216,
            o1 == q1 % 256,
    ;
    assert(q2 == q1 * 256 + o2) by (nonlinear_arith)
        requires
            0 <= x,
            q1 == x / 65536,
            q2 == x / 256,
            o2 == q2 % 256,
    ;
    assert(16777216 * o0 <= x < 16777216 * (o0 + 1)) by (nonlinear_arith)
        requires
            0 <= x,
            o0 == x / 16777216,
    ;
    assert(65536 * q1 <= x < 65536 * (q1 + 1)) by (nonlinear_arith)
        requires
            0 <= x,
            q1 == x / 65536,
    ;
    assert(256 * q2 <= x < 256 * (q2 + 1)) by (nonlinear_arith)
        requires
            0 <= x,
            q2 == x / 256,
    ;
    lemma_ipv4_text_roundtrip(a);
}

} // verus!
