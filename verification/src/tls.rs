//! What the certificate store reads itself: the size limits of key and
//! certificate files, and the names and addresses listed in a certificate's
//! subject-alternative-name extension.
use vstd::prelude::*;

use crate::error::{Error, ErrorType};
use crate::hack::{ascii_lower, lower_ascii};
use crate::table::string_views;
use crate::ip::{format_ipv6, ipv6_text};
use crate::text::{chars_eq, chars_of, dec, fmt_u128, string_of};

verus! {

/// The largest certificate file read, with its chain.
pub const MAX_CERTIFICATE_FILE_SIZE: u64 = 51200;
/// The largest key file read.
pub const MAX_KEY_FILE_SIZE: u64 = 10240;
/// The smallest key or certificate file read.
pub const MIN_KEY_OR_CERTIFICATE_FILE_SIZE: u64 = 300;

/// Whether a certificate file of the given size is read: `InvalidData`
/// when it is over 50 KiB, or under 300 bytes.
pub fn check_certificate_size(len: u64) -> (r: Result<(), Error>)
    ensures
        match r {
            Ok(()) => 300 <= len <= 51200,
            Err(e) => if len > 51200 {
                e@ == (ErrorType::InvalidData, "Certificate file is too large"@)
            } else {
                len < 300 && e@ == (ErrorType::InvalidData, "Certificate file is too small"@)
            },
        },
{
    if len > MAX_CERTIFICATE_FILE_SIZE {
        return Err(Error::invalid_data("Certificate file is too large"));
    }
    if len < MIN_KEY_OR_CERTIFICATE_FILE_SIZE {
        return Err(Error::invalid_data("Certificate file is too small"));
    }
    Ok(())
}

/// Whether a key file of the given size is read: `InvalidData` when it is
/// under 300 bytes, or over 10 KiB.
pub fn check_key_size(len: u64) -> (r: Result<(), Error>)
    ensures
        match r {
            Ok(()) => 300 <= len <= 10240,
            Err(e) => if len < 300 {
                e@ == (ErrorType::InvalidData, "Key file is too small"@)
            } else {
                len > 10240 && e@ == (ErrorType::InvalidData, "Key file is too large"@)
            },
        },
{
    if len < MIN_KEY_OR_CERTIFICATE_FILE_SIZE {
        return Err(Error::invalid_data("Key file is too small"));
    }
    if len > MAX_KEY_FILE_SIZE {
        return Err(Error::invalid_data("Key file is too large"));
    }
    Ok(())
}

/// What `String::from_utf8` makes of the bytes: the text when they are
/// UTF-8, `None` when they are not.
pub uninterp spec fn utf8_decoded(bytes: Seq<u8>) -> Option<Seq<char>>;

/// Every byte is ASCII.
pub open spec fn all_ascii(bytes: Seq<u8>) -> bool {
    forall|i: int| 0 <= i < bytes.len() ==> bytes[i] < 128
}

/// The characters of ASCII bytes.
pub open spec fn ascii_chars(bytes: Seq<u8>) -> Seq<char> {
    Seq::new(bytes.len(), |i: int| (bytes[i] as u32) as char)
}

/// Decodes UTF-8 bytes with `String::from_utf8`: `Some` with the text
/// when they are UTF-8, `None` otherwise. What is claimed of the text
/// beyond naming it: bytes that are all ASCII are UTF-8 and read as their
/// characters.
#[verifier::external_body]
fn decode_utf8(bytes: &[u8]) -> (r: Option<String>)
    ensures
        match r {
            Some(s) => utf8_decoded(bytes@) == Some(s@),
            None => utf8_decoded(bytes@) is None,
        },
        all_ascii(bytes@) ==> r is Some && r->0@ == ascii_chars(bytes@),
{
    String::from_utf8(bytes.to_vec()).ok()
}

/// The number that bytes write most significant first.
pub open spec fn be_value(v: Seq<u8>) -> nat
    decreases v.len(),
{
    if v.len() == 0 {
        0
    } else {
        be_value(v.drop_last()) * 256 + v.last() as nat
    }
}

/// 256 to the `k`.
pub open spec fn pow256(k: nat) -> nat
    decreases k,
{
    if k == 0 {
        1
    } else {
        256 * pow256((k - 1) as nat)
    }
}

proof fn lemma_be_value_bound(v: Seq<u8>)
    ensures
        be_value(v) < pow256(v.len()),
    decreases v.len(),
{
    if v.len() > 0 {
        lemma_be_value_bound(v.drop_last());
        let x = be_value(v.drop_last());
        let p = pow256(v.drop_last().len());
        let b = v.last();
        assert(x * 256 + b < 256 * p) by (nonlinear_arith)
            requires
                x < p,
                b < 256,
        ;
    }
}

/// What one entry of a subject-alternative-name list names: a DNS name
/// (tag `0x82`) as its UTF-8 text, an IP address (tag `0x87`) of 4 bytes
/// in dotted decimal or of 16 bytes as an IPv6 address is written; `None`
/// for anything else.
pub open spec fn san_item(tag: u8, value: Seq<u8>) -> Option<Seq<char>> {
    if tag == 0x82 {
        utf8_decoded(value)
    } else if tag == 0x87 {
        if value.len() == 4 {
            Some(dec(value[0] as nat) + seq!['.'] + dec(value[1] as nat) + seq!['.'] + dec(value[2] as nat)
                + seq!['.'] + dec(value[3] as nat))
        } else if value.len() == 16 {
            Some(ipv6_text(be_value(value) as u128))
        } else {
            None
        }
    } else {
        None
    }
}

/// The names a subject-alternative-name list holds from position `i` on,
/// in order: each entry is a tag byte, a length byte and that many bytes
/// of value; an entry that runs past the end ends the list. `None` when a
/// tag byte has no length byte after it.
pub open spec fn san_walk(b: Seq<u8>, i: nat) -> Option<Seq<Seq<char>>>
    decreases b.len() - i,
{
    if i >= b.len() {
        Some(Seq::empty())
    } else if i + 1 >= b.len() {
        None
    } else {
        let end = i + 2 + b[i + 1 as int];
        if end > b.len() {
            Some(Seq::empty())
        } else {
            match san_walk(b, end as nat) {
                None => None,
                Some(rest) => match san_item(b[i as int], b.subrange(i + 2 as int, end as int)) {
                    Some(x) => Some(seq![x] + rest),
                    None => Some(rest),
                },
            }
        }
    }
}

/// The items of `s` without repeats, each where it first occurs.
pub open spec fn distinct_in_order(s: Seq<Seq<char>>) -> Seq<Seq<char>>
    decreases s.len(),
{
    if s.len() == 0 {
        s
    } else if distinct_in_order(s.drop_last()).contains(s.last()) {
        distinct_in_order(s.drop_last())
    } else {
        distinct_in_order(s.drop_last()).push(s.last())
    }
}

/// The names a certificate is for: its common name when it has one and
/// the names its subject-alternative-name list holds, each once, then made
/// lowercase in ASCII.
pub open spec fn certificate_names(common_name: Option<Seq<char>>, sans: Seq<Seq<char>>) -> Seq<Seq<char>> {
    let all = match common_name {
        Some(cn) => seq![cn] + sans,
        None => sans,
    };
    distinct_in_order(all).map_values(|t: Seq<char>| ascii_lower(t))
}

/// The characters of bytes written as a decimal number, byte by byte.
fn dotted_quad(v: &[u8]) -> (r: Vec<char>)
    requires
        v@.len() == 4,
    ensures
        r@ == dec(v@[0] as nat) + seq!['.'] + dec(v@[1] as nat) + seq!['.'] + dec(v@[2] as nat) + seq!['.']
            + dec(v@[3] as nat),
{
    let mut t = fmt_u128(v[0] as u128);
    t.push('.');
    let b = fmt_u128(v[1] as u128);
    crate::text::push_all(&mut t, &b);
    t.push('.');
    let c = fmt_u128(v[2] as u128);
    crate::text::push_all(&mut t, &c);
    t.push('.');
    let d = fmt_u128(v[3] as u128);
    crate::text::push_all(&mut t, &d);
    t
}

/// The number that 16 bytes write most significant first.
fn be_u128(v: &[u8]) -> (r: u128)
    requires
        v@.len() == 16,
    ensures
        r == be_value(v@),
{
    let mut acc: u128 = 0;
    let mut i: usize = 0;
    while i < 16
        invariant
            0 <= i <= 16,
            v@.len() == 16,
            acc == be_value(v@.take(i as int)),
        decreases 16 - i,
    {
        proof {
            lemma_be_value_bound(v@.take(i + 1));
            assert(v@.take(i + 1).drop_last() =~= v@.take(i as int));
            assert(pow256((i + 1) as nat) <= pow256(16)) by {
                lemma_pow256_mono((i + 1) as nat, 16);
            }
            assert(pow256(16) == 0x1_0000_0000_0000_0000_0000_0000_0000_0000) by {
                reveal_with_fuel(pow256, 17);
            }
        }
        acc = acc * 256 + v[i] as u128;
        i = i + 1;
    }
    assert(v@.take(16) =~= v@);
    acc
}

proof fn lemma_pow256_mono(a: nat, b: nat)
    requires
        a <= b,
    ensures
        pow256(a) <= pow256(b),
    decreases b - a,
{
    if a < b {
        lemma_pow256_mono(a, (b - 1) as nat);
    }
}

/// The name one entry of the list stands for, as `san_item` says.
fn read_san_item(tag: u8, value: &[u8]) -> (r: Option<String>)
    ensures
        match r {
            Some(s) => san_item(tag, value@) == Some(s@),
            None => san_item(tag, value@) is None,
        },
{
    if tag == 0x82 {
        decode_utf8(value)
    } else if tag == 0x87 {
        if value.len() == 4 {
            let t = dotted_quad(value);
            Some(string_of(&t))
        } else if value.len() == 16 {
            let n = be_u128(value);
            let t = format_ipv6(n);
            Some(string_of(&t))
        } else {
            None
        }
    } else {
        None
    }
}


/// A copy of `b[from..to]`.
fn slice_bytes(b: &[u8], from: usize, to: usize) -> (r: Vec<u8>)
    requires
        from <= to <= b@.len(),
    ensures
        r@ == b@.subrange(from as int, to as int),
{
    let mut r: Vec<u8> = Vec::new();
    let mut i = from;
    while i < to
        invariant
            from <= i <= to <= b@.len(),
            r@ =~= b@.subrange(from as int, i as int),
        decreases to - i,
    {
        r.push(b[i]);
        i = i + 1;
    }
    r
}

/// A copy of characters.
fn copy_chars(v: &Vec<char>) -> (r: Vec<char>)
    ensures
        r@ == v@,
{
    let mut r: Vec<char> = Vec::new();
    let mut i: usize = 0;
    while i < v.len()
        invariant
            0 <= i <= v@.len(),
            r@ =~= v@.take(i as int),
        decreases v@.len() - i,
    {
        r.push(v[i]);
        i = i + 1;
    }
    assert(v@.take(v@.len() as int) =~= v@);
    r
}

/// `acc` followed by what comes after, where the walk goes on.
pub open spec fn then_walk(acc: Seq<Seq<char>>, rest: Option<Seq<Seq<char>>>) -> Option<Seq<Seq<char>>> {
    match rest {
        Some(r) => Some(acc + r),
        None => None,
    }
}

/// Walks the subject-alternative-name list as `san_walk` says; `None` when
/// a tag byte has no length byte after it.
fn walk_sans(b: &[u8]) -> (r: Option<Vec<String>>)
    ensures
        match san_walk(b@, 0) {
            Some(names) => r matches Some(v) && string_views(v@) == names,
            None => r is None,
        },
{
    let mut acc: Vec<String> = Vec::new();
    let mut i: usize = 0;
    assert(then_walk(string_views(acc@), san_walk(b@, 0)) == san_walk(b@, 0)) by {
        assert(string_views(acc@) =~= Seq::<Seq<char>>::empty());
        match san_walk(b@, 0) {
            Some(r) => assert(Seq::<Seq<char>>::empty() + r =~= r),
            None => {},
        }
    }
    while i < b.len()
        invariant
            san_walk(b@, 0) == then_walk(string_views(acc@), san_walk(b@, i as nat)),
        decreases b@.len() - i,
    {
        if i + 1 >= b.len() {
            return None;
        }
        let len = b[i + 1] as usize;
        let start = i + 2;
        if len > b.len() - start {
            assert(san_walk(b@, i as nat) == Some(Seq::<Seq<char>>::empty()));
            assert(string_views(acc@) + Seq::<Seq<char>>::empty() =~= string_views(acc@));
            return Some(acc);
        }
        let end = start + len;
        assert(end == i + 2 + b@[i + 1 as int]);
        let value = slice_bytes(b, start, end);
        let item = read_san_item(b[i], &value);
        let ghost before = string_views(acc@);
        match item {
            Some(s) => {
                proof {
                    match san_walk(b@, end as nat) {
                        Some(rest) => {
                            assert(before + (seq![s@] + rest) =~= before.push(s@) + rest);
                        },
                        None => {},
                    }
                }
                acc.push(s);
                assert(string_views(acc@) =~= before.push(s@));
            },
            None => {},
        }
        i = end;
    }
    assert(san_walk(b@, i as nat) == Some(Seq::<Seq<char>>::empty()));
    assert(string_views(acc@) + Seq::<Seq<char>>::empty() =~= string_views(acc@));
    Some(acc)
}

/// Whether the subject-alternative-name list can be walked: no tag byte
/// without a length byte after it.
pub fn sans_readable(san_bytes: &[u8]) -> (r: bool)
    ensures
        r == san_walk(san_bytes@, 0) is Some,
{
    walk_sans(san_bytes).is_some()
}

/// The names a certificate is for, as `certificate_names` says, from its
/// common name (read by the certificate parser) and the bytes of its
/// subject-alternative-name extension.
pub fn list_sans(common_name: Option<&str>, san_bytes: &[u8]) -> (r: Vec<String>)
    requires
        san_walk(san_bytes@, 0) is Some,
    ensures
        string_views(r@) == certificate_names(
            match common_name {
                Some(c) => Some(c@),
                None => None,
            },
            san_walk(san_bytes@, 0)->0,
        ),
{
    let sans = match walk_sans(san_bytes) {
        Some(v) => v,
        None => Vec::new(),
    };
    let mut all: Vec<Vec<char>> = Vec::new();
    match common_name {
        Some(c) => all.push(chars_of(c)),
        None => {},
    }
    let ghost head = all@.len();
    let mut k: usize = 0;
    while k < sans.len()
        invariant
            0 <= k <= sans@.len(),
            head <= 1,
            all@.len() == head + k,
            common_name is Some <==> head == 1,
            common_name matches Some(c) ==> all@[0]@ == c@,
            forall|j: int| 0 <= j < k ==> #[trigger] all@[head + j]@ == sans@[j]@,
        decreases sans@.len() - k,
    {
        all.push(chars_of(sans[k].as_str()));
        k = k + 1;
    }
    let ghost all_v = Seq::new(all@.len(), |j: int| all@[j]@);
    let ghost expected_all = match common_name {
        Some(c) => seq![c@] + string_views(sans@),
        None => string_views(sans@),
    };
    assert forall|j: int| 0 <= j < all_v.len() implies all_v[j] == expected_all[j] by {
        if head == 1 {
            if j >= 1 {
                assert(all@[head + (j - 1)]@ == sans@[j - 1]@);
            }
        } else {
            assert(all@[head + j]@ == sans@[j]@);
        }
    }
    assert(all_v =~= expected_all);
    let mut distinct: Vec<Vec<char>> = Vec::new();
    let mut i: usize = 0;
    while i < all.len()
        invariant
            0 <= i <= all@.len(),
            all_v == Seq::new(all@.len(), |j: int| all@[j]@),
            Seq::new(distinct@.len(), |j: int| distinct@[j]@) == distinct_in_order(all_v.take(i as int)),
        decreases all@.len() - i,
    {
        let ghost d0 = Seq::new(distinct@.len(), |j: int| distinct@[j]@);
        assert(all_v.take(i + 1).drop_last() =~= all_v.take(i as int));
        assert(all_v.take(i + 1).last() == all@[i as int]@);
        let mut seen = false;
        let mut j: usize = 0;
        while j < distinct.len()
            invariant
                0 <= j <= distinct@.len(),
                d0 == Seq::new(distinct@.len(), |t: int| distinct@[t]@),
                i < all@.len(),
                seen == exists|t: int| 0 <= t < j && distinct@[t]@ == all@[i as int]@,
            decreases distinct@.len() - j,
        {
            if chars_eq(&distinct[j], &all[i]) {
                seen = true;
            }
            j = j + 1;
        }
        proof {
            if d0.contains(all@[i as int]@) {
                let t = choose|t: int| 0 <= t < d0.len() && d0[t] == all@[i as int]@;
                assert(distinct@[t]@ == all@[i as int]@);
            }
            if seen {
                let t = choose|t: int| 0 <= t < j && distinct@[t]@ == all@[i as int]@;
                assert(d0[t] == all@[i as int]@);
            }
        }
        if !seen {
            let c = copy_chars(&all[i]);
            distinct.push(c);
            assert(Seq::new(distinct@.len(), |t: int| distinct@[t]@) =~= d0.push(all@[i as int]@));
        }
        i = i + 1;
    }
    assert(all_v.take(all_v.len() as int) =~= all_v);
    let mut r: Vec<String> = Vec::new();
    let mut m: usize = 0;
    let ghost dv = Seq::new(distinct@.len(), |j: int| distinct@[j]@);
    while m < distinct.len()
        invariant
            0 <= m <= distinct@.len(),
            dv == Seq::new(distinct@.len(), |j: int| distinct@[j]@),
            string_views(r@) =~= dv.take(m as int).map_values(|t: Seq<char>| ascii_lower(t)),
        decreases distinct@.len() - m,
    {
        let l = lower_ascii(&distinct[m]);
        r.push(string_of(&l));
        assert(dv.take(m + 1).map_values(|t: Seq<char>| ascii_lower(t)) =~= dv.take(m as int).map_values(
            |t: Seq<char>| ascii_lower(t),
        ).push(ascii_lower(dv[m as int])));
        m = m + 1;
    }
    assert(dv.take(dv.len() as int) =~= dv);
    r
}

} // verus!
