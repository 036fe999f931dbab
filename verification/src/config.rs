//! The application settings read from the configuration file, and how
//! they are brought into their allowed ranges before the server uses them.
use vstd::prelude::*;

use crate::error::{Error, ErrorType};
use crate::hack::{size_or_zero, Hack};
use crate::runtime::{datagram_base_of, socket_file_of, Runtime, RuntimeView};
use crate::ip::{ip_parse, Ip};
use crate::path::{clean, cleaned_path};
use crate::redis::RedisConfig;
use crate::table::{copy_strings, string_views};
use crate::text::{
    chars_eq, chars_of, dec, eq_str, fmt_u128, last_at, lowercase, parse_u64, parse_unsigned,
    has_prefix, push_all, rfind_char, starts_with, slice_copy, string_empty, string_of, text_with, to_lowercase, trim,
    trim_chars, unsigned_text,
};

verus! {

/// Where the last `:` of a listener stands.
pub open spec fn last_colon(t: Seq<char>) -> Option<int> {
    if t.contains(':') {
        Some(choose|i: int| last_at(t, ':', i))
    } else {
        None
    }
}

/// The port text of a listener: what follows its last `:`, or all of it
/// when it has none.
pub open spec fn port_text(t: Seq<char>) -> Seq<char> {
    match last_colon(t) {
        Some(i) => t.skip(i + 1),
        None => t,
    }
}

/// The message of `ParseIntError` for a text that is no `u64`.
pub open spec fn int_error_text(s: Seq<char>) -> Seq<char> {
    if s.len() == 0 {
        "cannot parse integer from empty string"@
    } else if unsigned_text(s) is None {
        "invalid digit found in string"@
    } else {
        "number too large to fit in target type"@
    }
}

/// What one listener `host:port` reads as: `Some(Ok((address, port)))`
/// with `localhost` written `127.0.0.1` (and, for a TLS listener, an
/// empty host written `0.0.0.0`); `Some(Err((kind, message)))` when the
/// port is no number, lies outside `1..=65535`, or the host is no IP
/// address; `None` for a bare port number, which has no host to read.
pub open spec fn listener_of(t: Seq<char>, any_host: bool) -> Option<
    Result<(Seq<char>, u64), (ErrorType, Seq<char>)>,
> {
    let pt = port_text(t);
    match parse_unsigned(pt, u64::MAX as nat) {
        None => Some(Err((ErrorType::Parse, int_error_text(pt)))),
        Some(p) => match last_colon(t) {
            None => None,
            Some(i) => if p < 1 || p > 65535 {
                Some(Err((ErrorType::InvalidData, "Invalid TCP port: "@ + dec(p))))
            } else {
                let h0 = t.take(i);
                let h = if any_host && h0.len() == 0 {
                    "0.0.0.0"@
                } else {
                    h0
                };
                let nh = if lowercase(h) == "localhost"@ {
                    "127.0.0.1"@
                } else {
                    h
                };
                if ip_parse(nh) is None {
                    Some(Err((ErrorType::InvalidData, "Invalid TCP Listener for "@ + t)))
                } else {
                    Some(Ok((nh + ":"@ + dec(p), p as u64)))
                }
            },
        },
    }
}

/// `s` with `x` added at its end unless it already holds it.
pub open spec fn add_unique(s: Seq<Seq<char>>, x: Seq<char>) -> Seq<Seq<char>> {
    if s.contains(x) {
        s
    } else {
        s.push(x)
    }
}

/// The plain and TLS listeners after the first `n` entries of `list`
/// have been read into `start`. A plain entry on port 443 goes to the TLS
/// listeners, a TLS entry on port 80 to the plain ones; the first entry
/// that fails ends the reading with its error; `None` when that first
/// unreadable entry is a bare port number.
pub open spec fn scan_listeners(
    list: Seq<Seq<char>>,
    n: nat,
    start: (Seq<Seq<char>>, Seq<Seq<char>>),
    tls: bool,
) -> Option<Result<(Seq<Seq<char>>, Seq<Seq<char>>), (ErrorType, Seq<char>)>>
    decreases n,
{
    if n == 0 {
        Some(Ok(start))
    } else {
        match scan_listeners(list, (n - 1) as nat, start, tls) {
            Some(Ok((a, b))) => match listener_of(list[n - 1], tls) {
                None => None,
                Some(Err(e)) => Some(Err(e)),
                Some(Ok((x, p))) => if tls {
                    if p == 80 {
                        Some(Ok((add_unique(a, x), b)))
                    } else {
                        Some(Ok((a, add_unique(b, x))))
                    }
                } else {
                    if p == 443 {
                        Some(Ok((a, add_unique(b, x))))
                    } else {
                        Some(Ok((add_unique(a, x), b)))
                    }
                },
            },
            other => other,
        }
    }
}

/// The plain and TLS listeners read from the plain entries, then the
/// TLS entries.
pub open spec fn listeners_of(tcp: Seq<Seq<char>>, tls: Seq<Seq<char>>) -> Option<
    Result<(Seq<Seq<char>>, Seq<Seq<char>>), (ErrorType, Seq<char>)>,
> {
    match scan_listeners(tcp, tcp.len(), (Seq::empty(), Seq::empty()), false) {
        Some(Ok(st)) => scan_listeners(tls, tls.len(), st, true),
        other => other,
    }
}

proof fn lemma_last_at_unique(s: Seq<char>, d: char, i: int, k: int)
    requires
        last_at(s, d, i),
        last_at(s, d, k),
    ensures
        i == k,
{
}

/// The `ParseIntError` message for a text that `parse_u64` refused.
fn int_error_message(s: &[char]) -> (r: Vec<char>)
    requires
        parse_unsigned(s@, u64::MAX as nat) is None,
    ensures
        r@ == int_error_text(s@),
{
    if s.len() == 0 {
        return chars_of("cannot parse integer from empty string");
    }
    let body_from: usize = if s[0] == '+' {
        1
    } else {
        0
    };
    let mut i = body_from;
    let mut all: bool = body_from < s.len();
    let ghost body = if s@[0] == '+' {
        s@.drop_first()
    } else {
        s@
    };
    assert(body =~= s@.skip(body_from as int));
    while i < s.len()
        invariant
            body_from <= i <= s@.len(),
            body =~= s@.skip(body_from as int),
            all ==> body.len() > 0,
            all == (body.len() > 0 && forall|j: int|
                body_from <= j < i ==> crate::text::is_digit(#[trigger] s@[j])),
        decreases s@.len() - i,
    {
        let u = s[i] as u32;
        if u < 48 || u > 57 {
            all = false;
        }
        i = i + 1;
    }
    proof {
        if all {
            assert forall|j: int| 0 <= j < body.len() implies crate::text::is_digit(#[trigger] body[j]) by {
                assert(body[j] == s@[j + body_from]);
            }
        } else if body.len() > 0 {
            let j = choose|j: int| body_from <= j < s@.len() && !crate::text::is_digit(#[trigger] s@[j]);
            assert(body[j - body_from] == s@[j]);
        }
    }
    if all {
        chars_of("number too large to fit in target type")
    } else {
        chars_of("invalid digit found in string")
    }
}

/// Reads one listener as `listener_of` says.
fn read_listener(t: &String, any_host: bool) -> (r: Option<Result<(String, u64), Error>>)
    ensures
        match listener_of(t@, any_host) {
            None => r is None,
            Some(Err((k, m))) => r matches Some(Err(e)) && e@ == (k, m),
            Some(Ok((x, p))) => r matches Some(Ok((s, q))) && s@ == x && q == p,
        },
{
    let cs = chars_of(t.as_str());
    let n = cs.len();
    let colon = rfind_char(&cs, ':');
    proof {
        match colon {
            Some(i) => {
                let k = choose|k: int| last_at(cs@, ':', k);
                assert(cs@[i as int] == ':');
                lemma_last_at_unique(cs@, ':', i as int, k);
            },
            None => {},
        }
    }
    let pt = match colon {
        Some(i) => slice_copy(&cs, i + 1, n),
        None => slice_copy(&cs, 0, n),
    };
    assert(pt@ == port_text(t@)) by {
        match colon {
            Some(i) => assert(pt@ =~= t@.skip(i + 1)),
            None => assert(pt@ =~= t@),
        }
    }
    let p = match parse_u64(&pt) {
        None => {
            let m = int_error_message(&pt);
            return Some(Err(Error { error_type: ErrorType::Parse, message: string_of(&m) }));
        },
        Some(p) => p,
    };
    let i = match colon {
        None => {
            return None;
        },
        Some(i) => i,
    };
    if p < 1 || p > 65535 {
        let d = fmt_u128(p as u128);
        return Some(Err(Error { error_type: ErrorType::InvalidData, message: text_with("Invalid TCP port: ", &d) }));
    }
    let h0 = slice_copy(&cs, 0, i);
    assert(h0@ =~= t@.take(i as int));
    let h = if any_host && h0.len() == 0 {
        chars_of("0.0.0.0")
    } else {
        h0
    };
    let lower = to_lowercase(&h);
    let nh = if eq_str(&lower, "localhost") {
        chars_of("127.0.0.1")
    } else {
        h
    };
    let host = string_of(&nh);
    match Ip::version(host.as_str()) {
        Err(_) => {
            return Some(Err(Error { error_type: ErrorType::InvalidData, message: text_with("Invalid TCP Listener for ", &cs) }));
        },
        Ok(_) => {},
    }
    let mut x = nh;
    x.push(':');
    let d = fmt_u128(p as u128);
    push_all(&mut x, &d);
    assert(x@ =~= nh@ + ":"@ + dec(p as nat)) by {
        reveal_strlit(":");
    }
    Some(Ok((string_of(&x), p)))
}

/// Whether `v` holds the text `x`.
fn holds_text(v: &Vec<String>, x: &[char]) -> (r: bool)
    ensures
        r == string_views(v@).contains(x@),
{
    let mut i: usize = 0;
    while i < v.len()
        invariant
            0 <= i <= v@.len(),
            forall|j: int| 0 <= j < i ==> v@[j]@ != x@,
        decreases v@.len() - i,
    {
        let c = chars_of(v[i].as_str());
        if chars_eq(&c, x) {
            assert(string_views(v@)[i as int] == x@);
            return true;
        }
        i = i + 1;
    }
    proof {
        if string_views(v@).contains(x@) {
            let j = choose|j: int| 0 <= j < string_views(v@).len() && string_views(v@)[j] == x@;
            assert(v@[j]@ == x@);
        }
    }
    false
}

/// Adds `x` to `v` unless `v` already holds it.
fn push_unique(v: &mut Vec<String>, x: String)
    ensures
        string_views(final(v)@) == add_unique(string_views(old(v)@), x@),
{
    let xc = chars_of(x.as_str());
    if !holds_text(v, &xc) {
        v.push(x);
        assert(string_views(v@) =~= string_views(old(v)@).push(x@));
    }
}

/// Reads the entries of `list` into the plain listeners `a` and the TLS
/// listeners `b`, as `scan_listeners` says; `None` where it has none.
fn scan_into(list: &Vec<String>, tls: bool, a: &mut Vec<String>, b: &mut Vec<String>) -> (r: Option<Result<(), Error>>)
    ensures
        match scan_listeners(string_views(list@), list@.len(), (string_views(old(a)@), string_views(old(b)@)), tls) {
            None => r is None,
            Some(Err((k, m))) => r matches Some(Err(e)) && e@ == (k, m),
            Some(Ok((x, y))) => r matches Some(Ok(())) && string_views(final(a)@) == x && string_views(final(b)@) == y,
        },
{
    let ghost la = string_views(a@);
    let ghost lb = string_views(b@);
    let ghost ls = string_views(list@);
    let mut i: usize = 0;
    while i < list.len()
        invariant
            0 <= i <= list@.len(),
            ls == string_views(list@),
            la == string_views(old(a)@),
            lb == string_views(old(b)@),
            scan_listeners(ls, i as nat, (la, lb), tls) == Some(
                Ok::<(Seq<Seq<char>>, Seq<Seq<char>>), (ErrorType, Seq<char>)>((string_views(a@), string_views(b@))),
            ),
        decreases list@.len() - i,
    {
        assert(ls[i as int] == list@[i as int]@);
        match read_listener(&list[i], tls) {
            None => {
                proof {
                    assert(scan_listeners(ls, (i + 1) as nat, (la, lb), tls) is None);
                    lemma_scan_stays(ls, (i + 1) as nat, list@.len(), (la, lb), tls);
                }
                return None;
            },
            Some(Err(e)) => {
                proof {
                    assert(scan_listeners(ls, (i + 1) as nat, (la, lb), tls) == Some(
                        Err::<(Seq<Seq<char>>, Seq<Seq<char>>), (ErrorType, Seq<char>)>((e.error_type, e.message@)),
                    ));
                    lemma_scan_stays(ls, (i + 1) as nat, list@.len(), (la, lb), tls);
                }
                return Some(Err(e));
            },
            Some(Ok((x, p))) => {
                if (tls && p == 80) || (!tls && p != 443) {
                    push_unique(a, x);
                } else {
                    push_unique(b, x);
                }
            },
        }
        i = i + 1;
    }
    Some(Ok(()))
}

/// Once the reading has stopped, later entries change nothing.
proof fn lemma_scan_stays(
    list: Seq<Seq<char>>,
    k: nat,
    n: nat,
    start: (Seq<Seq<char>>, Seq<Seq<char>>),
    tls: bool,
)
    requires
        k <= n,
        !(scan_listeners(list, k, start, tls) is Some && scan_listeners(list, k, start, tls)->0 is Ok),
    ensures
        scan_listeners(list, n, start, tls) == scan_listeners(list, k, start, tls),
    decreases n - k,
{
    if k < n {
        lemma_scan_stays(list, k, (n - 1) as nat, start, tls);
    }
}


pub const MIN_CONNECTIONS: usize = 128;
pub const MAX_CONNECTIONS: usize = 65535;
pub const DEFAULT_CONNECTIONS: usize = 25000;
pub const MIN_CONNECTION_RATE: usize = 32;
pub const MAX_CONNECTION_RATE: usize = 65535;
pub const MIN_BACKLOG: u32 = 128;
pub const MAX_BACKLOG: u32 = 65535;
pub const DEFAULT_BACKLOG: u32 = 4096;
pub const MIN_RLIMIT_NOFILE: usize = 4096;
pub const MAX_RLIMIT_NOFILE: usize = 1048576;
pub const DEFAULT_RLIMIT_NOFILE: usize = 65535;
pub const MIN_OPERATION_TIMEOUT: usize = 1;
pub const MAX_OPERATION_TIMEOUT: usize = 3600;
pub const DEFAULT_OPERATION_TIMEOUT: usize = 10;
pub const MIN_REQUEST_TIMEOUT: usize = 0;
pub const MAX_REQUEST_TIMEOUT: usize = 3600;
pub const DEFAULT_REQUEST_TIMEOUT: usize = 10;
pub const MIN_DISCONNECT_TIMEOUT: usize = 0;
pub const MAX_DISCONNECT_TIMEOUT: usize = 3600;
pub const DEFAULT_DISCONNECT_TIMEOUT: usize = 10;
pub const MIN_KEEP_ALIVE: usize = 0;
pub const MAX_KEEP_ALIVE: usize = 43200;
pub const DEFAULT_KEEP_ALIVE: usize = 75;
pub const MIN_SSL_SESSION_CACHE: usize = 2;
pub const MAX_SSL_SESSION_CACHE: usize = 256;
pub const DEFAULT_SSL_SESSION_CACHE: usize = 32;
pub const MIN_CSRF_DURATION_MINUTES: usize = 5;
pub const MAX_CSRF_DURATION_MINUTES: usize = 86400;
pub const DEFAULT_CSRF_DURATION_MINUTES: usize = 30;
pub const MIN_AUTO_CLEAN_MEMORY_SIZE_BYTES: u64 = 134217728;
pub const DEFAULT_AUTO_CLEAN_MEMORY_SIZE_BYTES: u64 = 402653184;
pub const MIN_AUTO_CLEAN_MEMORY_INTERVAL: u64 = 30;
pub const MAX_AUTO_CLEAN_MEMORY_INTERVAL: u64 = 2592000;
pub const DEFAULT_AUTO_CLEAN_MEMORY_INTERVAL: u64 = 3600;

/// An owned copy of a literal.
fn owned(s: &str) -> (r: String)
    ensures
        r@ == s@,
{
    let c = chars_of(s);
    string_of(&c)
}

/// `Ord::clamp`.
pub open spec fn clamp(v: int, lo: int, hi: int) -> int {
    if v < lo {
        lo
    } else if v > hi {
        hi
    } else {
        v
    }
}

fn clamp_usize(v: usize, lo: usize, hi: usize) -> (r: usize)
    requires
        lo <= hi,
    ensures
        r == clamp(v as int, lo as int, hi as int),
{
    if v < lo {
        lo
    } else if v > hi {
        hi
    } else {
        v
    }
}

/// `s` without the `d` at its start.
pub open spec fn strip_start(s: Seq<char>, d: char) -> Seq<char>
    decreases s.len(),
{
    if s.len() > 0 && s[0] == d {
        strip_start(s.drop_first(), d)
    } else {
        s
    }
}

/// `s` without the `d` at its end.
pub open spec fn strip_end(s: Seq<char>, d: char) -> Seq<char>
    decreases s.len(),
{
    if s.len() > 0 && s.last() == d {
        strip_end(s.drop_last(), d)
    } else {
        s
    }
}

/// A character that a dashboard path may hold: `a`-`z`, `0`-`9`, `_`, `-`.
pub open spec fn dashboard_char(c: char) -> bool {
    (97 <= (c as u32) <= 122) || (48 <= (c as u32) <= 57) || c == '_' || c == '-'
}

/// A lowercase ASCII letter or a digit.
pub open spec fn lower_alnum(c: char) -> bool {
    (97 <= (c as u32) <= 122) || (48 <= (c as u32) <= 57)
}

/// The characters of `s` that a dashboard path may hold, in order.
pub open spec fn dashboard_chars(s: Seq<char>) -> Seq<char>
    decreases s.len(),
{
    if s.len() == 0 {
        s
    } else if dashboard_char(s.last()) {
        dashboard_chars(s.drop_last()).push(s.last())
    } else {
        dashboard_chars(s.drop_last())
    }
}

/// The dashboard path made of a configured one: without `/` at either
/// end; lowercase with the characters other than `a`-`z`, `0`-`9`, `_`
/// and `-` removed; and `dashboard` where that leaves nothing or a path
/// that does not begin and end with a letter or digit.
pub open spec fn dashboard_path_of(p: Seq<char>) -> Seq<char> {
    let t = strip_end(strip_start(p, '/'), '/');
    if t.len() == 0 {
        "dashboard"@
    } else {
        let f = dashboard_chars(lowercase(t));
        if f.len() == 0 || !lower_alnum(f[0]) || !lower_alnum(f.last()) {
            "dashboard"@
        } else {
            f
        }
    }
}

proof fn lemma_strip_start_skip(s: Seq<char>, d: char, i: int)
    requires
        0 <= i <= s.len(),
        forall|j: int| 0 <= j < i ==> #[trigger] s[j] == d,
    ensures
        strip_start(s, d) == strip_start(s.skip(i), d),
    decreases i,
{
    if i > 0 {
        assert(s.skip(1) =~= s.drop_first());
        lemma_strip_start_skip(s.drop_first(), d, i - 1);
        assert(s.drop_first().skip(i - 1) =~= s.skip(i));
    } else {
        assert(s.skip(0) =~= s);
    }
}

proof fn lemma_strip_end_take(s: Seq<char>, d: char, k: int)
    requires
        0 <= k <= s.len(),
        forall|j: int| k <= j < s.len() ==> #[trigger] s[j] == d,
    ensures
        strip_end(s, d) == strip_end(s.take(k), d),
    decreases s.len() - k,
{
    if k < s.len() {
        assert(s.take(s.len() - 1) =~= s.drop_last());
        lemma_strip_end_take(s.drop_last(), d, k);
        assert(s.drop_last().take(k) =~= s.take(k));
    } else {
        assert(s.take(k) =~= s);
    }
}

/// `s.trim_start_matches(d).trim_end_matches(d)`.
fn strip_both(s: &[char], d: char) -> (r: Vec<char>)
    ensures
        r@ == strip_end(strip_start(s@, d), d),
{
    let n = s.len();
    let mut a: usize = 0;
    while a < n && s[a] == d
        invariant
            0 <= a <= n == s@.len(),
            forall|j: int| 0 <= j < a ==> #[trigger] s@[j] == d,
        decreases n - a,
    {
        a = a + 1;
    }
    proof {
        lemma_strip_start_skip(s@, d, a as int);
        if a < n {
            assert(strip_start(s@.skip(a as int), d) == s@.skip(a as int));
        } else {
            assert(s@.skip(a as int).len() == 0);
        }
    }
    let mut b: usize = n;
    while b > a && s[b - 1] == d
        invariant
            0 <= a <= b <= n == s@.len(),
            forall|j: int| b <= j < n ==> #[trigger] s@[j] == d,
        decreases b,
    {
        b = b - 1;
    }
    let ghost t = s@.skip(a as int);
    proof {
        assert forall|j: int| (b - a) <= j < t.len() implies #[trigger] t[j] == d by {
            assert(t[j] == s@[j + a]);
        }
        lemma_strip_end_take(t, d, (b - a) as int);
        if b > a {
            assert(t.take((b - a) as int).last() == s@[b - 1]);
        }
    }
    let r = slice_copy(s, a, b);
    assert(r@ =~= t.take((b - a) as int));
    r
}

/// The characters of `s` that a dashboard path may hold.
fn keep_dashboard_chars(s: &[char]) -> (r: Vec<char>)
    ensures
        r@ == dashboard_chars(s@),
{
    let mut r: Vec<char> = Vec::new();
    let mut i: usize = 0;
    while i < s.len()
        invariant
            0 <= i <= s@.len(),
            r@ == dashboard_chars(s@.take(i as int)),
        decreases s@.len() - i,
    {
        let c = s[i];
        let u = c as u32;
        assert(s@.take(i + 1).drop_last() =~= s@.take(i as int));
        assert(s@.take(i + 1).last() == c);
        if (97 <= u && u <= 122) || (48 <= u && u <= 57) || c == '_' || c == '-' {
            r.push(c);
        }
        i = i + 1;
    }
    assert(s@.take(s@.len() as int) =~= s@);
    r
}

/// The dashboard path made of a configured one, as `dashboard_path_of`
/// says.
pub fn dashboard_path(p: &str) -> (r: String)
    ensures
        r@ == dashboard_path_of(p@),
{
    let cs = chars_of(p);
    let t = strip_both(&cs, '/');
    if t.len() == 0 {
        return owned("dashboard");
    }
    let lower = to_lowercase(&t);
    let f = keep_dashboard_chars(&lower);
    let n = f.len();
    if n == 0 {
        return owned("dashboard");
    }
    let a = f[0] as u32;
    let b = f[n - 1] as u32;
    if !((97 <= a && a <= 122) || (48 <= a && a <= 57)) || !((97 <= b && b <= 122) || (48 <= b && b <= 57)) {
        return owned("dashboard");
    }
    string_of(&f)
}


/// A key and certificate pair of one TLS domain.
#[derive(Debug, Clone)]
pub struct SSLKeyCert {
    pub key: String,
    pub cert: String,
}

impl SSLKeyCert {
    pub fn key(&self) -> (r: String)
        ensures
            r@ == self.key@,
    {
        self.key.clone()
    }

    pub fn cert(&self) -> (r: String)
        ensures
            r@ == self.cert@,
    {
        self.cert.clone()
    }
}

/// The TLS settings.
#[derive(Debug)]
pub struct SSLConfig {
    pub auto_create: bool,
    pub listen: Vec<String>,
    pub key: String,
    pub cert: String,
    pub session_cache: usize,
    pub domains: Option<Vec<(String, SSLKeyCert)>>,
}

impl Default for SSLConfig {
    /// Certificates created on demand, no listener, no key or
    /// certificate, and a session cache of 32.
    fn default() -> (r: SSLConfig)
        ensures
            r.auto_create,
            r.listen@.len() == 0,
            r.key@ == Seq::<char>::empty(),
            r.cert@ == Seq::<char>::empty(),
            r.session_cache == DEFAULT_SSL_SESSION_CACHE,
            r.domains is None,
    {
        SSLConfig {
            auto_create: true,
            listen: Vec::new(),
            key: String::new(),
            cert: String::new(),
            session_cache: DEFAULT_SSL_SESSION_CACHE,
            domains: None,
        }
    }
}

impl SSLConfig {
    pub fn listen(&self) -> (r: Vec<String>)
        ensures
            string_views(r@) == string_views(self.listen@),
    {
        let r = copy_strings(&self.listen);
        assert(string_views(r@) =~= string_views(self.listen@));
        r
    }

    pub fn key(&self) -> (r: String)
        ensures
            r@ == self.key@,
    {
        self.key.clone()
    }

    pub fn cert(&self) -> (r: String)
        ensures
            r@ == self.cert@,
    {
        self.cert.clone()
    }

    pub fn session_cache(&self) -> (r: usize)
        ensures
            r == self.session_cache,
    {
        self.session_cache
    }

    /// TLS is configured when it has a listener, a key and a certificate.
    pub fn is_ssl_configured(&self) -> (r: bool)
        ensures
            r == (self.listen@.len() > 0 && self.key@.len() > 0 && self.cert@.len() > 0),
    {
        self.listen.len() > 0 && !string_empty(&self.key) && !string_empty(&self.cert)
    }

    pub fn domains(&self) -> (r: &Option<Vec<(String, SSLKeyCert)>>)
        ensures
            *r == self.domains,
    {
        &self.domains
    }

    pub fn auto_create(&self) -> (r: bool)
        ensures
            r == self.auto_create,
    {
        self.auto_create
    }
}

/// The application settings.
#[derive(Debug)]
pub struct AppConfig {
    pub socket: String,
    pub session_name: String,
    pub csrf_durations: usize,
    pub user: String,
    pub datagram: String,
    pub tcp: Vec<String>,
    pub ssl: SSLConfig,
    pub workers: usize,
    pub mode: String,
    pub dashboard_path: String,
    pub operation_timeout: usize,
    pub request_timeout: usize,
    pub disconnect_timeout: usize,
    pub secret_key: String,
    pub salt_key: String,
    pub max_connections: usize,
    pub max_connections_rate: usize,
    pub backlog: u32,
    pub rlimit_nofile: usize,
    pub keep_alive: usize,
    pub auto_clean_memory: bool,
    pub auto_clean_memory_size: String,
    pub auto_clean_memory_interval: String,
}

/// What the host tells about itself when settings are brought into range:
/// how many threads it runs in parallel (`None` where it cannot say), the
/// configured cleaning interval as seconds, whether the configured user
/// (trimmed) is root, and the user to run as otherwise.
#[derive(Debug)]
pub struct ConfigHost {
    pub available_cpus: Option<usize>,
    pub interval_secs: u64,
    pub user_is_root: bool,
    pub default_user: String,
}

/// The number of workers by default: the threads the host runs in
/// parallel, 1 where it cannot say.
pub open spec fn workers_of(cpus: Option<usize>) -> int {
    match cpus {
        Some(n) => n as int,
        None => 1,
    }
}

/// The plain listeners to read: those configured, or the default one.
pub open spec fn tcp_entries(tcp: Seq<String>) -> Seq<Seq<char>> {
    if tcp.len() == 0 {
        seq!["127.0.0.1:55155"@]
    } else {
        string_views(tcp)
    }
}

/// The text itself, or nothing where it is only whitespace.
pub open spec fn blank_to_empty(s: Seq<char>) -> Seq<char> {
    if trim(s).len() == 0 {
        Seq::empty()
    } else {
        s
    }
}

/// What each setting becomes once brought into range, given the listeners
/// read (`tcp`, `tls`).
pub open spec fn app_normalized(
    before: AppConfig,
    after: AppConfig,
    rt: RuntimeView,
    host: ConfigHost,
    tcp: Seq<Seq<char>>,
    tls: Seq<Seq<char>>,
) -> bool {
    let limit: int = if rt.has_limit_less {
        1048576
    } else {
        65535
    };
    let cpus = workers_of(host.available_cpus);
    let workers: int = if before.workers == 0 {
        cpus
    } else {
        before.workers as int
    };
    let clean_size = size_or_zero(before.auto_clean_memory_size@);
    &&& after.socket@ == socket_file_of(rt)
    &&& after.datagram@ == datagram_base_of(rt)
    &&& string_views(after.tcp@) == tcp
    &&& string_views(after.ssl.listen@) == tls
    &&& after.ssl.auto_create == before.ssl.auto_create
    &&& after.ssl.key@ == blank_to_empty(before.ssl.key@)
    &&& after.ssl.cert@ == blank_to_empty(before.ssl.cert@)
    &&& after.ssl.session_cache == if before.ssl.session_cache == 0 {
        32
    } else {
        clamp(before.ssl.session_cache as int, 2, 256)
    }
    &&& after.ssl.domains == before.ssl.domains
    &&& after.max_connections == clamp(before.max_connections as int, 128, limit)
    &&& after.max_connections_rate == if before.max_connections_rate == 0 {
        cpus * 256
    } else {
        clamp(before.max_connections_rate as int, 32, limit)
    }
    &&& after.backlog == clamp(before.backlog as int, 128, 65535)
    &&& after.rlimit_nofile == clamp(before.rlimit_nofile as int, 4096, 1048576)
    &&& after.operation_timeout == clamp(before.operation_timeout as int, 1, 3600)
    &&& after.request_timeout == clamp(before.request_timeout as int, 0, 3600)
    &&& after.disconnect_timeout == clamp(before.disconnect_timeout as int, 0, 3600)
    &&& after.csrf_durations == clamp(before.csrf_durations as int, 5, 86400)
    &&& after.keep_alive == clamp(before.keep_alive as int, 0, 43200)
    &&& after.workers == if workers > cpus * 5 {
        cpus * 5
    } else {
        workers
    }
    &&& after.auto_clean_memory == before.auto_clean_memory
    &&& after.auto_clean_memory_size@ == if clean_size != 0 && clean_size < 134217728 {
        "134217728"@
    } else {
        before.auto_clean_memory_size@
    }
    &&& after.auto_clean_memory_interval@ == if host.interval_secs > 2592000 {
        "2592000"@
    } else if host.interval_secs < 30 {
        "30"@
    } else {
        before.auto_clean_memory_interval@
    }
    &&& after.dashboard_path@ == dashboard_path_of(before.dashboard_path@)
    &&& after.session_name@ == if trim(before.session_name@).len() == 0 {
        "vault"@
    } else {
        trim(before.session_name@)
    }
    &&& after.user@ == if trim(before.user@).len() == 0 || host.user_is_root {
        host.default_user@
    } else {
        before.user@
    }
    &&& after.mode@ == before.mode@
    &&& after.secret_key@ == before.secret_key@
    &&& after.salt_key@ == before.salt_key@
}

fn blank_to_empty_string(s: String) -> (r: String)
    ensures
        r@ == blank_to_empty(s@),
{
    let c = chars_of(s.as_str());
    let t = trim_chars(&c);
    if t.len() == 0 {
        String::new()
    } else {
        s
    }
}

impl AppConfig {
    /// The settings brought into their allowed ranges, as `app_normalized`
    /// says, with the listeners as `listeners_of` reads them; the error of
    /// the first listener that cannot be read.
    #[verifier::rlimit(40)]
    pub fn normalized(self, runtime: &Runtime, host: &ConfigHost) -> (r: Result<AppConfig, Error>)
        requires
            listeners_of(tcp_entries(self.tcp@), string_views(self.ssl.listen@)) is Some,
            workers_of(host.available_cpus) * 256 <= usize::MAX,
        ensures
            match listeners_of(tcp_entries(self.tcp@), string_views(self.ssl.listen@)) {
                Some(Ok((tcp, tls))) => r matches Ok(c) && app_normalized(self, c, runtime@, *host, tcp, tls),
                Some(Err((k, m))) => r matches Err(e) && e@ == (k, m),
                None => false,
            },
    {
        let ghost before = self;
        let AppConfig {
            socket: _,
            session_name,
            csrf_durations,
            user,
            datagram: _,
            tcp,
            ssl,
            workers,
            mode,
            dashboard_path: dash,
            operation_timeout,
            request_timeout,
            disconnect_timeout,
            secret_key,
            salt_key,
            max_connections,
            max_connections_rate,
            backlog,
            rlimit_nofile,
            keep_alive,
            auto_clean_memory,
            auto_clean_memory_size,
            auto_clean_memory_interval,
        } = self;
        let tcp_in: Vec<String> = if tcp.len() == 0 {
            let mut v: Vec<String> = Vec::new();
            v.push(owned("127.0.0.1:55155"));
            v
        } else {
            tcp
        };
        assert(string_views(tcp_in@) =~= tcp_entries(before.tcp@));
        let mut plain: Vec<String> = Vec::new();
        let mut secure: Vec<String> = Vec::new();
        assert(string_views(plain@) =~= Seq::<Seq<char>>::empty());
        assert(string_views(secure@) =~= Seq::<Seq<char>>::empty());
        match scan_into(&tcp_in, false, &mut plain, &mut secure) {
            None => {
                return Err(Error { error_type: ErrorType::Other, message: String::new() });
            },
            Some(Err(e)) => {
                return Err(e);
            },
            Some(Ok(())) => {},
        }
        match scan_into(&ssl.listen, true, &mut plain, &mut secure) {
            None => {
                return Err(Error { error_type: ErrorType::Other, message: String::new() });
            },
            Some(Err(e)) => {
                return Err(e);
            },
            Some(Ok(())) => {},
        }
        let SSLConfig { auto_create, listen: _, key, cert, session_cache, domains } = ssl;
        let new_ssl = SSLConfig {
            auto_create,
            listen: secure,
            key: blank_to_empty_string(key),
            cert: blank_to_empty_string(cert),
            session_cache: if session_cache == 0 {
                DEFAULT_SSL_SESSION_CACHE
            } else {
                clamp_usize(session_cache, MIN_SSL_SESSION_CACHE, MAX_SSL_SESSION_CACHE)
            },
            domains,
        };
        let limit = runtime.u16_limitless();
        let cpus: usize = match host.available_cpus {
            Some(n) => n,
            None => 1,
        };
        let rate = if max_connections_rate == 0 {
            cpus * 256
        } else {
            clamp_usize(max_connections_rate, MIN_CONNECTION_RATE, limit)
        };
        let mut w = if workers == 0 {
            cpus
        } else {
            workers
        };
        if w > cpus * 5 {
            w = cpus * 5;
        }
        let clean = Hack::size_to_bytes_zero(auto_clean_memory_size.as_str());
        let clean_size = if clean != 0 && clean < MIN_AUTO_CLEAN_MEMORY_SIZE_BYTES {
            owned("134217728")
        } else {
            auto_clean_memory_size
        };
        let interval = if host.interval_secs > MAX_AUTO_CLEAN_MEMORY_INTERVAL {
            owned("2592000")
        } else if host.interval_secs < MIN_AUTO_CLEAN_MEMORY_INTERVAL {
            owned("30")
        } else {
            auto_clean_memory_interval
        };
        let sn = chars_of(session_name.as_str());
        let sn_t = trim_chars(&sn);
        let new_session = if sn_t.len() == 0 {
            owned("vault")
        } else {
            string_of(&sn_t)
        };
        let uc = chars_of(user.as_str());
        let ut = trim_chars(&uc);
        let new_user = if ut.len() == 0 || host.user_is_root {
            host.default_user.clone()
        } else {
            user
        };
        let new_dash = dashboard_path(dash.as_str());
        let r = AppConfig {
            socket: runtime.socket_file(),
            session_name: new_session,
            csrf_durations: clamp_usize(csrf_durations, MIN_CSRF_DURATION_MINUTES, MAX_CSRF_DURATION_MINUTES),
            user: new_user,
            datagram: runtime.datagram_base_name(),
            tcp: plain,
            ssl: new_ssl,
            workers: w,
            mode,
            dashboard_path: new_dash,
            operation_timeout: clamp_usize(operation_timeout, MIN_OPERATION_TIMEOUT, MAX_OPERATION_TIMEOUT),
            request_timeout: clamp_usize(request_timeout, MIN_REQUEST_TIMEOUT, MAX_REQUEST_TIMEOUT),
            disconnect_timeout: clamp_usize(disconnect_timeout, MIN_DISCONNECT_TIMEOUT, MAX_DISCONNECT_TIMEOUT),
            secret_key,
            salt_key,
            max_connections: clamp_usize(max_connections, MIN_CONNECTIONS, limit),
            max_connections_rate: rate,
            backlog: if backlog < MIN_BACKLOG {
                MIN_BACKLOG
            } else if backlog > MAX_BACKLOG {
                MAX_BACKLOG
            } else {
                backlog
            },
            rlimit_nofile: clamp_usize(rlimit_nofile, MIN_RLIMIT_NOFILE, MAX_RLIMIT_NOFILE),
            keep_alive: clamp_usize(keep_alive, MIN_KEEP_ALIVE, MAX_KEEP_ALIVE),
            auto_clean_memory,
            auto_clean_memory_size: clean_size,
            auto_clean_memory_interval: interval,
        };
        proof {
            reveal_strlit("134217728");
            reveal_strlit("2592000");
            reveal_strlit("30");
            reveal_strlit("vault");
        }
        Ok(r)
    }
}


impl AppConfig {
    /// Whether the listeners can be read without meeting a bare port
    /// number first: the condition under which `normalized` may be called.
    pub fn has_readable_listeners(&self) -> (r: bool)
        ensures
            r == listeners_of(tcp_entries(self.tcp@), string_views(self.ssl.listen@)) is Some,
    {
        let tcp_in: Vec<String> = if self.tcp.len() == 0 {
            let mut v: Vec<String> = Vec::new();
            v.push(owned("127.0.0.1:55155"));
            v
        } else {
            copy_strings(&self.tcp)
        };
        assert(string_views(tcp_in@) =~= tcp_entries(self.tcp@));
        let mut plain: Vec<String> = Vec::new();
        let mut secure: Vec<String> = Vec::new();
        assert(string_views(plain@) =~= Seq::<Seq<char>>::empty());
        assert(string_views(secure@) =~= Seq::<Seq<char>>::empty());
        match scan_into(&tcp_in, false, &mut plain, &mut secure) {
            None => false,
            Some(Err(_)) => true,
            Some(Ok(())) => scan_into(&self.ssl.listen, true, &mut plain, &mut secure).is_some(),
        }
    }

    pub fn socket(&self) -> (r: &str)
        ensures
            r@ == self.socket@,
    {
        self.socket.as_str()
    }

    pub fn csrf_durations(&self) -> (r: usize)
        ensures
            r == self.csrf_durations,
    {
        self.csrf_durations
    }

    /// The lifetime of a CSRF token, in seconds.
    pub fn csrf_duration(&self) -> (r: u64)
        requires
            self.csrf_durations * 60 <= u64::MAX,
        ensures
            r == self.csrf_durations * 60,
    {
        self.csrf_durations as u64 * 60
    }

    pub fn session_name(&self) -> (r: &str)
        ensures
            r@ == self.session_name@,
    {
        self.session_name.as_str()
    }

    /// The session name followed by `_salt`.
    pub fn salt_session_name(&self) -> (r: String)
        ensures
            r@ == self.session_name@ + "_salt"@,
    {
        let mut t = chars_of(self.session_name.as_str());
        let s = chars_of("_salt");
        push_all(&mut t, &s);
        string_of(&t)
    }

    pub fn datagram(&self) -> (r: &str)
        ensures
            r@ == self.datagram@,
    {
        self.datagram.as_str()
    }

    pub fn worker(&self) -> (r: usize)
        ensures
            r == self.workers,
    {
        self.workers
    }

    pub fn tcp(&self) -> (r: &Vec<String>)
        ensures
            r@ == self.tcp@,
    {
        &self.tcp
    }

    pub fn mode(&self) -> (r: &str)
        ensures
            r@ == self.mode@,
    {
        self.mode.as_str()
    }

    pub fn operation_timeout(&self) -> (r: usize)
        ensures
            r == self.operation_timeout,
    {
        self.operation_timeout
    }

    /// The operation timeout in seconds.
    pub fn operation_timeout_duration(&self) -> (r: u64)
        ensures
            r == self.operation_timeout,
    {
        self.operation_timeout as u64
    }

    pub fn request_timeout(&self) -> (r: usize)
        ensures
            r == self.request_timeout,
    {
        self.request_timeout
    }

    /// The request timeout in seconds.
    pub fn request_timeout_duration(&self) -> (r: u64)
        ensures
            r == self.request_timeout,
    {
        self.request_timeout as u64
    }

    pub fn disconnect_timeout(&self) -> (r: usize)
        ensures
            r == self.disconnect_timeout,
    {
        self.disconnect_timeout
    }

    /// The disconnect timeout in seconds.
    pub fn disconnect_timeout_duration(&self) -> (r: u64)
        ensures
            r == self.disconnect_timeout,
    {
        self.disconnect_timeout as u64
    }

    pub fn secret_key(&self) -> (r: &str)
        ensures
            r@ == self.secret_key@,
    {
        self.secret_key.as_str()
    }

    pub fn salt_key(&self) -> (r: &str)
        ensures
            r@ == self.salt_key@,
    {
        self.salt_key.as_str()
    }

    pub fn max_connections(&self) -> (r: usize)
        ensures
            r == self.max_connections,
    {
        self.max_connections
    }

    pub fn dashboard_path(&self) -> (r: &str)
        ensures
            r@ == self.dashboard_path@,
    {
        self.dashboard_path.as_str()
    }

    pub fn max_connections_rate(&self) -> (r: usize)
        ensures
            r == self.max_connections_rate,
    {
        self.max_connections_rate
    }

    pub fn backlog(&self) -> (r: u32)
        ensures
            r == self.backlog,
    {
        self.backlog
    }

    pub fn rlimit_nofile(&self) -> (r: usize)
        ensures
            r == self.rlimit_nofile,
    {
        self.rlimit_nofile
    }

    pub fn ssl(&self) -> (r: &SSLConfig)
        ensures
            *r == self.ssl,
    {
        &self.ssl
    }

    pub fn keep_alive(&self) -> (r: usize)
        ensures
            r == self.keep_alive,
    {
        self.keep_alive
    }

    /// How long an idle connection is kept, in seconds; `None` when keeping
    /// alive is disabled (a keep-alive of 0).
    pub fn keep_alive_duration(&self) -> (r: Option<u64>)
        ensures
            r == if self.keep_alive == 0 {
                None
            } else {
                Some(self.keep_alive as u64)
            },
    {
        if self.keep_alive == 0 {
            None
        } else {
            Some(self.keep_alive as u64)
        }
    }

    pub fn user(&self) -> (r: &str)
        ensures
            r@ == self.user@,
    {
        self.user.as_str()
    }

    /// The mode, made lowercase, begins with `prod`.
    pub fn is_production(&self) -> (r: bool)
        ensures
            r == has_prefix(lowercase(self.mode@), "prod"@),
    {
        let m = chars_of(self.mode.as_str());
        let l = to_lowercase(&m);
        let p = chars_of("prod");
        starts_with(&l, &p)
    }

    pub fn auto_clean_memory(&self) -> (r: bool)
        ensures
            r == self.auto_clean_memory,
    {
        self.auto_clean_memory
    }

    pub fn auto_clean_memory_size(&self) -> (r: &str)
        ensures
            r@ == self.auto_clean_memory_size@,
    {
        self.auto_clean_memory_size.as_str()
    }

    /// The cleaning threshold in bytes, 0 where its text reads as none.
    pub fn auto_clean_memory_size_bytes(&self) -> (r: u64)
        ensures
            r == size_or_zero(self.auto_clean_memory_size@),
    {
        Hack::size_to_bytes_zero(self.auto_clean_memory_size.as_str())
    }

    pub fn auto_clean_memory_interval(&self) -> (r: &str)
        ensures
            r@ == self.auto_clean_memory_interval@,
    {
        self.auto_clean_memory_interval.as_str()
    }
}

pub fn default_session_name() -> (r: String)
    ensures
        r@ == "vault"@,
{
    owned("vault")
}

/// The default cleaning interval, 3600 seconds, as text.
pub fn default_auto_clean_memory_interval() -> (r: String)
    ensures
        r@ == "3600"@,
{
    owned("3600")
}

/// The default cleaning threshold, 384 MiB in bytes, as text.
pub fn default_auto_clean_memory_size() -> (r: String)
    ensures
        r@ == "402653184"@,
{
    owned("402653184")
}

pub fn default_dashboard_path() -> (r: String)
    ensures
        r@ == "dashboard"@,
{
    owned("dashboard")
}

pub fn default_auto_clean_memory() -> (r: bool)
    ensures
        r,
{
    true
}

pub fn default_ssl_session_cache() -> (r: usize)
    ensures
        r == 32,
{
    DEFAULT_SSL_SESSION_CACHE
}

pub fn default_keepalive() -> (r: usize)
    ensures
        r == 75,
{
    DEFAULT_KEEP_ALIVE
}

pub fn default_csrf_durations() -> (r: usize)
    ensures
        r == 30,
{
    DEFAULT_CSRF_DURATION_MINUTES
}

pub fn default_rlimit_nofile() -> (r: usize)
    ensures
        r == 65535,
{
    DEFAULT_RLIMIT_NOFILE
}

pub fn default_salt_key() -> (r: String)
    ensures
        r@ == Seq::<char>::empty(),
{
    String::new()
}

pub fn default_secret_key() -> (r: String)
    ensures
        r@ == Seq::<char>::empty(),
{
    String::new()
}

pub fn default_mode() -> (r: String)
    ensures
        r@ == "production"@,
{
    owned("production")
}

pub fn default_operation_timeout() -> (r: usize)
    ensures
        r == 10,
{
    DEFAULT_OPERATION_TIMEOUT
}

pub fn default_request_timeout() -> (r: usize)
    ensures
        r == 10,
{
    DEFAULT_REQUEST_TIMEOUT
}

pub fn default_disconnect_timeout() -> (r: usize)
    ensures
        r == 10,
{
    DEFAULT_DISCONNECT_TIMEOUT
}

/// The single default plain listener, `127.0.0.1:55155`.
pub fn default_server_tcp_listener() -> (r: Vec<String>)
    ensures
        string_views(r@) == seq!["127.0.0.1:55155"@],
{
    let mut v: Vec<String> = Vec::new();
    v.push(owned("127.0.0.1:55155"));
    assert(string_views(v@) =~= seq!["127.0.0.1:55155"@]);
    v
}

/// The control socket of the runtime.
pub fn socket_file(runtime: &Runtime) -> (r: String)
    ensures
        r@ == socket_file_of(runtime@),
{
    runtime.socket_file()
}

/// The base name of the runtime's datagram sockets.
pub fn datagram_identity(runtime: &Runtime) -> (r: String)
    ensures
        r@ == datagram_base_of(runtime@),
{
    runtime.datagram_base_name()
}

pub fn default_max_connections() -> (r: usize)
    ensures
        r == 25000,
{
    DEFAULT_CONNECTIONS
}

/// The threads the host runs in parallel, 1 where it cannot say.
pub fn default_workers(available_cpus: Option<usize>) -> (r: usize)
    ensures
        r == workers_of(available_cpus),
{
    match available_cpus {
        Some(n) => n,
        None => 1,
    }
}

/// 256 connections a second for each default worker.
pub fn default_max_connections_rate(available_cpus: Option<usize>) -> (r: usize)
    requires
        workers_of(available_cpus) * 256 <= usize::MAX,
    ensures
        r == workers_of(available_cpus) * 256,
{
    default_workers(available_cpus) * 256
}

pub fn default_backlog() -> (r: u32)
    ensures
        r == 4096,
{
    DEFAULT_BACKLOG
}

/// The user to run as before the root check: the owner of the executable
/// when running as root and it has one, else the current user.
pub fn default_user_candidate(running_as_root: bool, exe_owner: Option<&str>, current_user: &str) -> (r: String)
    ensures
        r@ == if running_as_root && exe_owner is Some && exe_owner->0@.len() > 0 {
            exe_owner->0@
        } else {
            current_user@
        },
{
    if running_as_root {
        if let Some(o) = exe_owner {
            let oc = chars_of(o);
            if oc.len() > 0 {
                return string_of(&oc);
            }
        }
    }
    let c = chars_of(current_user);
    string_of(&c)
}

/// The user to run as: the candidate, or `www-data` when the candidate is
/// root.
pub fn default_user(candidate: &str, candidate_is_root: bool) -> (r: String)
    ensures
        r@ == if candidate_is_root {
            "www-data"@
        } else {
            candidate@
        },
{
    if candidate_is_root {
        owned("www-data")
    } else {
        let c = chars_of(candidate);
        string_of(&c)
    }
}


/// The loaded configuration: the application and Redis settings and the
/// file they were read from.
#[derive(Debug)]
pub struct Config {
    pub app: AppConfig,
    pub redis: RedisConfig,
    pub file: String,
}

impl Config {
    /// The configuration read from a file: the path cleaned, and the
    /// application settings brought into range as `AppConfig::normalized`
    /// says, or its error.
    pub fn load_from_content(app: AppConfig, redis: RedisConfig, path: &str, runtime: &Runtime, host: &ConfigHost) -> (r: Result<Config, Error>)
        requires
            listeners_of(tcp_entries(app.tcp@), string_views(app.ssl.listen@)) is Some,
            workers_of(host.available_cpus) * 256 <= usize::MAX,
        ensures
            match listeners_of(tcp_entries(app.tcp@), string_views(app.ssl.listen@)) {
                Some(Ok((tcp, tls))) => r matches Ok(c) && app_normalized(app, c.app, runtime@, *host, tcp, tls)
                    && c.redis == redis && c.file@ == cleaned_path(path@),
                Some(Err((k, m))) => r matches Err(e) && e@ == (k, m),
                None => false,
            },
    {
        let file = clean(path);
        match app.normalized(runtime, host) {
            Ok(a) => Ok(Config { app: a, redis, file }),
            Err(e) => Err(e),
        }
    }

    pub fn file(&self) -> (r: &str)
        ensures
            r@ == self.file@,
    {
        self.file.as_str()
    }

    pub fn app(&self) -> (r: &AppConfig)
        ensures
            *r == self.app,
    {
        &self.app
    }

    pub fn redis(&self) -> (r: &RedisConfig)
        ensures
            *r == self.redis,
    {
        &self.redis
    }

    /// The application mode, made lowercase, begins with `prod`.
    pub fn is_production(&self) -> (r: bool)
        ensures
            r == has_prefix(lowercase(self.app.mode@), "prod"@),
    {
        self.app.is_production()
    }

    /// The control socket; `AddrNotAvailable` when it is only whitespace.
    pub fn get_socket(&self) -> (r: Result<String, Error>)
        ensures
            match r {
                Ok(s) => trim(self.app.socket@).len() > 0 && s@ == self.app.socket@,
                Err(e) => trim(self.app.socket@).len() == 0 && e@ == (
                    ErrorType::AddrNotAvailable,
                    "Socket configuration is empty"@,
                ),
            },
    {
        let c = chars_of(self.app.socket.as_str());
        let t = trim_chars(&c);
        if t.len() == 0 {
            return Err(Error::address_not_available("Socket configuration is empty"));
        }
        Ok(self.app.socket.clone())
    }

    pub fn get_datagram_identity(&self) -> (r: String)
        ensures
            r@ == self.app.datagram@,
    {
        self.app.datagram.clone()
    }

    /// The datagram identity followed by `/server`.
    pub fn get_datagram_server_identity(&self) -> (r: String)
        ensures
            r@ == self.app.datagram@ + "/server"@,
    {
        let mut t = chars_of(self.app.datagram.as_str());
        let s = chars_of("/server");
        push_all(&mut t, &s);
        string_of(&t)
    }

    /// The datagram identity followed by `/client/` and the process id.
    pub fn get_datagram_client_identity(&self, pid: u32) -> (r: String)
        ensures
            r@ == self.app.datagram@ + "/client/"@ + dec(pid as nat),
    {
        let mut t = chars_of(self.app.datagram.as_str());
        let s = chars_of("/client/");
        push_all(&mut t, &s);
        let d = fmt_u128(pid as u128);
        push_all(&mut t, &d);
        string_of(&t)
    }
}


proof fn lemma_add_unique_keeps(s: Seq<Seq<char>>, x: Seq<char>)
    requires
        s.no_duplicates(),
    ensures
        add_unique(s, x).no_duplicates(),
{
    if !s.contains(x) {
        assert forall|i: int, j: int| 0 <= i < j < s.push(x).len() implies s.push(x)[i] != s.push(x)[j] by {
            if j == s.len() {
                assert(s[i] == s.push(x)[i]);
            }
        }
    }
}

proof fn lemma_scan_unique(
    list: Seq<Seq<char>>,
    n: nat,
    start: (Seq<Seq<char>>, Seq<Seq<char>>),
    tls: bool,
)
    requires
        start.0.no_duplicates(),
        start.1.no_duplicates(),
    ensures
        scan_listeners(list, n, start, tls) matches Some(Ok((a, b))) ==> a.no_duplicates()
            && b.no_duplicates(),
    decreases n,
{
    if n > 0 {
        lemma_scan_unique(list, (n - 1) as nat, start, tls);
        match scan_listeners(list, (n - 1) as nat, start, tls) {
            Some(Ok((a, b))) => {
                match listener_of(list[n - 1], tls) {
                    Some(Ok((x, p))) => {
                        lemma_add_unique_keeps(a, x);
                        lemma_add_unique_keeps(b, x);
                    },
                    _ => {},
                }
            },
            _ => {},
        }
    }
}

/// No listener is kept twice: the plain and the TLS listeners read from a
/// configuration each hold every address at most once.
pub proof fn lemma_listeners_unique(tcp: Seq<Seq<char>>, tls: Seq<Seq<char>>)
    ensures
        listeners_of(tcp, tls) matches Some(Ok((a, b))) ==> a.no_duplicates() && b.no_duplicates(),
{
    let e = Seq::<Seq<char>>::empty();
    lemma_scan_unique(tcp, tcp.len(), (e, e), false);
    match scan_listeners(tcp, tcp.len(), (e, e), false) {
        Some(Ok(st)) => lemma_scan_unique(tls, tls.len(), st, true),
        _ => {},
    }
}

/// Every bounded setting lies within its range once the settings are
/// brought into range.
pub proof fn lemma_normalized_in_range(
    before: AppConfig,
    after: AppConfig,
    rt: RuntimeView,
    host: ConfigHost,
    tcp: Seq<Seq<char>>,
    tls: Seq<Seq<char>>,
)
    requires
        app_normalized(before, after, rt, host, tcp, tls),
    ensures
        128 <= after.max_connections <= (if rt.has_limit_less {
            1048576int
        } else {
            65535int
        }),
        before.max_connections_rate != 0 ==> 32 <= after.max_connections_rate <= (
        if rt.has_limit_less {
            1048576int
        } else {
            65535int
        }),
        128 <= after.backlog <= 65535,
        4096 <= after.rlimit_nofile <= 1048576,
        1 <= after.operation_timeout <= 3600,
        after.request_timeout <= 3600,
        after.disconnect_timeout <= 3600,
        5 <= after.csrf_durations <= 86400,
        after.keep_alive <= 43200,
        2 <= after.ssl.session_cache <= 256,
        after.workers <= workers_of(host.available_cpus) * 5,
{
}

} // verus!
