//! URLs of a theme's assets under a base URL.
use vstd::prelude::*;

use crate::hack::ascii_lower;
use crate::text::{all_ascii_chars, chars_of, has_prefix, has_suffix, lowercase, push_all, string_of, to_lowercase};

verus! {

/// Where the first `?` or `#` is, if there is one.
pub open spec fn query_at(s: Seq<char>, i: int) -> bool {
    &&& 0 <= i < s.len()
    &&& (s[i] == '?' || s[i] == '#')
    &&& forall|j: int| 0 <= j < i ==> s[j] != '?' && s[j] != '#'
}

/// The text before its first `?` or `#`.
pub open spec fn before_query(s: Seq<char>) -> Seq<char> {
    if exists|i: int| query_at(s, i) {
        s.take(choose|i: int| query_at(s, i))
    } else {
        s
    }
}

/// A base URL without its query and fragment and without one trailing
/// `/`.
pub open spec fn trimmed_base(s: Seq<char>) -> Seq<char> {
    let a = before_query(s);
    if a.len() > 0 && a.last() == '/' {
        a.drop_last()
    } else {
        a
    }
}

/// The clean base for a trimmed base `b` whose lowercase form is `l`:
/// unless `l` starts with `http://` or `https://`, one leading `/` is
/// replaced by exactly one; a bare `/` becomes empty.
pub open spec fn base_from(b: Seq<char>, l: Seq<char>) -> Seq<char> {
    let base = if !has_prefix(l, "http://"@) && !has_prefix(l, "https://"@) {
        seq!['/'] + if b.len() > 0 && b[0] == '/' {
            b.drop_first()
        } else {
            b
        }
    } else {
        b
    };
    if base == seq!['/'] {
        Seq::empty()
    } else {
        base
    }
}

/// A base URL made clean: query and fragment cut off, one trailing `/`
/// dropped, and, unless it is an `http://` or `https://` URL (in any
/// case, as `str::to_lowercase` finds it), one leading `/` replaced by
/// exactly one; a bare `/` becomes empty.
pub open spec fn clean_base(s: Seq<char>) -> Seq<char> {
    base_from(trimmed_base(s), lowercase(trimmed_base(s)))
}

/// `clean_base` for ASCII text, where the lowercase form is the ASCII one.
pub open spec fn clean_base_ascii(s: Seq<char>) -> Seq<char> {
    base_from(trimmed_base(s), ascii_lower(trimmed_base(s)))
}

/// The text without its leading `/`s.
pub open spec fn strip_slashes(s: Seq<char>) -> Seq<char>
    decreases s.len(),
{
    if s.len() > 0 && s[0] == '/' {
        strip_slashes(s.drop_first())
    } else {
        s
    }
}

/// The part of an asset path that follows the asset prefix: empty stays
/// empty, a path starting with `#` or `?` is kept, otherwise its leading
/// `/`s are dropped.
pub open spec fn asset_tail(s: Seq<char>) -> Seq<char> {
    if s.len() == 0 || s[0] == '#' || s[0] == '?' {
        s
    } else {
        strip_slashes(s)
    }
}

/// The text without its trailing `/`s.
pub open spec fn trim_end_slashes(s: Seq<char>) -> Seq<char>
    decreases s.len(),
{
    if s.len() > 0 && s.last() == '/' {
        trim_end_slashes(s.drop_last())
    } else {
        s
    }
}

/// The URL of an asset: the base without its trailing `/`s, then
/// `/theme/assets/`, then the asset's path, so that exactly one `/` joins
/// the prefix and the path; a scheme's `//` in the base is kept.
pub open spec fn assets_url_of(base: Seq<char>, path: Seq<char>) -> Seq<char> {
    trim_end_slashes(base) + "/theme/assets/"@ + asset_tail(path)
}

/// The base URL of a theme, kept clean.
#[derive(Debug, Clone)]
pub struct ThemeUri {
    base_url: String,
}

impl View for ThemeUri {
    type V = Seq<char>;

    /// The clean base URL.
    closed spec fn view(&self) -> Seq<char> {
        self.base_url@
    }
}

fn clean_base_chars(s: &[char]) -> (r: Vec<char>)
    ensures
        r@ == clean_base(s@),
        all_ascii_chars(s@) ==> r@ == clean_base_ascii(s@),
{
    let n = s.len();
    let mut i: usize = 0;
    while i < n && s[i] != '?' && s[i] != '#'
        invariant
            0 <= i <= n == s@.len(),
            forall|j: int| 0 <= j < i ==> s@[j] != '?' && s@[j] != '#',
        decreases n - i,
    {
        i = i + 1;
    }
    proof {
        if i < n {
            assert(query_at(s@, i as int));
            let k = choose|k: int| query_at(s@, k);
            if k < i {
                assert(s@[k] != '?' && s@[k] != '#');
            }
            if k > i {
                assert(s@[i as int] != '?' && s@[i as int] != '#');
            }
        } else {
            assert(!exists|k: int| query_at(s@, k));
            assert(s@.take(i as int) =~= s@);
        }
    }
    let mut end = i;
    if end > 0 && s[end - 1] == '/' {
        end = end - 1;
    }
    let b = crate::text::slice_copy(s, 0, end);
    assert(b@ =~= (if s@.take(i as int).len() > 0 && s@.take(i as int).last() == '/' {
        s@.take(i as int).drop_last()
    } else {
        s@.take(i as int)
    }));
    assert(b@ == trimmed_base(s@));
    let l = to_lowercase(&b);
    proof {
        if all_ascii_chars(s@) {
            assert forall|j: int| 0 <= j < b@.len() implies (#[trigger] b@[j] as u32) < 128 by {
                assert(b@[j] == s@[j]);
            }
        }
    }
    let http = chars_of("http://");
    let https = chars_of("https://");
    let mut base: Vec<char>;
    if !crate::text::starts_with(&l, &http) && !crate::text::starts_with(&l, &https) {
        base = Vec::new();
        base.push('/');
        if b.len() > 0 && b[0] == '/' {
            let rest = crate::text::slice_copy(&b, 1, b.len());
            assert(rest@ =~= b@.drop_first());
            push_all(&mut base, &rest);
        } else {
            push_all(&mut base, &b);
        }
    } else {
        base = b;
    }
    if base.len() == 1 && base[0] == '/' {
        assert(base@ =~= seq!['/']);
        Vec::new()
    } else {
        assert(base@ != seq!['/']);
        base
    }
}

fn asset_tail_chars(s: &[char]) -> (r: Vec<char>)
    ensures
        r@ == asset_tail(s@),
{
    let n = s.len();
    if n == 0 || s[0] == '#' || s[0] == '?' {
        let r = crate::text::slice_copy(s, 0, n);
        assert(r@ =~= s@);
        return r;
    }
    let mut i: usize = 0;
    assert(s@.skip(0) =~= s@);
    while i < n && s[i] == '/'
        invariant
            0 <= i <= n == s@.len(),
            strip_slashes(s@) == strip_slashes(s@.skip(i as int)),
        decreases n - i,
    {
        assert(s@.skip(i as int).drop_first() =~= s@.skip(i + 1));
        i = i + 1;
    }
    assert(strip_slashes(s@.skip(i as int)) == s@.skip(i as int));
    let rest = crate::text::slice_copy(s, i, n);
    assert(rest@ =~= s@.skip(i as int));
    rest
}

proof fn lemma_trim_end_slashes(s: Seq<char>, k: int)
    requires
        0 <= k <= s.len(),
        forall|j: int| k <= j < s.len() ==> s[j] == '/',
        k == 0 || s[k - 1] != '/',
    ensures
        trim_end_slashes(s) == s.take(k),
    decreases s.len() - k,
{
    if k < s.len() {
        assert(s.drop_last().take(k) =~= s.take(k));
        lemma_trim_end_slashes(s.drop_last(), k);
    } else {
        assert(s.take(k) =~= s);
    }
}

impl ThemeUri {
    /// A theme URL under the given base, made clean.
    pub fn new(base_url: &str) -> (r: ThemeUri)
        ensures
            r@ == clean_base(base_url@),
            all_ascii_chars(base_url@) ==> r@ == clean_base_ascii(base_url@),
    {
        let cs = chars_of(base_url);
        let b = clean_base_chars(&cs);
        ThemeUri { base_url: string_of(&b) }
    }

    /// Replaces the base URL, made clean.
    pub fn set_base_url(&mut self, base_url: &str)
        ensures
            final(self)@ == clean_base(base_url@),
            all_ascii_chars(base_url@) ==> final(self)@ == clean_base_ascii(base_url@),
    {
        let cs = chars_of(base_url);
        let b = clean_base_chars(&cs);
        self.base_url = string_of(&b);
    }

    /// The clean base URL.
    pub fn base_url(&self) -> (r: &str)
        ensures
            r@ == self@,
    {
        self.base_url.as_str()
    }

    /// The URL of an asset of the theme.
    pub fn assets_url(&self, path: &str) -> (r: String)
        ensures
            r@ == assets_url_of(self@, path@),
    {
        let b = chars_of(self.base_url.as_str());
        let mut k = b.len();
        while k > 0 && b[k - 1] == '/'
            invariant
                0 <= k <= b@.len(),
                forall|j: int| k <= j < b@.len() ==> b@[j] == '/',
            decreases k,
        {
            k = k - 1;
        }
        proof {
            lemma_trim_end_slashes(b@, k as int);
        }
        let mut r = crate::text::slice_copy(&b, 0, k);
        let prefix = chars_of("/theme/assets/");
        push_all(&mut r, &prefix);
        let p = chars_of(path);
        let tail = asset_tail_chars(&p);
        push_all(&mut r, &tail);
        string_of(&r)
    }
}

proof fn lemma_no_query(t: Seq<char>)
    requires
        forall|j: int| 0 <= j < t.len() ==> t[j] != '?' && t[j] != '#',
    ensures
        before_query(t) == t,
{
    if exists|i: int| query_at(t, i) {
        let i = choose|i: int| query_at(t, i);
        assert(t[i] != '?' && t[i] != '#');
    }
}

proof fn lemma_first_query(t: Seq<char>, j: int)
    requires
        0 <= j < t.len(),
        t[j] == '?' || t[j] == '#',
    ensures
        exists|i: int| query_at(t, i),
    decreases j,
{
    if exists|k: int| 0 <= k < j && (t[k] == '?' || t[k] == '#') {
        let k = choose|k: int| 0 <= k < j && (t[k] == '?' || t[k] == '#');
        lemma_first_query(t, k);
    } else {
        assert(query_at(t, j));
    }
}

proof fn lemma_before_query_clean(t: Seq<char>)
    ensures
        forall|j: int| 0 <= j < before_query(t).len() ==> before_query(t)[j] != '?' && before_query(t)[j]
            != '#',
        before_query(t).len() <= t.len(),
        forall|j: int| 0 <= j < before_query(t).len() ==> before_query(t)[j] == t[j],
{
    if exists|i: int| query_at(t, i) {
        let i = choose|i: int| query_at(t, i);
        assert forall|j: int| 0 <= j < before_query(t).len() implies before_query(t)[j] != '?'
            && before_query(t)[j] != '#' by {
            assert(before_query(t)[j] == t[j]);
        }
    } else {
        assert forall|j: int| 0 <= j < t.len() implies t[j] != '?' && t[j] != '#' by {
            if t[j] == '?' || t[j] == '#' {
                lemma_first_query(t, j);
            }
        }
    }
}

/// Cleaning a base URL twice gives what cleaning it once gives, for ASCII
/// text whose part before the first `?` or `#` does not end in `//` (where
/// it does, each cleaning drops one more `/`); the clean base has no `?` or
/// `#` and does not end in `/`.
pub proof fn lemma_clean_base_idempotent(x: Seq<char>)
    requires
        all_ascii_chars(x),
        !has_suffix(before_query(x), "//"@),
    ensures
        all_ascii_chars(clean_base_ascii(x)),
        clean_base_ascii(clean_base_ascii(x)) == clean_base_ascii(x),
        forall|j: int| 0 <= j < clean_base_ascii(x).len() ==> clean_base_ascii(x)[j] != '?'
            && clean_base_ascii(x)[j] != '#',
        clean_base_ascii(x).len() > 0 ==> clean_base_ascii(x).last() != '/',
{
    reveal_strlit("//");
    reveal_strlit("http://");
    reveal_strlit("https://");
    let a = before_query(x);
    lemma_before_query_clean(x);
    let b = trimmed_base(x);
    assert(forall|j: int| 0 <= j < b.len() ==> b[j] == a[j]);
    assert(b.len() > 0 ==> b.last() != '/') by {
        if b.len() > 0 && a.len() > 0 && a.last() == '/' {
            assert(b.last() == a[a.len() - 2]);
            if a[a.len() - 2] == '/' {
                assert(a.skip(a.len() - 2) =~= "//"@);
            }
        }
    }
    let l = ascii_lower(b);
    let r = clean_base_ascii(x);
    let http = !has_prefix(l, "http://"@) && !has_prefix(l, "https://"@);
    let c = if b.len() > 0 && b[0] == '/' { b.drop_first() } else { b };
    assert forall|j: int| 0 <= j < r.len() implies (#[trigger] r[j] as u32) < 128 && r[j] != '?' && r[j] != '#' by {
        if http {
            if j > 0 {
                if b.len() > 0 && b[0] == '/' {
                    assert(r[j] == b[j]);
                } else {
                    assert(r[j] == b[j - 1]);
                }
                assert(b[j - 1] == x[j - 1] || b[j] == x[j]);
            }
        } else {
            assert(r[j] == b[j]);
            assert(b[j] == x[j]);
        }
    }
    lemma_no_query(r);
    if r.len() > 0 {
        if http {
            assert(r =~= seq!['/'] + c);
            assert(c.len() > 0);
            assert(r.last() == c.last());
            if b.len() > 0 && b[0] == '/' {
                assert(c.last() == b.last());
            }
        }
    }
    let b2 = trimmed_base(r);
    assert(b2 == r);
    if r.len() == 0 {
        assert(ascii_lower(r) =~= Seq::<char>::empty());
        assert(seq!['/'] + r =~= seq!['/']);
    } else if http {
        assert(r =~= seq!['/'] + c);
        assert(ascii_lower(r)[0] == '/');
        if has_prefix(ascii_lower(r), "http://"@) {
            assert(ascii_lower(r).take(7)[0] == "http://"@[0]);
        }
        if has_prefix(ascii_lower(r), "https://"@) {
            assert(ascii_lower(r).take(8)[0] == "https://"@[0]);
        }
        assert(r.drop_first() =~= c);
    } else {
        assert(r == b);
    }
}

} // verus!
