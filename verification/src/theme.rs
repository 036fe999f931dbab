//! A theme's description: its directories and its templates.
use vstd::prelude::*;

use crate::table::{
    entry_keys, entry_values, find_key, keyed_map, keys_unique, lemma_keyed_map_push,
    lemma_table_lookup, lemma_table_push, lemma_table_update, table_map,
};
use crate::text::{chars_of, has_suffix, push_all, string_of};

verus! {

/// Where a theme's screenshot is.
#[derive(Debug, Clone)]
pub enum Screenshot {
    Url(String),
    Path(String),
}

/// Who made a theme.
#[derive(Debug, Clone)]
pub struct Author {
    pub name: String,
    pub email: Option<String>,
    pub url: Option<String>,
}

/// The directories of a theme.
#[derive(Debug, Clone)]
pub struct Directories {
    pub language: String,
    pub assets: String,
    pub partials: String,
}

impl Default for Directories {
    /// `en`, `assets` and `partials`.
    fn default() -> (r: Directories)
        ensures
            r.language@ == "en"@,
            r.assets@ == "assets"@,
            r.partials@ == "partials"@,
    {
        let l = chars_of("en");
        let a = chars_of("assets");
        let p = chars_of("partials");
        Directories { language: string_of(&l), assets: string_of(&a), partials: string_of(&p) }
    }
}

/// `/` or `\`.
pub open spec fn is_slash(c: char) -> bool {
    c == '/' || c == '\\'
}

/// The text without its leading and trailing `/` and `\`.
pub open spec fn trim_slashes(s: Seq<char>) -> Seq<char>
    decreases s.len(),
{
    if s.len() > 0 && is_slash(s[0]) {
        trim_slashes(s.drop_first())
    } else if s.len() > 0 && is_slash(s.last()) {
        trim_slashes(s.drop_last())
    } else {
        s
    }
}

proof fn lemma_trim_slashes(s: Seq<char>, a: int, b: int)
    requires
        0 <= a <= b <= s.len(),
        forall|j: int| 0 <= j < a ==> is_slash(#[trigger] s[j]),
        forall|j: int| b <= j < s.len() ==> is_slash(#[trigger] s[j]),
        a == b || (!is_slash(s[a]) && !is_slash(s[b - 1])),
    ensures
        trim_slashes(s) == s.subrange(a, b),
    decreases s.len(),
{
    if s.len() > 0 && is_slash(s[0]) {
        if a > 0 {
            lemma_trim_slashes(s.drop_first(), a - 1, b - 1);
            assert(s.drop_first().subrange(a - 1, b - 1) =~= s.subrange(a, b));
        } else {
            assert(a == b && b == 0);
            lemma_trim_slashes(s.drop_first(), 0, 0);
            assert(s.drop_first().subrange(0, 0) =~= s.subrange(a, b));
        }
    } else if s.len() > 0 && is_slash(s.last()) {
        if b < s.len() {
            lemma_trim_slashes(s.drop_last(), a, b);
            assert(s.drop_last().subrange(a, b) =~= s.subrange(a, b));
        } else {
            assert(a == b);
            lemma_trim_slashes(s.drop_last(), a, a);
            assert(s.drop_last().subrange(a, a) =~= s.subrange(a, b));
        }
    } else {
        if s.len() == 0 {
            assert(s.subrange(a, b) =~= s);
        } else {
            assert(a == 0) by {
                if a > 0 {
                    assert(is_slash(s[0]));
                }
            }
            assert(b == s.len()) by {
                if b < s.len() {
                    assert(is_slash(s[s.len() - 1]));
                }
            }
            assert(s.subrange(a, b) =~= s);
        }
    }
}

fn slash_trimmed(s: &String) -> (r: Vec<char>)
    ensures
        r@ == seq!['/'] + trim_slashes(s@),
{
    let cs = chars_of(s.as_str());
    let n = cs.len();
    let mut a: usize = 0;
    while a < n && (cs[a] == '/' || cs[a] == '\\')
        invariant
            0 <= a <= n == cs@.len(),
            forall|j: int| 0 <= j < a ==> is_slash(#[trigger] cs@[j]),
        decreases n - a,
    {
        a = a + 1;
    }
    let mut b: usize = n;
    while b > a && (cs[b - 1] == '/' || cs[b - 1] == '\\')
        invariant
            0 <= a <= b <= n == cs@.len(),
            forall|j: int| 0 <= j < a ==> is_slash(#[trigger] cs@[j]),
            forall|j: int| b <= j < n ==> is_slash(#[trigger] cs@[j]),
        decreases b,
    {
        b = b - 1;
    }
    proof {
        lemma_trim_slashes(cs@, a as int, b as int);
    }
    let mut r: Vec<char> = Vec::new();
    r.push('/');
    let mid = crate::text::slice_copy(&cs, a, b);
    push_all(&mut r, &mid);
    r
}

/// The directories made absolute within the theme: each is `/` and its
/// name without leading or trailing `/` or `\`.
pub fn normalize_directories(directories: &Directories) -> (r: Directories)
    ensures
        r.assets@ == seq!['/'] + trim_slashes(directories.assets@),
        r.partials@ == seq!['/'] + trim_slashes(directories.partials@),
        r.language@ == seq!['/'] + trim_slashes(directories.language@),
{
    let a = slash_trimmed(&directories.assets);
    let p = slash_trimmed(&directories.partials);
    let l = slash_trimmed(&directories.language);
    Directories { assets: string_of(&a), partials: string_of(&p), language: string_of(&l) }
}

/// The templates of a theme: the layout, error and not-found templates
/// and any others by name.
#[derive(Debug, Clone)]
pub struct Templates {
    pub layout: String,
    pub error: String,
    pub not_found: String,
    pub extra: Vec<(String, String)>,
}

/// The template name without a trailing `.hbs`.
pub open spec fn without_hbs(s: Seq<char>) -> Seq<char> {
    if has_suffix(s, ".hbs"@) {
        s.take(s.len() - 4)
    } else {
        s
    }
}

/// The values of a table of texts, as characters.
pub open spec fn text_values(v: Seq<(String, String)>) -> Seq<Seq<char>> {
    Seq::new(v.len(), |i: int| v[i].1@)
}

/// The template under a name: the three named ones first, then the others.
pub open spec fn template_named(t: Templates, name: Seq<char>) -> Option<Seq<char>> {
    if name == "layout"@ {
        Some(t.layout@)
    } else if name == "error"@ {
        Some(t.error@)
    } else if name == "not_found"@ {
        Some(t.not_found@)
    } else if keyed_map(entry_keys(t.extra@), text_values(t.extra@)).contains_key(name) {
        Some(keyed_map(entry_keys(t.extra@), text_values(t.extra@))[name])
    } else {
        None
    }
}

/// Every template by name: the three named ones, then the others, a later
/// name replacing an earlier one.
pub open spec fn all_templates(t: Templates) -> Map<Seq<char>, Seq<char>> {
    keyed_map(
        seq!["layout"@, "error"@, "not_found"@] + entry_keys(t.extra@),
        seq![t.layout@, t.error@, t.not_found@] + text_values(t.extra@),
    )
}

fn strip_hbs(s: &String) -> (r: String)
    ensures
        r@ == without_hbs(s@),
{
    let cs = chars_of(s.as_str());
    let ext = chars_of(".hbs");
    if crate::text::ends_with(&cs, &ext) {
        proof {
            reveal_strlit(".hbs");
        }
        let t = crate::text::slice_copy(&cs, 0, cs.len() - 4);
        string_of(&t)
    } else {
        string_of(&cs)
    }
}

impl Templates {
    /// No template has two entries under one name.
    pub open spec fn well_formed(&self) -> bool {
        keys_unique(self.extra@)
    }

    /// `layout`, `error` and `404`, and no others.
    pub fn new() -> (r: Templates)
        ensures
            r.layout@ == "layout"@,
            r.error@ == "error"@,
            r.not_found@ == "404"@,
            r.extra@.len() == 0,
            r.well_formed(),
    {
        let l = chars_of("layout");
        let e = chars_of("error");
        let n = chars_of("404");
        Templates {
            layout: string_of(&l),
            error: string_of(&e),
            not_found: string_of(&n),
            extra: Vec::new(),
        }
    }

    /// Sets the template under a name among the others, replacing the one
    /// it had.
    pub fn insert_extra(&mut self, name: &str, template: &str)
        requires
            old(self).well_formed(),
        ensures
            final(self).well_formed(),
            final(self).layout == old(self).layout,
            final(self).error == old(self).error,
            final(self).not_found == old(self).not_found,
            keyed_map(entry_keys(final(self).extra@), text_values(final(self).extra@)) == keyed_map(
                entry_keys(old(self).extra@),
                text_values(old(self).extra@),
            ).insert(name@, template@),
    {
        let k = chars_of(name);
        let v = chars_of(template);
        let value = string_of(&v);
        let ghost before = self.extra@;
        match find_key(&self.extra, &k) {
            Some(i) => {
                let key = self.extra[i].0.clone();
                self.extra.set(i, (key, value));
                proof {
                    let w = before.update(i as int, (before[i as int].0, value));
                    assert(self.extra@ =~= w);
                    lemma_table_update(before, i as int, value);
                    assert(entry_keys(w) =~= entry_keys(before));
                    lemma_text_table(before);
                    lemma_text_table(w);
                }
            },
            None => {
                let key = string_of(&k);
                proof {
                    lemma_table_push(before, key, value);
                    lemma_text_table(before);
                    lemma_text_table(before.push((key, value)));
                }
                self.extra.push((key, value));
            },
        }
    }

    /// The template under a name.
    pub fn get(&self, name: &str) -> (r: Option<&str>)
        requires
            self.well_formed(),
        ensures
            match r {
                Some(t) => template_named(*self, name@) == Some(t@),
                None => template_named(*self, name@) is None,
            },
    {
        let k = chars_of(name);
        if crate::text::eq_str(&k, "layout") {
            Some(self.layout.as_str())
        } else if crate::text::eq_str(&k, "error") {
            Some(self.error.as_str())
        } else if crate::text::eq_str(&k, "not_found") {
            Some(self.not_found.as_str())
        } else {
            proof {
                lemma_text_table(self.extra@);
            }
            match find_key(&self.extra, &k) {
                Some(i) => Some(self.extra[i].1.as_str()),
                None => None,
            }
        }
    }

    /// Every template with its name: the three named ones, then the others.
    pub fn all(&self) -> (r: Vec<(String, String)>)
        ensures
            keyed_map(entry_keys(r@), text_values(r@)) == all_templates(*self),
    {
        let mut r: Vec<(String, String)> = Vec::new();
        let a = chars_of("layout");
        let b = chars_of("error");
        let c = chars_of("not_found");
        r.push((string_of(&a), self.layout.clone()));
        r.push((string_of(&b), self.error.clone()));
        r.push((string_of(&c), self.not_found.clone()));
        let ghost head = r@;
        assert(entry_keys(head) =~= seq!["layout"@, "error"@, "not_found"@]);
        assert(text_values(head) =~= seq![self.layout@, self.error@, self.not_found@]);
        let mut i: usize = 0;
        while i < self.extra.len()
            invariant
                0 <= i <= self.extra@.len(),
                r@ =~= head + self.extra@.take(i as int),
                entry_keys(head) == seq!["layout"@, "error"@, "not_found"@],
                text_values(head) == seq![self.layout@, self.error@, self.not_found@],
            decreases self.extra@.len() - i,
        {
            let (k, v) = (self.extra[i].0.clone(), self.extra[i].1.clone());
            r.push((k, v));
            assert(r@ =~= head + self.extra@.take(i + 1));
            i = i + 1;
        }
        assert(self.extra@.take(self.extra@.len() as int) =~= self.extra@);
        assert(entry_keys(r@) =~= seq!["layout"@, "error"@, "not_found"@] + entry_keys(self.extra@));
        assert(text_values(r@) =~= seq![self.layout@, self.error@, self.not_found@] + text_values(
            self.extra@,
        ));
        r
    }

    /// Drops a trailing `.hbs` from every template.
    pub fn clean_extensions(&mut self)
        ensures
            final(self).layout@ == without_hbs(old(self).layout@),
            final(self).error@ == without_hbs(old(self).error@),
            final(self).not_found@ == without_hbs(old(self).not_found@),
            entry_keys(final(self).extra@) == entry_keys(old(self).extra@),
            text_values(final(self).extra@) == Seq::new(
                old(self).extra@.len(),
                |i: int| without_hbs(old(self).extra@[i].1@),
            ),
    {
        self.layout = strip_hbs(&self.layout);
        self.error = strip_hbs(&self.error);
        self.not_found = strip_hbs(&self.not_found);
        let ghost before = self.extra@;
        let mut out: Vec<(String, String)> = Vec::new();
        let mut i: usize = 0;
        while i < self.extra.len()
            invariant
                0 <= i <= self.extra@.len(),
                self.extra@ == before,
                entry_keys(out@) =~= entry_keys(before.take(i as int)),
                text_values(out@) =~= Seq::new(i as nat, |j: int| without_hbs(before[j].1@)),
            decreases self.extra@.len() - i,
        {
            let k = self.extra[i].0.clone();
            let v = strip_hbs(&self.extra[i].1);
            let ghost o0 = out@;
            out.push((k, v));
            assert(entry_keys(out@) =~= entry_keys(o0).push(k@));
            assert(entry_keys(before.take(i + 1)) =~= entry_keys(before.take(i as int)).push(
                before[i as int].0@,
            ));
            assert(text_values(out@) =~= text_values(o0).push(v@));
            i = i + 1;
        }
        assert(before.take(before.len() as int) =~= before);
        self.extra = out;
    }
}

/// The values of a table of texts are the text values it maps to.
pub proof fn lemma_text_table(v: Seq<(String, String)>)
    ensures
        keyed_map(entry_keys(v), text_values(v)) == table_map(v).map_values(|s: String| s@),
    decreases v.len(),
{
    if v.len() > 0 {
        lemma_text_table(v.drop_last());
        assert(entry_keys(v).drop_last() =~= entry_keys(v.drop_last()));
        assert(text_values(v).drop_last() =~= text_values(v.drop_last()));
        assert(entry_values(v).drop_last() =~= entry_values(v.drop_last()));
        assert(keyed_map(entry_keys(v), text_values(v)) =~= table_map(v).map_values(
            |s: String| s@,
        ));
    } else {
        assert(keyed_map(entry_keys(v), text_values(v)) =~= table_map(v).map_values(
            |s: String| s@,
        ));
    }
}

/// A theme's description.
#[derive(Debug, Clone)]
pub struct ThemeConfig {
    pub name: String,
    pub description: Option<String>,
    pub url: Option<String>,
    pub screenshot: Option<Screenshot>,
    pub version: String,
    pub author: Author,
    pub directories: Directories,
    pub templates: Option<Templates>,
}

/// Where a theme's files come from.
#[derive(Debug, Clone, Copy, PartialEq, Eq, Structural)]
pub enum RequirementType {
    FileSystem,
    Embed,
}

} // verus!
