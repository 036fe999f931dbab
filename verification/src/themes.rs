//! The registry of themes by slug, with a default theme that cannot be
//! removed, and the rule of which templates a theme must have.
use vstd::prelude::*;

use crate::error::{Error, ErrorType};
use crate::table::{copy_strings, find_key, keys_unique, lemma_table_remove, string_views, table_insert, table_map};
use crate::text::{chars_eq, chars_of, string_of};
use crate::theme_files::TemplateRequirements;

verus! {

/// The templates a theme must have unless a rule says otherwise.
pub open spec fn default_required() -> Seq<Seq<char>> {
    seq!["layout"@, "error"@, "404"@]
}

/// The rule that a theme must have the given templates.
#[derive(Debug)]
pub struct DefaultTemplateRequirementsRule {
    pub required_templates: Vec<String>,
}

impl DefaultTemplateRequirementsRule {
    /// The rule of the default templates: `layout`, `error` and `404`.
    pub fn new() -> (r: DefaultTemplateRequirementsRule)
        ensures
            string_views(r.required_templates@) == default_required(),
    {
        let mut v: Vec<String> = Vec::new();
        v.push(string_of(&chars_of("layout")));
        v.push(string_of(&chars_of("error")));
        v.push(string_of(&chars_of("404")));
        assert(string_views(v@) =~= default_required());
        DefaultTemplateRequirementsRule { required_templates: v }
    }

    /// The rule that a theme has the templates the given requirements
    /// require.
    pub fn from_template_requirements(requirements: &TemplateRequirements) -> (r: DefaultTemplateRequirementsRule)
        ensures
            string_views(r.required_templates@) == string_views(requirements.required@),
    {
        let v = copy_strings(&requirements.required);
        assert(string_views(v@) =~= string_views(requirements.required@));
        DefaultTemplateRequirementsRule { required_templates: v }
    }

    pub fn get_required_template_requirements(&self) -> (r: Vec<String>)
        ensures
            string_views(r@) == string_views(self.required_templates@),
    {
        let v = copy_strings(&self.required_templates);
        assert(string_views(v@) =~= string_views(self.required_templates@));
        v
    }

    /// Whether a theme's requirements require every template of the rule.
    pub fn satisfy_requirements(&self, template: &TemplateRequirements) -> (r: bool)
        ensures
            r == (forall|i: int|
                0 <= i < self.required_templates@.len() ==> string_views(template.required@).contains(
                    #[trigger] self.required_templates@[i]@,
                )),
    {
        let list = self.get_required_template_requirements();
        let (_, unsatisfied) = template.required_templates_satisfied_with(&list);
        proof {
            let req = string_views(template.required@);
            let l = string_views(list@);
            let u = l.filter(|t: Seq<char>| !req.contains(t));
            l.filter_lemma(|t: Seq<char>| !req.contains(t));
            assert(u == string_views(unsatisfied@));
            assert(u.len() == unsatisfied@.len());
            assert(l == string_views(self.required_templates@));
            if u.len() == 0 {
                assert forall|i: int| 0 <= i < self.required_templates@.len() implies req.contains(
                    #[trigger] self.required_templates@[i]@,
                ) by {
                    assert(string_views(self.required_templates@)[i] == self.required_templates@[i]@);
                    assert(l[i] == self.required_templates@[i]@);
                    if !req.contains(l[i]) {
                        assert(u.contains(l[i]));
                    }
                }
            } else if forall|i: int|
                0 <= i < self.required_templates@.len() ==> req.contains(#[trigger] self.required_templates@[i]@) {
                assert forall|k: int| 0 <= k < l.len() implies req.contains(#[trigger] l[k]) by {
                    assert(string_views(self.required_templates@)[k] == self.required_templates@[k]@);
                }
                assert(l.all(|x: Seq<char>| !(!req.contains(x))));
                l.lemma_all_neg_filter_empty(|t: Seq<char>| !req.contains(t));
            }
        }
        unsatisfied.len() == 0
    }

    /// `InvalidInput` unless a theme's requirements require every template
    /// of the rule.
    pub fn satisfied(&self, template: &TemplateRequirements) -> (r: Result<(), Error>)
        ensures
            r is Ok == (forall|i: int|
                0 <= i < self.required_templates@.len() ==> string_views(template.required@).contains(
                    #[trigger] self.required_templates@[i]@,
                )),
            r matches Err(e) ==> e@ == (ErrorType::InvalidInput, "Template requirements not satisfied."@),
    {
        if self.satisfy_requirements(template) {
            Ok(())
        } else {
            Err(Error::invalid_input("Template requirements not satisfied."))
        }
    }
}

/// The themes by slug, and the slug of the default one.
#[derive(Debug)]
pub struct Themes<T> {
    pub themes: Vec<(String, T)>,
    pub default: Option<String>,
}

impl<T> Themes<T> {
    /// No slug occurs twice.
    pub open spec fn well_formed(&self) -> bool {
        keys_unique(self.themes@)
    }

    /// The default slug, as characters.
    pub open spec fn default_slug(&self) -> Option<Seq<char>> {
        match self.default {
            Some(s) => Some(s@),
            None => None,
        }
    }

    /// No theme and no default.
    pub fn new() -> (r: Themes<T>)
        ensures
            r.well_formed(),
            r.themes@.len() == 0,
            r.default is None,
    {
        Themes { themes: Vec::new(), default: None }
    }

    /// Only the given theme, which is the default.
    pub fn from_default(slug: String, theme: T) -> (r: Themes<T>)
        ensures
            r.well_formed(),
            table_map(r.themes@) == Map::<Seq<char>, T>::empty().insert(slug@, theme),
            r.default_slug() == Some(slug@),
    {
        let mut r = Themes::new();
        r.set_default_theme(slug, theme);
        assert(table_map(Seq::<(String, T)>::empty()) =~= Map::<Seq<char>, T>::empty());
        r
    }

    /// Adds a theme under its slug and makes it the default.
    pub fn set_default_theme(&mut self, slug: String, theme: T)
        requires
            old(self).well_formed(),
        ensures
            final(self).well_formed(),
            table_map(final(self).themes@) == table_map(old(self).themes@).insert(slug@, theme),
            final(self).default_slug() == Some(slug@),
    {
        let d = string_of(&chars_of(slug.as_str()));
        table_insert(&mut self.themes, slug, theme);
        self.default = Some(d);
    }

    /// Makes the theme of a slug the default; false, with nothing changed,
    /// when there is none.
    pub fn set_default_theme_by_slug(&mut self, slug: &str) -> (r: bool)
        requires
            old(self).well_formed(),
        ensures
            final(self).well_formed(),
            final(self).themes@ == old(self).themes@,
            r == table_map(old(self).themes@).contains_key(slug@),
            final(self).default_slug() == if r {
                Some(slug@)
            } else {
                old(self).default_slug()
            },
    {
        let k = chars_of(slug);
        if find_key(&self.themes, &k).is_some() {
            self.default = Some(string_of(&k));
            true
        } else {
            false
        }
    }

    pub fn has(&self, slug: &str) -> (r: bool)
        requires
            self.well_formed(),
        ensures
            r == table_map(self.themes@).contains_key(slug@),
    {
        let k = chars_of(slug);
        find_key(&self.themes, &k).is_some()
    }

    /// Adds a theme under its slug; true when it replaced one.
    pub fn add(&mut self, slug: String, theme: T) -> (r: bool)
        requires
            old(self).well_formed(),
        ensures
            final(self).well_formed(),
            table_map(final(self).themes@) == table_map(old(self).themes@).insert(slug@, theme),
            r == table_map(old(self).themes@).contains_key(slug@),
            final(self).default == old(self).default,
    {
        let k = chars_of(slug.as_str());
        let had = find_key(&self.themes, &k).is_some();
        table_insert(&mut self.themes, slug, theme);
        had
    }

    /// The theme of a slug.
    pub fn get(&self, slug: &str) -> (r: Option<&T>)
        requires
            self.well_formed(),
        ensures
            match r {
                Some(t) => table_map(self.themes@).contains_key(slug@) && *t == table_map(self.themes@)[slug@],
                None => !table_map(self.themes@).contains_key(slug@),
            },
    {
        let k = chars_of(slug);
        match find_key(&self.themes, &k) {
            Some(i) => Some(&self.themes[i].1),
            None => None,
        }
    }

    pub fn list(&self) -> (r: &Vec<(String, T)>)
        ensures
            *r == self.themes,
    {
        &self.themes
    }

    /// Removes the theme of a slug and hands it back; the default theme is
    /// not removed (`None`).
    pub fn remove(&mut self, slug: &str) -> (r: Option<T>)
        requires
            old(self).well_formed(),
        ensures
            final(self).well_formed(),
            final(self).default == old(self).default,
            old(self).default_slug() == Some(slug@) ==> r is None && final(self).themes@ == old(self).themes@,
            old(self).default_slug() != Some(slug@) ==> {
                &&& table_map(final(self).themes@) == table_map(old(self).themes@).remove(slug@)
                &&& match r {
                    Some(t) => table_map(old(self).themes@).contains_key(slug@) && t == table_map(
                        old(self).themes@,
                    )[slug@],
                    None => !table_map(old(self).themes@).contains_key(slug@),
                }
            },
    {
        let k = chars_of(slug);
        if let Some(d) = &self.default {
            let dc = chars_of(d.as_str());
            if chars_eq(&dc, &k) {
                return None;
            }
        }
        match find_key(&self.themes, &k) {
            Some(i) => {
                proof {
                    lemma_table_remove(self.themes@, i as int);
                }
                let (_, t) = self.themes.remove(i);
                Some(t)
            },
            None => {
                assert(table_map(self.themes@).remove(slug@) =~= table_map(self.themes@));
                None
            },
        }
    }

    /// The default theme, if it is registered.
    pub fn default(&self) -> (r: Option<&T>)
        requires
            self.well_formed(),
        ensures
            match r {
                Some(t) => self.default_slug() matches Some(d) && table_map(self.themes@).contains_key(d)
                    && *t == table_map(self.themes@)[d],
                None => self.default_slug() is None || !table_map(self.themes@).contains_key(
                    self.default_slug()->0,
                ),
            },
    {
        match &self.default {
            Some(d) => self.get(d.as_str()),
            None => None,
        }
    }

    /// `InvalidInput` naming the slug when no theme has it; otherwise the
    /// theme, to render with.
    pub fn theme_to_render(&self, slug: &str) -> (r: Result<&T, Error>)
        requires
            self.well_formed(),
        ensures
            match r {
                Ok(t) => table_map(self.themes@).contains_key(slug@) && *t == table_map(self.themes@)[slug@],
                Err(e) => !table_map(self.themes@).contains_key(slug@) && e@ == (
                    ErrorType::InvalidInput,
                    "Theme "@ + slug@ + " not found."@,
                ),
            },
    {
        match self.get(slug) {
            Some(t) => Ok(t),
            None => {
                let mut m = chars_of("Theme ");
                let s = chars_of(slug);
                crate::text::push_all(&mut m, &s);
                let tail = chars_of(" not found.");
                crate::text::push_all(&mut m, &tail);
                Err(Error { error_type: ErrorType::InvalidInput, message: string_of(&m) })
            },
        }
    }
}

/// The default theme stays: removing the slug of the default theme keeps
/// every theme, and any other removal keeps the default slug.
pub proof fn lemma_default_theme_stays<T>(before: Themes<T>, after: Themes<T>, slug: Seq<char>, r: Option<T>)
    requires
        before.default_slug() == Some(slug) ==> r is None && after.themes@ == before.themes@,
        after.default == before.default,
        before.default_slug() is Some && table_map(before.themes@).contains_key(before.default_slug()->0),
        before.default_slug() != Some(slug) ==> table_map(after.themes@) == table_map(before.themes@).remove(slug),
    ensures
        table_map(after.themes@).contains_key(after.default_slug()->0),
{
}

} // verus!
