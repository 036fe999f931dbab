//! The files a theme needs: the limit on a template's size, which files
//! of a theme directory are taken, and whether every required template is
//! configured and present.
use vstd::prelude::*;

use crate::error::{Error, ErrorType};
use crate::table::string_views;
use crate::text::{chars_eq, chars_of, dec, fmt_u128, has_suffix, push_all, slice_copy, string_of};
use crate::theme::{template_named, RequirementType, Templates};

verus! {

/// The largest template read.
pub const MAX_TEMPLATE_SIZE: u64 = 5242880;
/// The size limit of a template when none is given.
pub const DEFAULT_TEMPLATE_SIZE: u64 = 524288;
/// The size limit of a language file.
pub const DEFAULT_LANGUAGE_SIZE: u64 = 1048576;
/// The smallest size limit of a template.
pub const MIN_TEMPLATE_SIZE: u64 = 1024;

/// The size limit of a template: the one given, 512 KiB when none is,
/// brought into `1 KiB..=5 MiB`.
pub fn template_size_limit(max_size: Option<u64>) -> (r: u64)
    ensures
        r == ({
            let m = match max_size {
                Some(m) => m,
                None => 524288,
            };
            if m > 5242880 {
                5242880
            } else if m < 1024 {
                1024
            } else {
                m
            }
        }),
{
    let m = match max_size {
        Some(m) => m,
        None => DEFAULT_TEMPLATE_SIZE,
    };
    if m > MAX_TEMPLATE_SIZE {
        MAX_TEMPLATE_SIZE
    } else if m < MIN_TEMPLATE_SIZE {
        MIN_TEMPLATE_SIZE
    } else {
        m
    }
}

/// What checking the required templates from the `k`-th on finds: the
/// first that is not configured is `InvalidInput`, the first whose file is
/// missing is `FileNotFound` (its file named after the template it is
/// configured to, with `.hbs`, and `place` saying where it was looked
/// for); `None` when all are there.
pub open spec fn missing_template(
    t: Templates,
    required: Seq<Seq<char>>,
    exists: Seq<bool>,
    place: Seq<char>,
    k: nat,
) -> Option<(ErrorType, Seq<char>)>
    decreases required.len() - k,
{
    if k >= required.len() {
        None
    } else {
        let name = required[k as int];
        match template_named(t, name) {
            None => Some(
                (
                    ErrorType::InvalidInput,
                    "Template name '"@ + name + "' is required but not found in configuration."@,
                ),
            ),
            Some(tn) => if !exists[k as int] {
                Some(
                    (
                        ErrorType::FileNotFound,
                        "Template file for "@ + name + " ("@ + tn + ".hbs) not found in "@ + place,
                    ),
                )
            } else {
                missing_template(t, required, exists, place, k + 1)
            },
        }
    }
}

/// The text of a file path with `\` written `/`.
pub open spec fn forward_slashes(s: Seq<char>) -> Seq<char> {
    Seq::new(s.len(), |i: int| if s[i] == '\\' { '/' } else { s[i] })
}

/// What reading a theme directory takes of one file, given its path, its
/// path below the directory read, its size, its extension (where it has
/// one that is text) and the extensions taken (all, when none is given):
/// `Overflow` when it is larger than the limit; else nothing when it has
/// no extension that is taken; else its name below the directory with the
/// extension cut off the end (the dot stays) and its path, both with `/`
/// for `\`.
pub open spec fn file_entry_of(
    path: Seq<char>,
    relative: Seq<char>,
    size: u64,
    max_size: u64,
    extension: Option<Seq<char>>,
    extensions: Seq<Seq<char>>,
) -> Result<Option<(Seq<char>, Seq<char>)>, (ErrorType, Seq<char>)> {
    if size > max_size {
        Err(
            (
                ErrorType::Overflow,
                "Template file '"@ + path + "' is too large try maximum is: "@ + dec(max_size as nat)
                    + " and current file size is: "@ + dec(size as nat),
            ),
        )
    } else {
        let name = forward_slashes(relative);
        let full = forward_slashes(path);
        if extensions.len() == 0 {
            Ok(Some((name, full)))
        } else {
            match extension {
                None => Ok(None),
                Some(ext) => if !extensions.contains(ext) {
                    Ok(None)
                } else if has_suffix(name, ext) {
                    Ok(Some((name.take(name.len() - ext.len()), full)))
                } else {
                    Ok(Some((name, full)))
                },
            }
        }
    }
}

fn slashes(s: &[char]) -> (r: Vec<char>)
    ensures
        r@ == forward_slashes(s@),
{
    let mut r: Vec<char> = Vec::new();
    let mut i: usize = 0;
    while i < s.len()
        invariant
            0 <= i <= s@.len(),
            r@ =~= forward_slashes(s@).take(i as int),
        decreases s@.len() - i,
    {
        if s[i] == '\\' {
            r.push('/');
        } else {
            r.push(s[i]);
        }
        i = i + 1;
    }
    assert(forward_slashes(s@).take(s@.len() as int) =~= forward_slashes(s@));
    r
}

/// The files of a theme: where they come from, its slug, the templates it
/// requires and has configured, and the directories of its assets,
/// partials and languages.
#[derive(Debug)]
pub struct TemplateRequirements {
    pub requirement_type: RequirementType,
    pub slug: String,
    pub theme_dir: Option<String>,
    pub required: Vec<String>,
    pub asset_path: String,
    pub partial_path: String,
    pub language_path: String,
    pub partial_file_map: Vec<(String, String)>,
    pub template_file_map: Vec<(String, String)>,
    pub asset_file_map: Vec<(String, String)>,
    pub language_file_map: Vec<(String, String)>,
    pub templates: Templates,
}

impl TemplateRequirements {
    /// Checks the required templates in order, as `missing_template` says,
    /// given for each whether the file of the template it is configured to
    /// exists, and where the files were looked for.
    pub fn validate_paths(templates: &Templates, required: &Vec<String>, exists: &Vec<bool>, place: &str) -> (r:
        Result<(), Error>)
        requires
            templates.well_formed(),
            exists@.len() == required@.len(),
        ensures
            match missing_template(*templates, string_views(required@), exists@, place@, 0) {
                None => r is Ok,
                Some((k, m)) => r matches Err(e) && e@ == (k, m),
            },
    {
        let ghost req = string_views(required@);
        let mut i: usize = 0;
        while i < required.len()
            invariant
                0 <= i <= required@.len(),
                exists@.len() == required@.len(),
                templates.well_formed(),
                req == string_views(required@),
                missing_template(*templates, req, exists@, place@, 0) == missing_template(
                    *templates,
                    req,
                    exists@,
                    place@,
                    i as nat,
                ),
            decreases required@.len() - i,
        {
            let name = required[i].as_str();
            assert(req[i as int] == name@);
            match templates.get(name) {
                None => {
                    let mut t = chars_of("Template name '");
                    let n = chars_of(name);
                    push_all(&mut t, &n);
                    let tail = chars_of("' is required but not found in configuration.");
                    push_all(&mut t, &tail);
                    return Err(Error { error_type: ErrorType::InvalidInput, message: string_of(&t) });
                },
                Some(tn) => {
                    if !exists[i] {
                        let mut t = chars_of("Template file for ");
                        let n = chars_of(name);
                        push_all(&mut t, &n);
                        let a = chars_of(" (");
                        push_all(&mut t, &a);
                        let tc = chars_of(tn);
                        push_all(&mut t, &tc);
                        let b = chars_of(".hbs) not found in ");
                        push_all(&mut t, &b);
                        let p = chars_of(place);
                        push_all(&mut t, &p);
                        return Err(Error { error_type: ErrorType::FileNotFound, message: string_of(&t) });
                    }
                },
            }
            i = i + 1;
        }
        Ok(())
    }

    /// Checks the required templates of a theme built into the program:
    /// the files are looked for in the embedded assets.
    pub fn validate_embed(templates: &Templates, required: &Vec<String>, exists: &Vec<bool>) -> (r: Result<
        (),
        Error,
    >)
        requires
            templates.well_formed(),
            exists@.len() == required@.len(),
        ensures
            match missing_template(
                *templates,
                string_views(required@),
                exists@,
                "embedded assets."@,
                0,
            ) {
                None => r is Ok,
                Some((k, m)) => r matches Err(e) && e@ == (k, m),
            },
    {
        Self::validate_paths(templates, required, exists, "embedded assets.")
    }

    /// What reading a theme directory takes of one file, as
    /// `file_entry_of` says.
    pub fn file_entry(
        path: &str,
        relative: &str,
        size: u64,
        max_size: u64,
        extension: Option<&str>,
        extensions: &Vec<String>,
    ) -> (r: Result<Option<(String, String)>, Error>)
        ensures
            match file_entry_of(
                path@,
                relative@,
                size,
                max_size,
                match extension {
                    Some(e) => Some(e@),
                    None => None,
                },
                string_views(extensions@),
            ) {
                Err((k, m)) => r matches Err(e) && e@ == (k, m),
                Ok(None) => r matches Ok(None),
                Ok(Some((n, f))) => r matches Ok(Some((a, b))) && a@ == n && b@ == f,
            },
    {
        if size > max_size {
            let mut t = chars_of("Template file '");
            let p = chars_of(path);
            push_all(&mut t, &p);
            let a = chars_of("' is too large try maximum is: ");
            push_all(&mut t, &a);
            let m = fmt_u128(max_size as u128);
            push_all(&mut t, &m);
            let b = chars_of(" and current file size is: ");
            push_all(&mut t, &b);
            let s = fmt_u128(size as u128);
            push_all(&mut t, &s);
            return Err(Error { error_type: ErrorType::Overflow, message: string_of(&t) });
        }
        let name = slashes(&chars_of(relative));
        let full = slashes(&chars_of(path));
        if extensions.len() == 0 {
            return Ok(Some((string_of(&name), string_of(&full))));
        }
        let ext = match extension {
            None => {
                return Ok(None);
            },
            Some(e) => chars_of(e),
        };
        let mut found = false;
        let mut i: usize = 0;
        while i < extensions.len()
            invariant
                0 <= i <= extensions@.len(),
                found == exists|j: int| 0 <= j < i && extensions@[j]@ == ext@,
            decreases extensions@.len() - i,
        {
            let c = chars_of(extensions[i].as_str());
            if chars_eq(&c, &ext) {
                found = true;
            }
            i = i + 1;
        }
        proof {
            if string_views(extensions@).contains(ext@) {
                let j = choose|j: int| 0 <= j < string_views(extensions@).len() && string_views(extensions@)[j] == ext@;
                assert(extensions@[j]@ == ext@);
            }
            if found {
                let j = choose|j: int| 0 <= j < extensions@.len() && extensions@[j]@ == ext@;
                assert(string_views(extensions@)[j] == ext@);
            }
        }
        if !found {
            return Ok(None);
        }
        if crate::text::ends_with(&name, &ext) {
            let cut = slice_copy(&name, 0, name.len() - ext.len());
            Ok(Some((string_of(&cut), string_of(&full))))
        } else {
            Ok(Some((string_of(&name), string_of(&full))))
        }
    }

    /// The templates of a list that are required, and those that are not,
    /// each in the list's order.
    pub fn required_templates_satisfied_with(&self, template_list: &Vec<String>) -> (r: (Vec<String>, Vec<String>))
        ensures
            string_views(r.0@) == string_views(template_list@).filter(
                |t: Seq<char>| string_views(self.required@).contains(t),
            ),
            string_views(r.1@) == string_views(template_list@).filter(
                |t: Seq<char>| !string_views(self.required@).contains(t),
            ),
    {
        let mut satisfied: Vec<String> = Vec::new();
        let mut unsatisfied: Vec<String> = Vec::new();
        let ghost req = string_views(self.required@);
        let ghost list = string_views(template_list@);
        let mut i: usize = 0;
        while i < template_list.len()
            invariant
                0 <= i <= template_list@.len(),
                req == string_views(self.required@),
                list == string_views(template_list@),
                string_views(satisfied@) == list.take(i as int).filter(|t: Seq<char>| req.contains(t)),
                string_views(unsatisfied@) == list.take(i as int).filter(|t: Seq<char>| !req.contains(t)),
            decreases template_list@.len() - i,
        {
            let c = chars_of(template_list[i].as_str());
            let mut hit = false;
            let mut j: usize = 0;
            while j < self.required.len()
                invariant
                    0 <= j <= self.required@.len(),
                    req == string_views(self.required@),
                    hit == exists|k: int| 0 <= k < j && self.required@[k]@ == c@,
                decreases self.required@.len() - j,
            {
                let rc = chars_of(self.required[j].as_str());
                if chars_eq(&rc, &c) {
                    hit = true;
                }
                j = j + 1;
            }
            proof {
                if req.contains(c@) {
                    let k = choose|k: int| 0 <= k < req.len() && req[k] == c@;
                    assert(self.required@[k]@ == c@);
                }
                if hit {
                    let k = choose|k: int| 0 <= k < self.required@.len() && self.required@[k]@ == c@;
                    assert(req[k] == c@);
                }
                assert(list.take(i + 1).drop_last() =~= list.take(i as int));
                assert(list.take(i + 1).last() == c@);
                reveal(Seq::filter);
            }
            let ghost s0 = string_views(satisfied@);
            let ghost u0 = string_views(unsatisfied@);
            if hit {
                satisfied.push(template_list[i].clone());
                assert(string_views(satisfied@) =~= s0.push(c@));
            } else {
                unsatisfied.push(template_list[i].clone());
                assert(string_views(unsatisfied@) =~= u0.push(c@));
            }
            i = i + 1;
        }
        assert(list.take(list.len() as int) =~= list);
        (satisfied, unsatisfied)
    }

    pub fn required_templates(&self) -> (r: &Vec<String>)
        ensures
            *r == self.required,
    {
        &self.required
    }

    pub fn asset_path(&self) -> (r: &str)
        ensures
            r@ == self.asset_path@,
    {
        self.asset_path.as_str()
    }

    pub fn partial_path(&self) -> (r: &str)
        ensures
            r@ == self.partial_path@,
    {
        self.partial_path.as_str()
    }

    pub fn requirement_type(&self) -> (r: RequirementType)
        ensures
            r == self.requirement_type,
    {
        self.requirement_type
    }

    pub fn slug(&self) -> (r: &str)
        ensures
            r@ == self.slug@,
    {
        self.slug.as_str()
    }
}

} // verus!
