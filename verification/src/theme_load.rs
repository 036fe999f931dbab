//! What follows the reading of a theme's `theme.yaml`: which file is the
//! description, the description brought into shape, and the embedded files
//! sorted into templates, partials, assets and translations.
use vstd::prelude::*;

use crate::error::{Error, ErrorType};
use crate::table::{copy_strings, entry_keys, keys_unique, string_views, table_insert};
use crate::text::{
    chars_eq, chars_of, ends_with, eq_str, has_prefix, has_suffix, join_pieces, join_with, lowercase,
    push_all, rfind_char, split_char, split_on, starts_with, string_of, to_lowercase,
};
use crate::theme_files::missing_template;
use crate::theme::{
    normalize_directories, template_named, text_values, trim_slashes, without_hbs, Directories, ThemeConfig,
    Templates,
};

verus! {

/// The non-empty parts, in order.
pub open spec fn nonempty_parts(p: Seq<Seq<char>>) -> Seq<Seq<char>>
    decreases p.len(),
{
    if p.len() == 0 {
        p
    } else if p.last().len() > 0 {
        nonempty_parts(p.drop_last()).push(p.last())
    } else {
        nonempty_parts(p.drop_last())
    }
}

/// A path with no empty element: its `/`-separated non-empty parts joined
/// by single `/`s, so that no `/` leads, trails or repeats.
pub open spec fn unique_path(s: Seq<char>) -> Seq<char> {
    join_with(nonempty_parts(split_on(s, '/')), '/')
}

/// The views of a vector of character vectors.
pub open spec fn char_views(v: Seq<Vec<char>>) -> Seq<Seq<char>> {
    v.map_values(|p: Vec<char>| p@)
}

/// The path made of its non-empty `/`-separated parts, joined by single
/// `/`s.
pub fn clean_unique_path_trim(s: &str) -> (r: String)
    ensures
        r@ == unique_path(s@),
{
    let cs = chars_of(s);
    let parts = split_char(&cs, '/');
    let ghost all = split_on(s@, '/');
    let mut kept: Vec<Vec<char>> = Vec::new();
    let mut i: usize = 0;
    assert(all.take(0) =~= Seq::<Seq<char>>::empty());
    assert(char_views(kept@) =~= Seq::<Seq<char>>::empty());
    while i < parts.len()
        invariant
            0 <= i <= parts@.len() == all.len(),
            all == split_on(s@, '/'),
            forall|j: int| 0 <= j < parts@.len() ==> #[trigger] parts@[j]@ == all[j],
            char_views(kept@) == nonempty_parts(all.take(i as int)),
        decreases parts@.len() - i,
    {
        let ghost before = kept@;
        assert(all.take(i + 1).drop_last() =~= all.take(i as int));
        assert(all.take(i + 1).last() == parts@[i as int]@);
        if parts[i].len() > 0 {
            let p = crate::text::slice_copy(&parts[i], 0, parts[i].len());
            assert(p@ =~= parts@[i as int]@);
            kept.push(p);
            assert(char_views(kept@) =~= char_views(before).push(p@));
        }
        i = i + 1;
    }
    assert(all.take(all.len() as int) =~= all);
    let joined = join_pieces(&kept, '/');
    string_of(&joined)
}

/// The parts of a path that name something: not empty and not `.`.
pub open spec fn named_parts(p: Seq<Seq<char>>) -> Seq<Seq<char>>
    decreases p.len(),
{
    if p.len() == 0 {
        p
    } else if p.last().len() > 0 && p.last() != "."@ {
        named_parts(p.drop_last()).push(p.last())
    } else {
        named_parts(p.drop_last())
    }
}

/// `Path::file_name`: the last part of the path that names something,
/// unless the path has none or that part is `..`.
pub open spec fn file_name_of(path: Seq<char>) -> Option<Seq<char>> {
    let n = named_parts(split_on(path, '/'));
    if n.len() == 0 || n.last() == ".."@ {
        None
    } else {
        Some(n.last())
    }
}

/// The extension of a file name, as `Path::extension` finds it: what
/// follows its last `.`, unless there is none or the only one starts the
/// name.
pub open spec fn extension_of(name: Seq<char>) -> Option<Seq<char>> {
    if name.contains('.') {
        let i = choose|i: int| crate::text::last_at(name, '.', i);
        if i == 0 {
            None
        } else {
            Some(name.skip(i + 1))
        }
    } else {
        None
    }
}

/// The extension of the file a path names, empty where it has none.
pub open spec fn path_extension(path: Seq<char>) -> Seq<char> {
    match file_name_of(path) {
        Some(n) => match extension_of(n) {
            Some(e) => e,
            None => Seq::empty(),
        },
        None => Seq::empty(),
    }
}

fn file_name(path: &[char]) -> (r: Option<Vec<char>>)
    ensures
        match r {
            Some(n) => file_name_of(path@) == Some(n@),
            None => file_name_of(path@) is None,
        },
{
    let parts = split_char(path, '/');
    let ghost all = split_on(path@, '/');
    let mut last: Option<Vec<char>> = None;
    let mut i: usize = 0;
    assert(all.take(0) =~= Seq::<Seq<char>>::empty());
    while i < parts.len()
        invariant
            0 <= i <= parts@.len() == all.len(),
            all == split_on(path@, '/'),
            forall|j: int| 0 <= j < parts@.len() ==> #[trigger] parts@[j]@ == all[j],
            match last {
                Some(l) => named_parts(all.take(i as int)).len() > 0 && named_parts(all.take(i as int)).last()
                    == l@,
                None => named_parts(all.take(i as int)).len() == 0,
            },
        decreases parts@.len() - i,
    {
        assert(all.take(i + 1).drop_last() =~= all.take(i as int));
        assert(all.take(i + 1).last() == parts@[i as int]@);
        if parts[i].len() > 0 && !eq_str(&parts[i], ".") {
            last = Some(crate::text::slice_copy(&parts[i], 0, parts[i].len()));
            assert(parts@[i as int]@.subrange(0, parts@[i as int]@.len() as int) =~= parts@[i as int]@);
        }
        i = i + 1;
    }
    assert(all.take(all.len() as int) =~= all);
    match last {
        Some(l) => {
            if eq_str(&l, "..") {
                None
            } else {
                Some(l)
            }
        },
        None => None,
    }
}

fn extension(name: &[char]) -> (r: Vec<char>)
    ensures
        r@ == match extension_of(name@) {
            Some(e) => e,
            None => Seq::empty(),
        },
{
    match rfind_char(name, '.') {
        None => Vec::new(),
        Some(i) => {
            proof {
                let k = choose|k: int| crate::text::last_at(name@, '.', k);
                assert(k == i) by {
                    if k < i {
                        assert(name@[i as int] == '.');
                    } else if k > i {
                        assert(name@[k] == '.');
                    }
                }
            }
            assert(crate::text::last_at(name@, '.', i as int));
            assert(i < name.len());
            if i == 0 {
                Vec::new()
            } else {
                let r = crate::text::slice_copy(name, i + 1, name.len());
                assert(r@ =~= name@.skip(i + 1));
                r
            }
        },
    }
}

/// A theme description's file must be `.yaml` or `.yml`; any other
/// extension, none included, is an `InvalidInput` error that names it.
pub fn theme_config_extension(file: &str) -> (r: Result<(), Error>)
    ensures
        (path_extension(file@) == "yaml"@ || path_extension(file@) == "yml"@) ==> r is Ok,
        !(path_extension(file@) == "yaml"@ || path_extension(file@) == "yml"@) ==> r is Err
            && r->Err_0.error_type == ErrorType::InvalidInput && r->Err_0.message@
            == "Extension of theme configuration file must be yaml or yml, but got "@ + path_extension(file@)
            + "."@,
{
    let fc = chars_of(file);
    let ext = match file_name(&fc) {
        Some(n) => extension(&n),
        None => Vec::new(),
    };
    if eq_str(&ext, "yaml") || eq_str(&ext, "yml") {
        return Ok(());
    }
    let mut m = chars_of("Extension of theme configuration file must be yaml or yml, but got ");
    push_all(&mut m, &ext);
    let dot = chars_of(".");
    push_all(&mut m, &dot);
    let ms = string_of(&m);
    Err(Error::invalid_input(ms.as_str()))
}

/// The theme description's file: the one named, else `theme.yaml` where it
/// exists, else `theme.yml` where it exists; none is a `FileNotFound`
/// error. The file must then be `.yaml` or `.yml`.
pub fn theme_config_file(base_name: Option<&str>, yaml_exists: bool, yml_exists: bool) -> (r: Result<String, Error>)
    ensures
        ({
            let chosen: Option<Seq<char>> = match base_name {
                Some(b) => Some(b@),
                None => if yaml_exists {
                    Some("theme.yaml"@)
                } else if yml_exists {
                    Some("theme.yml"@)
                } else {
                    None
                },
            };
            match chosen {
                None => r is Err && r->Err_0.error_type == ErrorType::FileNotFound && r->Err_0.message@
                    == "Theme configuration file not found."@,
                Some(f) => if path_extension(f) == "yaml"@ || path_extension(f) == "yml"@ {
                    r is Ok && r->Ok_0@ == f
                } else {
                    r is Err && r->Err_0.error_type == ErrorType::InvalidInput && r->Err_0.message@
                        == "Extension of theme configuration file must be yaml or yml, but got "@
                        + path_extension(f) + "."@
                },
            }
        }),
{
    let file = match base_name {
        Some(b) => string_of(&chars_of(b)),
        None => if yaml_exists {
            string_of(&chars_of("theme.yaml"))
        } else if yml_exists {
            string_of(&chars_of("theme.yml"))
        } else {
            return Err(Error::file_not_found("Theme configuration file not found."));
        },
    };
    match theme_config_extension(file.as_str()) {
        Ok(()) => Ok(file),
        Err(e) => Err(e),
    }
}

/// The texts of a set of templates: the three named ones, then the names
/// of the others and their templates.
pub open spec fn templates_view(t: Templates) -> (Seq<char>, Seq<char>, Seq<char>, Seq<Seq<char>>, Seq<Seq<char>>) {
    (t.layout@, t.error@, t.not_found@, entry_keys(t.extra@), text_values(t.extra@))
}

/// The texts of the templates a description gives, or of the default
/// templates (`layout`, `error`, `404`, no others) where it gives none.
pub open spec fn given_templates(t: Option<Templates>) -> (Seq<char>, Seq<char>, Seq<char>, Seq<Seq<char>>, Seq<Seq<char>>) {
    match t {
        Some(t) => templates_view(t),
        None => ("layout"@, "error"@, "404"@, Seq::empty(), Seq::empty()),
    }
}

/// The same templates without a trailing `.hbs` on any of them.
pub open spec fn without_extensions(v: (Seq<char>, Seq<char>, Seq<char>, Seq<Seq<char>>, Seq<Seq<char>>)) -> (
    Seq<char>,
    Seq<char>,
    Seq<char>,
    Seq<Seq<char>>,
    Seq<Seq<char>>,
) {
    (without_hbs(v.0), without_hbs(v.1), without_hbs(v.2), v.3, Seq::new(v.4.len(), |i: int| without_hbs(v.4[i])))
}

proof fn lemma_same_keys_unique(a: Seq<(String, String)>, b: Seq<(String, String)>)
    requires
        entry_keys(a) == entry_keys(b),
        keys_unique(a),
    ensures
        keys_unique(b),
{
    assert forall|x: int, y: int| 0 <= x < b.len() && 0 <= y < b.len() && x != y implies b[x].0@ != b[y].0@ by {
        assert(entry_keys(b)[x] == entry_keys(a)[x]);
        assert(entry_keys(b)[y] == entry_keys(a)[y]);
        assert(entry_keys(a).len() == a.len());
    }
}

fn copy_string(s: &String) -> (r: String)
    ensures
        r@ == s@,
{
    string_of(&chars_of(s.as_str()))
}

fn copy_templates(t: &Templates) -> (r: Templates)
    ensures
        templates_view(r) == templates_view(*t),
        t.well_formed() ==> r.well_formed(),
{
    let mut extra: Vec<(String, String)> = Vec::new();
    let mut i: usize = 0;
    while i < t.extra.len()
        invariant
            0 <= i <= t.extra@.len(),
            entry_keys(extra@) =~= entry_keys(t.extra@.take(i as int)),
            text_values(extra@) =~= text_values(t.extra@.take(i as int)),
        decreases t.extra@.len() - i,
    {
        let k = copy_string(&t.extra[i].0);
        let v = copy_string(&t.extra[i].1);
        let ghost e0 = extra@;
        extra.push((k, v));
        assert(entry_keys(extra@) =~= entry_keys(e0).push(k@));
        assert(text_values(extra@) =~= text_values(e0).push(v@));
        assert(entry_keys(t.extra@.take(i + 1)) =~= entry_keys(t.extra@.take(i as int)).push(t.extra@[i as int].0@));
        assert(text_values(t.extra@.take(i + 1)) =~= text_values(t.extra@.take(i as int)).push(t.extra@[i as int].1@));
        i = i + 1;
    }
    assert(t.extra@.take(t.extra@.len() as int) =~= t.extra@);
    let r = Templates {
        layout: copy_string(&t.layout),
        error: copy_string(&t.error),
        not_found: copy_string(&t.not_found),
        extra,
    };
    proof {
        if t.well_formed() {
            assert forall|a: int, b: int|
                0 <= a < r.extra@.len() && 0 <= b < r.extra@.len() && a != b implies r.extra@[a].0@
                != r.extra@[b].0@ by {
                assert(entry_keys(r.extra@)[a] == entry_keys(t.extra@)[a]);
                assert(entry_keys(r.extra@)[b] == entry_keys(t.extra@)[b]);
            }
        }
    }
    r
}

/// A theme description brought into shape: its directories made plain
/// relative paths (each `/`-trimmed, with single `/`s), its templates (the
/// given ones or the defaults) without `.hbs`, and the required templates
/// (the given ones or `layout`, `error` and `404`). Gives back the
/// description, its templates, the required templates and the asset,
/// partial and language directories.
pub fn prepare_theme_config(config: ThemeConfig, required: Option<Vec<String>>) -> (r: (
    ThemeConfig,
    Templates,
    Vec<String>,
    String,
    String,
    String,
))
    ensures
        r.3@ == unique_path(seq!['/'] + trim_slashes(config.directories.assets@)),
        r.4@ == unique_path(seq!['/'] + trim_slashes(config.directories.partials@)),
        r.5@ == unique_path(seq!['/'] + trim_slashes(config.directories.language@)),
        templates_view(r.1) == without_extensions(given_templates(config.templates)),
        (config.templates matches Some(t) ==> t.well_formed()) ==> r.1.well_formed(),
        string_views(r.2@) == match required {
            Some(v) => string_views(v@),
            None => seq!["layout"@, "error"@, "404"@],
        },
        r.0.name == config.name,
        r.0.description == config.description,
        r.0.url == config.url,
        r.0.screenshot == config.screenshot,
        r.0.version == config.version,
        r.0.author == config.author,
        r.0.directories.assets@ == r.3@,
        r.0.directories.partials@ == r.4@,
        r.0.directories.language@ == r.5@,
        r.0.templates is Some && templates_view(r.0.templates->0) == templates_view(r.1),
{
    let dirs = normalize_directories(&config.directories);
    let mut templates = match &config.templates {
        Some(t) => copy_templates(t),
        None => Templates::new(),
    };
    let ghost before = templates;
    assert(templates_view(before) =~= given_templates(config.templates));
    templates.clean_extensions();
    assert(templates_view(templates) =~= without_extensions(templates_view(before)));
    proof {
        if before.well_formed() {
            lemma_same_keys_unique(before.extra@, templates.extra@);
        }
    }
    let req = match required {
        Some(v) => v,
        None => {
            let mut v: Vec<String> = Vec::new();
            v.push(string_of(&chars_of("layout")));
            v.push(string_of(&chars_of("error")));
            v.push(string_of(&chars_of("404")));
            assert(string_views(v@) =~= seq!["layout"@, "error"@, "404"@]);
            v
        },
    };
    let a = clean_unique_path_trim(dirs.assets.as_str());
    let p = clean_unique_path_trim(dirs.partials.as_str());
    let l = clean_unique_path_trim(dirs.language.as_str());
    let kept = copy_templates(&templates);
    let cfg = ThemeConfig {
        name: config.name,
        description: config.description,
        url: config.url,
        screenshot: config.screenshot,
        version: config.version,
        author: config.author,
        directories: Directories { language: copy_string(&l), assets: copy_string(&a), partials: copy_string(&p) },
        templates: Some(kept),
    };
    (cfg, templates, req, a, p, l)
}

/// A table of texts as a map from key to value.
pub open spec fn text_map(v: Seq<(String, String)>) -> Map<Seq<char>, Seq<char>> {
    crate::table::keyed_map(entry_keys(v), text_values(v))
}

fn text_insert(v: &mut Vec<(String, String)>, k: String, x: String)
    requires
        keys_unique(old(v)@),
    ensures
        keys_unique(final(v)@),
        text_map(final(v)@) == text_map(old(v)@).insert(k@, x@),
{
    let ghost before = v@;
    let ghost kv = k@;
    let ghost xv = x@;
    table_insert(v, k, x);
    proof {
        crate::theme::lemma_text_table(before);
        crate::theme::lemma_text_table(v@);
        assert(crate::table::table_map(before).insert(kv, x).map_values(|s: String| s@) =~= crate::table::table_map(
            before,
        ).map_values(|s: String| s@).insert(kv, xv));
    }
}

/// The embedded files sorted so far: templates, partials, assets and
/// translations, each by name, with the embedded path it is found at.
pub struct EmbedView {
    pub templates: Map<Seq<char>, Seq<char>>,
    pub partials: Map<Seq<char>, Seq<char>>,
    pub assets: Map<Seq<char>, Seq<char>>,
    pub languages: Map<Seq<char>, Seq<char>>,
}

/// Nothing sorted yet.
pub open spec fn embed_empty() -> EmbedView {
    EmbedView {
        templates: Map::empty(),
        partials: Map::empty(),
        assets: Map::empty(),
        languages: Map::empty(),
    }
}

/// One embedded path sorted: under the asset directory it is an asset by
/// the rest of its path; under the language directory, where it ends in
/// `.mo`, a translation by the rest of its path in lowercase (else it is
/// dropped); otherwise a `.hbs` file is a partial by the rest of its path
/// without `.hbs` when it is under the partial directory, and else a
/// template under the name of the configured template that it is, and
/// under its own name when that has no `/`. Anything else is dropped.
pub open spec fn embed_step(m: EmbedView, path: Seq<char>, t: Templates, a: Seq<char>, p: Seq<char>, l: Seq<char>) -> EmbedView {
    let ap = a.push('/');
    let pp = p.push('/');
    let lp = l.push('/');
    if has_prefix(path, ap) {
        EmbedView { assets: m.assets.insert(path.skip(ap.len() as int), path), ..m }
    } else if has_prefix(path, lp) {
        let name = path.skip(lp.len() as int);
        if has_suffix(name, ".mo"@) {
            EmbedView { languages: m.languages.insert(lowercase(name), path), ..m }
        } else {
            m
        }
    } else if has_suffix(path, ".hbs"@) {
        let n = path.take(path.len() - 4);
        if has_prefix(n, pp) {
            EmbedView { partials: m.partials.insert(n.skip(pp.len() as int), path), ..m }
        } else {
            let m1 = match template_named(t, n) {
                Some(tn) => m.templates.insert(tn, path),
                None => m.templates,
            };
            EmbedView { templates: if !n.contains('/') { m1.insert(n, path) } else { m1 }, ..m }
        }
    } else {
        m
    }
}

/// The embedded paths sorted, first to last.
pub open spec fn embed_fold(paths: Seq<Seq<char>>, t: Templates, a: Seq<char>, p: Seq<char>, l: Seq<char>) -> EmbedView
    decreases paths.len(),
{
    if paths.len() == 0 {
        embed_empty()
    } else {
        embed_step(embed_fold(paths.drop_last(), t, a, p, l), paths.last(), t, a, p, l)
    }
}

/// A configured template's path: one that ends in `.hbs` gets another
/// `.hbs`.
pub open spec fn configured_path(p: Seq<char>) -> Seq<char> {
    if has_suffix(p, ".hbs"@) {
        p + ".hbs"@
    } else {
        p
    }
}

/// The other configured templates set over the map, first to last.
pub open spec fn configured_extra(m: Map<Seq<char>, Seq<char>>, e: Seq<(String, String)>) -> Map<Seq<char>, Seq<char>>
    decreases e.len(),
{
    if e.len() == 0 {
        m
    } else {
        configured_extra(m, e.drop_last()).insert(e.last().0@, configured_path(e.last().1@))
    }
}

/// Every configured template set over the map, the three named ones first.
pub open spec fn with_configured(m: Map<Seq<char>, Seq<char>>, t: Templates) -> Map<Seq<char>, Seq<char>> {
    configured_extra(
        m.insert("layout"@, configured_path(t.layout@)).insert("error"@, configured_path(t.error@)).insert(
            "not_found"@,
            configured_path(t.not_found@),
        ),
        t.extra@,
    )
}

fn configured_path_of(p: &String) -> (r: String)
    ensures
        r@ == configured_path(p@),
{
    let mut c = chars_of(p.as_str());
    let e = chars_of(".hbs");
    if ends_with(&c, &e) {
        push_all(&mut c, &e);
    }
    string_of(&c)
}

fn with_slash(s: &str) -> (r: Vec<char>)
    ensures
        r@ == s@.push('/'),
{
    let mut c = chars_of(s);
    c.push('/');
    c
}

/// Sorts the embedded paths of a theme into its templates, partials,
/// assets and translations (each a table from name to embedded path, in
/// that order), then sets every configured template over the templates.
pub fn embedded_maps(
    paths: &Vec<String>,
    templates: &Templates,
    asset_path: &str,
    partial_path: &str,
    language_path: &str,
) -> (r: (Vec<(String, String)>, Vec<(String, String)>, Vec<(String, String)>, Vec<(String, String)>))
    requires
        templates.well_formed(),
    ensures
        ({
            let f = embed_fold(string_views(paths@), *templates, asset_path@, partial_path@, language_path@);
            &&& text_map(r.0@) == with_configured(f.templates, *templates)
            &&& text_map(r.1@) == f.partials
            &&& text_map(r.2@) == f.assets
            &&& text_map(r.3@) == f.languages
        }),
{
    let ghost views = string_views(paths@);
    let ghost a = asset_path@;
    let ghost pg = partial_path@;
    let ghost lg = language_path@;
    let ap = with_slash(asset_path);
    let pp = with_slash(partial_path);
    let lp = with_slash(language_path);
    let hbs = chars_of(".hbs");
    let mo = chars_of(".mo");
    let mut tv: Vec<(String, String)> = Vec::new();
    let mut pv: Vec<(String, String)> = Vec::new();
    let mut av: Vec<(String, String)> = Vec::new();
    let mut lv: Vec<(String, String)> = Vec::new();
    assert(text_map(tv@) =~= Map::<Seq<char>, Seq<char>>::empty());
    let mut i: usize = 0;
    while i < paths.len()
        invariant
            0 <= i <= paths@.len() == views.len(),
            views == string_views(paths@),
            templates.well_formed(),
            ap@ == a.push('/'),
            pp@ == pg.push('/'),
            lp@ == lg.push('/'),
            hbs@ == ".hbs"@,
            mo@ == ".mo"@,
            a == asset_path@ && pg == partial_path@ && lg == language_path@,
            keys_unique(tv@) && keys_unique(pv@) && keys_unique(av@) && keys_unique(lv@),
            ({
                let f = embed_fold(views.take(i as int), *templates, a, pg, lg);
                &&& text_map(tv@) == f.templates
                &&& text_map(pv@) == f.partials
                &&& text_map(av@) == f.assets
                &&& text_map(lv@) == f.languages
            }),
        decreases paths@.len() - i,
    {
        let path = chars_of(paths[i].as_str());
        proof {
            assert(views.take(i + 1).drop_last() =~= views.take(i as int));
            assert(views.take(i + 1).last() == path@);
            reveal_strlit(".hbs");
            reveal_strlit(".mo");
        }
        if starts_with(&path, &ap) {
            let rest = crate::text::slice_copy(&path, ap.len(), path.len());
            assert(rest@ =~= path@.skip(ap@.len() as int));
            text_insert(&mut av, string_of(&rest), string_of(&path));
        } else if starts_with(&path, &lp) {
            let rest = crate::text::slice_copy(&path, lp.len(), path.len());
            assert(rest@ =~= path@.skip(lp@.len() as int));
            if ends_with(&rest, &mo) {
                let lower = to_lowercase(&rest);
                text_insert(&mut lv, string_of(&lower), string_of(&path));
            }
        } else if ends_with(&path, &hbs) {
            let n = crate::text::slice_copy(&path, 0, path.len() - 4);
            assert(n@ =~= path@.take(path@.len() - 4));
            if starts_with(&n, &pp) {
                let rest = crate::text::slice_copy(&n, pp.len(), n.len());
                assert(rest@ =~= n@.skip(pp@.len() as int));
                text_insert(&mut pv, string_of(&rest), string_of(&path));
            } else {
                let ns = string_of(&n);
                match templates.get(ns.as_str()) {
                    Some(tn) => {
                        text_insert(&mut tv, string_of(&chars_of(tn)), string_of(&path));
                    },
                    None => {},
                }
                if crate::text::find_char(&n, '/').is_none() {
                    text_insert(&mut tv, string_of(&n), string_of(&path));
                } else {
                    assert(n@.contains('/'));
                }
            }
        }
        i = i + 1;
    }
    assert(views.take(views.len() as int) =~= views);
    let ghost found = text_map(tv@);
    text_insert(&mut tv, string_of(&chars_of("layout")), configured_path_of(&templates.layout));
    text_insert(&mut tv, string_of(&chars_of("error")), configured_path_of(&templates.error));
    text_insert(&mut tv, string_of(&chars_of("not_found")), configured_path_of(&templates.not_found));
    let ghost named = text_map(tv@);
    let mut k: usize = 0;
    assert(templates.extra@.take(0) =~= Seq::<(String, String)>::empty());
    while k < templates.extra.len()
        invariant
            0 <= k <= templates.extra@.len(),
            keys_unique(tv@),
            text_map(tv@) == configured_extra(named, templates.extra@.take(k as int)),
        decreases templates.extra@.len() - k,
    {
        assert(templates.extra@.take(k + 1).drop_last() =~= templates.extra@.take(k as int));
        let key = string_of(&chars_of(templates.extra[k].0.as_str()));
        let val = configured_path_of(&templates.extra[k].1);
        text_insert(&mut tv, key, val);
        k = k + 1;
    }
    assert(templates.extra@.take(templates.extra@.len() as int) =~= templates.extra@);
    (tv, pv, av, lv)
}

/// For each required template, whether an embedded path is the `.hbs`
/// file of the template it is configured to (false where it is not
/// configured).
pub open spec fn embedded_exists(t: Templates, required: Seq<Seq<char>>, paths: Seq<Seq<char>>) -> Seq<bool> {
    Seq::new(
        required.len(),
        |i: int|
            match template_named(t, required[i]) {
                Some(tn) => paths.contains(tn + ".hbs"@),
                None => false,
            },
    )
}

fn contains_text(v: &Vec<String>, t: &Vec<char>) -> (r: bool)
    ensures
        r == string_views(v@).contains(t@),
{
    let mut i: usize = 0;
    while i < v.len()
        invariant
            0 <= i <= v@.len(),
            forall|j: int| 0 <= j < i ==> v@[j]@ != t@,
        decreases v@.len() - i,
    {
        let c = chars_of(v[i].as_str());
        if chars_eq(&c, t) {
            assert(string_views(v@)[i as int] == t@);
            return true;
        }
        i = i + 1;
    }
    assert forall|j: int| 0 <= j < string_views(v@).len() implies string_views(v@)[j] != t@ by {
        assert(string_views(v@)[j] == v@[j]@);
    }
    false
}

impl crate::theme_files::TemplateRequirements {
    /// The files of a theme built into the program, from its description
    /// and the paths of its embedded files: the description is brought into
    /// shape as `prepare_theme_config` does, the paths are sorted as
    /// `embedded_maps` does, and every required template must be configured
    /// and have its `.hbs` file among the paths, as `missing_template`
    /// checks in order.
    pub fn from_embed(slug: &str, config: ThemeConfig, required: Option<Vec<String>>, paths: &Vec<String>) -> (r: Result<
        crate::theme_files::TemplateRequirements,
        Error,
    >)
        requires
            config.templates matches Some(t) ==> t.well_formed(),
        ensures
            ({
                let tv = without_extensions(given_templates(config.templates));
                let req = match required {
                    Some(v) => string_views(v@),
                    None => seq!["layout"@, "error"@, "404"@],
                };
                match r {
                    Ok(q) => {
                        &&& templates_view(q.templates) == tv
                        &&& missing_template(q.templates, req, embedded_exists(q.templates, req, string_views(paths@)), "embedded assets."@, 0) is None
                        &&& string_views(q.required@) == req
                        &&& q.slug@ == slug@
                        &&& q.theme_dir is None
                        &&& q.requirement_type == crate::theme::RequirementType::Embed
                        &&& q.asset_path@ == unique_path(seq!['/'] + trim_slashes(config.directories.assets@))
                        &&& q.partial_path@ == unique_path(seq!['/'] + trim_slashes(config.directories.partials@))
                        &&& q.language_path@ == unique_path(seq!['/'] + trim_slashes(config.directories.language@))
                        &&& {
                            let f = embed_fold(string_views(paths@), q.templates, q.asset_path@, q.partial_path@, q.language_path@);
                            &&& text_map(q.template_file_map@) == with_configured(f.templates, q.templates)
                            &&& text_map(q.partial_file_map@) == f.partials
                            &&& text_map(q.asset_file_map@) == f.assets
                            &&& text_map(q.language_file_map@) == f.languages
                        }
                    },
                    Err(e) => exists|t: Templates| templates_view(t) == tv && t.well_formed()
                        && missing_template(t, req, embedded_exists(t, req, string_views(paths@)), "embedded assets."@, 0)
                        == Some(e@),
                }
            }),
    {
        let (_cfg, templates, req, a, p, l) = prepare_theme_config(config, required);
        let (tv, pv, av, lv) = embedded_maps(paths, &templates, a.as_str(), p.as_str(), l.as_str());
        let mut exists: Vec<bool> = Vec::new();
        let mut i: usize = 0;
        let ghost rq = string_views(req@);
        let ghost ps = string_views(paths@);
        while i < req.len()
            invariant
                0 <= i <= req@.len(),
                rq == string_views(req@),
                ps == string_views(paths@),
                templates.well_formed(),
                exists@ =~= embedded_exists(templates, rq, ps).take(i as int),
            decreases req@.len() - i,
        {
            let e = match templates.get(req[i].as_str()) {
                Some(tn) => {
                    let mut f = chars_of(tn);
                    let h = chars_of(".hbs");
                    push_all(&mut f, &h);
                    contains_text(paths, &f)
                },
                None => false,
            };
            exists.push(e);
            i = i + 1;
        }
        assert(embedded_exists(templates, rq, ps).take(req@.len() as int) =~= embedded_exists(templates, rq, ps));
        match crate::theme_files::TemplateRequirements::validate_embed(&templates, &req, &exists) {
            Err(e) => Err(e),
            Ok(()) => Ok(
                crate::theme_files::TemplateRequirements {
                    requirement_type: crate::theme::RequirementType::Embed,
                    slug: string_of(&chars_of(slug)),
                    theme_dir: None,
                    required: req,
                    asset_path: a,
                    partial_path: p,
                    language_path: l,
                    partial_file_map: pv,
                    template_file_map: tv,
                    asset_file_map: av,
                    language_file_map: lv,
                    templates,
                },
            ),
        }
    }
}

/// The other configured templates set over the map as paths under the
/// theme directory, first to last.
pub open spec fn configured_extra_under(m: Map<Seq<char>, Seq<char>>, e: Seq<(String, String)>, dir: Seq<char>) -> Map<
    Seq<char>,
    Seq<char>,
>
    decreases e.len(),
{
    if e.len() == 0 {
        m
    } else {
        configured_extra_under(m, e.drop_last(), dir).insert(
            e.last().0@,
            crate::path::join_path(dir, configured_path(e.last().1@)),
        )
    }
}

/// Every configured template set over the map as a path under the theme
/// directory, the three named ones first.
pub open spec fn with_configured_under(m: Map<Seq<char>, Seq<char>>, t: Templates, dir: Seq<char>) -> Map<
    Seq<char>,
    Seq<char>,
> {
    configured_extra_under(
        m.insert("layout"@, crate::path::join_path(dir, configured_path(t.layout@))).insert(
            "error"@,
            crate::path::join_path(dir, configured_path(t.error@)),
        ).insert("not_found"@, crate::path::join_path(dir, configured_path(t.not_found@))),
        t.extra@,
        dir,
    )
}

fn copy_table(v: &Vec<(String, String)>) -> (r: Vec<(String, String)>)
    ensures
        entry_keys(r@) == entry_keys(v@),
        text_values(r@) == text_values(v@),
        keys_unique(v@) ==> keys_unique(r@),
{
    let mut r: Vec<(String, String)> = Vec::new();
    let mut i: usize = 0;
    while i < v.len()
        invariant
            0 <= i <= v@.len(),
            entry_keys(r@) =~= entry_keys(v@.take(i as int)),
            text_values(r@) =~= text_values(v@.take(i as int)),
        decreases v@.len() - i,
    {
        let ghost r0 = r@;
        let k = copy_string(&v[i].0);
        let x = copy_string(&v[i].1);
        r.push((k, x));
        assert(entry_keys(r@) =~= entry_keys(r0).push(k@));
        assert(text_values(r@) =~= text_values(r0).push(x@));
        assert(entry_keys(v@.take(i + 1)) =~= entry_keys(v@.take(i as int)).push(v@[i as int].0@));
        assert(text_values(v@.take(i + 1)) =~= text_values(v@.take(i as int)).push(v@[i as int].1@));
        i = i + 1;
    }
    assert(v@.take(v@.len() as int) =~= v@);
    proof {
        if keys_unique(v@) {
            lemma_same_keys_unique(v@, r@);
        }
    }
    r
}

/// The files of a theme read from a directory, put together: the partials
/// and assets as they were read; the templates read from the theme
/// directory with every configured template set over them as a path under
/// that directory; and the translations under their names in lowercase,
/// each with the path of a file whose name lowercases to it (which one,
/// where two do, is not promised).
pub fn filesystem_maps(
    theme_dir: &str,
    templates: &Templates,
    partial_files: &Vec<(String, String)>,
    template_files: &Vec<(String, String)>,
    asset_files: &Vec<(String, String)>,
    language_files: &Vec<(String, String)>,
) -> (r: (Vec<(String, String)>, Vec<(String, String)>, Vec<(String, String)>, Vec<(String, String)>))
    requires
        keys_unique(partial_files@),
        keys_unique(template_files@),
        keys_unique(asset_files@),
        keys_unique(language_files@),
    ensures
        text_map(r.0@) == with_configured_under(text_map(template_files@), *templates, theme_dir@),
        text_map(r.1@) == text_map(partial_files@),
        text_map(r.2@) == text_map(asset_files@),
        forall|i: int|
            0 <= i < language_files@.len() ==> text_map(r.3@).contains_key(
                #[trigger] lowercase(language_files@[i].0@),
            ),
        forall|k: Seq<char>|
            #[trigger] text_map(r.3@).contains_key(k) ==> exists|i: int|
                0 <= i < language_files@.len() && lowercase(language_files@[i].0@) == k && text_map(r.3@)[k]
                    == language_files@[i].1@,
{
    let pv = copy_table(partial_files);
    let av = copy_table(asset_files);
    let mut tv = copy_table(template_files);
    let mut lv: Vec<(String, String)> = Vec::new();
    assert(text_map(lv@) =~= Map::<Seq<char>, Seq<char>>::empty());
    let mut i: usize = 0;
    while i < language_files.len()
        invariant
            0 <= i <= language_files@.len(),
            keys_unique(lv@),
            forall|j: int| 0 <= j < i ==> text_map(lv@).contains_key(#[trigger] lowercase(language_files@[j].0@)),
            forall|k: Seq<char>|
                #[trigger] text_map(lv@).contains_key(k) ==> exists|j: int|
                    0 <= j < i && lowercase(language_files@[j].0@) == k && text_map(lv@)[k]
                        == language_files@[j].1@,
        decreases language_files@.len() - i,
    {
        let name = to_lowercase(&chars_of(language_files[i].0.as_str()));
        let path = copy_string(&language_files[i].1);
        let ghost before = text_map(lv@);
        text_insert(&mut lv, string_of(&name), path);
        proof {
            assert forall|k: Seq<char>| #[trigger] text_map(lv@).contains_key(k) implies exists|j: int|
                0 <= j < i + 1 && lowercase(language_files@[j].0@) == k && text_map(lv@)[k]
                    == language_files@[j].1@ by {
                if k == name@ {
                    assert(lowercase(language_files@[i as int].0@) == k);
                } else {
                    assert(before.contains_key(k));
                    let j = choose|j: int|
                        0 <= j < i && lowercase(language_files@[j].0@) == k && before[k] == language_files@[j].1@;
                }
            }
            assert forall|j: int| 0 <= j < i + 1 implies text_map(lv@).contains_key(
                #[trigger] lowercase(language_files@[j].0@),
            ) by {
                if j < i {
                    assert(before.contains_key(lowercase(language_files@[j].0@)));
                }
            }
        }
        i = i + 1;
    }
    let ghost found = text_map(tv@);
    let lp = configured_path_of(&templates.layout);
    text_insert(&mut tv, string_of(&chars_of("layout")), crate::path::join(theme_dir, lp.as_str()));
    let ep = configured_path_of(&templates.error);
    text_insert(&mut tv, string_of(&chars_of("error")), crate::path::join(theme_dir, ep.as_str()));
    let np = configured_path_of(&templates.not_found);
    text_insert(&mut tv, string_of(&chars_of("not_found")), crate::path::join(theme_dir, np.as_str()));
    let ghost named = text_map(tv@);
    let mut k: usize = 0;
    assert(templates.extra@.take(0) =~= Seq::<(String, String)>::empty());
    while k < templates.extra.len()
        invariant
            0 <= k <= templates.extra@.len(),
            keys_unique(tv@),
            text_map(tv@) == configured_extra_under(named, templates.extra@.take(k as int), theme_dir@),
        decreases templates.extra@.len() - k,
    {
        assert(templates.extra@.take(k + 1).drop_last() =~= templates.extra@.take(k as int));
        let key = string_of(&chars_of(templates.extra[k].0.as_str()));
        let cp = configured_path_of(&templates.extra[k].1);
        let val = crate::path::join(theme_dir, cp.as_str());
        text_insert(&mut tv, key, val);
        k = k + 1;
    }
    assert(templates.extra@.take(templates.extra@.len() as int) =~= templates.extra@);
    (tv, pv, av, lv)
}

} // verus!
