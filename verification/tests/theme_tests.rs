use tray_node::error::ErrorType;
use tray_node::theme::{Author, Directories, Templates, ThemeConfig};
use tray_node::theme_files::TemplateRequirements;
use tray_node::theme_load::{
    clean_unique_path_trim, embedded_maps, filesystem_maps, prepare_theme_config, theme_config_extension,
    theme_config_file,
};

fn config(templates: Option<Templates>, assets: &str) -> ThemeConfig {
    ThemeConfig {
        name: " Demo ".to_string(),
        description: None,
        url: None,
        screenshot: None,
        version: "1.0".to_string(),
        author: Author { name: "me".to_string(), email: None, url: None },
        directories: Directories { language: "lang/".to_string(), assets: assets.to_string(), partials: "\\partials".to_string() },
        templates,
    }
}

fn find<'a>(v: &'a [(String, String)], k: &str) -> Option<&'a str> {
    v.iter().rev().find(|(a, _)| a == k).map(|(_, b)| b.as_str())
}

#[test]
fn config_file_extension() {
    assert!(theme_config_extension("theme.yaml").is_ok());
    assert!(theme_config_extension("dir/theme.yml").is_ok());
    assert!(theme_config_extension("dir/theme.yaml/.").is_ok());
    let e = theme_config_extension("theme.json").unwrap_err();
    assert_eq!(e.error_type, ErrorType::InvalidInput);
    assert_eq!(e.message, "Extension of theme configuration file must be yaml or yml, but got json.");
    assert_eq!(theme_config_extension(".yaml").unwrap_err().message, "Extension of theme configuration file must be yaml or yml, but got .");
    assert!(theme_config_extension("a/..").is_err());
    assert_eq!(theme_config_file(None, false, true).unwrap(), "theme.yml");
    assert_eq!(theme_config_file(None, true, true).unwrap(), "theme.yaml");
    let e = theme_config_file(None, false, false).unwrap_err();
    assert_eq!((e.error_type, e.message.as_str()), (ErrorType::FileNotFound, "Theme configuration file not found."));
    assert_eq!(theme_config_file(Some("custom.yml"), false, false).unwrap(), "custom.yml");
    assert!(theme_config_file(Some("custom.txt"), true, true).is_err());
}

#[test]
fn prepared_theme_config() {
    assert_eq!(clean_unique_path_trim("//a///b/"), "a/b");
    assert_eq!(clean_unique_path_trim("/"), "");
    let mut t = Templates::new();
    t.layout = "main.hbs".to_string();
    t.insert_extra("home", "pages/home.hbs");
    let (cfg, templates, required, a, p, l) = prepare_theme_config(config(Some(t), "/static//"), None);
    assert_eq!((a.as_str(), p.as_str(), l.as_str()), ("static", "partials", "lang"));
    assert_eq!(required, vec!["layout", "error", "404"]);
    assert_eq!(templates.layout, "main");
    assert_eq!(templates.get("home"), Some("pages/home"));
    assert_eq!(cfg.directories.assets, "static");
    assert_eq!(cfg.name, " Demo ");
    assert_eq!(cfg.templates.unwrap().layout, "main");
    let (_, d, req, ..) = prepare_theme_config(config(None, ""), Some(vec!["x".to_string()]));
    assert_eq!((d.layout.as_str(), d.error.as_str(), d.not_found.as_str()), ("layout", "error", "404"));
    assert_eq!(req, vec!["x"]);
}

#[test]
fn embedded_files_sorted() {
    let mut t = Templates::new();
    t.insert_extra("home", "pages/home");
    let paths: Vec<String> = [
        "assets/css/app.css",
        "lang/ID.mo",
        "lang/readme.txt",
        "partials/nav.hbs",
        "layout.hbs",
        "pages/home.hbs",
        "other/deep.hbs",
        "notes.txt",
    ]
    .iter()
    .map(|s| s.to_string())
    .collect();
    let (tm, pm, am, lm) = embedded_maps(&paths, &t, "assets", "partials", "lang");
    assert_eq!(find(&am, "css/app.css"), Some("assets/css/app.css"));
    assert_eq!(find(&lm, "id.mo"), Some("lang/ID.mo"));
    assert_eq!(lm.len(), 1);
    assert_eq!(find(&pm, "nav"), Some("partials/nav.hbs"));
    assert_eq!(find(&tm, "home"), Some("pages/home"));
    assert_eq!(find(&tm, "layout"), Some("layout"));
    assert_eq!(find(&tm, "other/deep"), None);
    assert_eq!(find(&tm, "error"), Some("error"));

    let ok = TemplateRequirements::from_embed("demo", config(Some(t.clone()), "assets"), Some(vec!["layout".to_string(), "home".to_string()]), &paths).unwrap();
    assert_eq!(ok.slug, "demo");
    assert_eq!(find(&ok.partial_file_map, "nav"), Some("partials/nav.hbs"));
    let e = TemplateRequirements::from_embed("demo", config(Some(t), "assets"), None, &paths).unwrap_err();
    assert_eq!(e.error_type, ErrorType::FileNotFound);
    assert_eq!(e.message, "Template file for error (error.hbs) not found in embedded assets.");
}

#[test]
fn filesystem_files_put_together() {
    let pairs = |v: &[(&str, &str)]| v.iter().map(|(a, b)| (a.to_string(), b.to_string())).collect::<Vec<_>>();
    let mut t = Templates::new();
    t.layout = "main".to_string();
    t.insert_extra("home", "pages/home.hbs");
    let (tm, pm, am, lm) = filesystem_maps(
        "/themes/demo",
        &t,
        &pairs(&[("nav", "/themes/demo/partials/nav.hbs")]),
        &pairs(&[("main", "/themes/demo/main.hbs"), ("layout", "/x/old.hbs")]),
        &pairs(&[("css/app.css", "/themes/demo/assets/css/app.css")]),
        &pairs(&[("ID.mo", "/themes/demo/en/ID.mo")]),
    );
    assert_eq!(find(&tm, "layout"), Some("/themes/demo/main"));
    assert_eq!(find(&tm, "main"), Some("/themes/demo/main.hbs"));
    assert_eq!(find(&tm, "home"), Some("/themes/demo/pages/home.hbs.hbs"));
    assert_eq!(find(&tm, "not_found"), Some("/themes/demo/404"));
    assert_eq!(find(&pm, "nav"), Some("/themes/demo/partials/nav.hbs"));
    assert_eq!(find(&am, "css/app.css"), Some("/themes/demo/assets/css/app.css"));
    assert_eq!(find(&lm, "id.mo"), Some("/themes/demo/en/ID.mo"));
}
