use ghmd::templater::{Liveness, PageFields, Templater, Theme, LIVE_SCRIPT, PAGE, SCRIPT};

fn filled(title: &str, content: &str, theme: &str, javascript: &str) -> String {
    PAGE.replace("{{ title }}", title)
        .replace("{{ theme }}", theme)
        .replace("{{ javascript }}", javascript)
        .replace("{{ content }}", content)
}

#[test]
fn themes_have_names() {
    assert_eq!(Theme::Dark.as_str(), "dark");
    assert_eq!(Theme::Light.as_str(), "light");
}

#[test]
fn the_default_theme_is_dark() {
    assert_eq!(Theme::default(), Theme::Dark);
}

#[test]
fn the_engine_takes_the_page_template() {
    assert!(Templater::new("readme.md".to_string(), Theme::Dark).is_ok());
    assert!(Templater::new(String::new(), Theme::Light).is_ok());
}

#[test]
fn a_static_page_gets_the_common_script() {
    let templater = Templater::new("readme.md".to_string(), Theme::Light).unwrap();
    assert_eq!(
        templater.fields("<h1>Hello</h1>", Liveness::Static),
        PageFields {
            title: "readme.md".to_string(),
            content: "<h1>Hello</h1>".to_string(),
            theme: "light".to_string(),
            javascript: SCRIPT.to_string(),
        }
    );
}

#[test]
fn a_live_page_gets_the_live_script_first() {
    let templater = Templater::new("readme.md".to_string(), Theme::Dark).unwrap();
    let fields = templater.fields("", Liveness::Live);
    assert_eq!(fields.javascript, format!("{}{}", LIVE_SCRIPT, SCRIPT));
    assert_eq!(fields.theme, "dark");
    assert_eq!(fields.content, "");
}

#[test]
fn the_page_holds_the_four_fields_as_they_are() {
    let templater = Templater::new("a <b> & c".to_string(), Theme::Dark).unwrap();
    assert_eq!(
        templater.generate("<h1>Hello & goodbye</h1>", Liveness::Static),
        Ok(filled("a <b> & c", "<h1>Hello & goodbye</h1>", "dark", SCRIPT))
    );
    let light = Templater::new("t".to_string(), Theme::Light).unwrap();
    assert_eq!(
        light.generate("<p>x</p>", Liveness::Live),
        Ok(filled("t", "<p>x</p>", "light", &format!("{}{}", LIVE_SCRIPT, SCRIPT)))
    );
}

#[test]
fn the_page_shows_the_markup_in_its_article() {
    let templater = Templater::new("readme.md".to_string(), Theme::Dark).unwrap();
    let page = templater.generate("<h1>Hello</h1>", Liveness::Live).unwrap();
    assert!(page.contains("<article id=\"content\" class=\"markdown-body\"><h1>Hello</h1></article>"));
    assert!(page.contains("<title>readme.md</title>"));
    assert!(page.contains("<body class=\"theme-dark\">"));
    assert!(page.contains("new EventSource"));
    let still = templater.generate("<h1>Hello</h1>", Liveness::Static).unwrap();
    assert!(!still.contains("new EventSource"));
}

#[test]
fn markup_that_looks_like_a_template_is_not_run() {
    let templater = Templater::new("{{ title }}".to_string(), Theme::Dark).unwrap();
    let page = templater.generate("{{ 1 + 1 }} {% if x %} {{ now() }}", Liveness::Static).unwrap();
    assert!(page.contains("<article id=\"content\" class=\"markdown-body\">{{ 1 + 1 }} {% if x %} {{ now() }}</article>"));
    assert!(page.contains("<title>{{ title }}</title>"));
}
