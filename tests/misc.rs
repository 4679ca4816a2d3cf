use deepwell_auth::render::{render_bibcite, render_bibliography, HtmlContext};
use deepwell_auth::seed::{first_unknown_site, site_exists, Date, Site};
use deepwell_auth::slug::{get_regular_slug, replace_colons};

fn site(slug: &str) -> Site {
    Site {
        slug: slug.to_string(),
        aliases: vec![],
        domains: vec![],
        name: slug.to_string(),
        tagline: String::new(),
        description: String::new(),
        default_page: None,
        layout: None,
        locale: "en".to_string(),
    }
}

#[test]
fn regular_slug_drops_colons() {
    assert_eq!(replace_colons("a:b::c"), "a-b--c");
    assert_eq!(get_regular_slug("Site: Name"), "site-name");
    assert_eq!(get_regular_slug("Foo:Bar"), "foo-bar");
    assert_eq!(get_regular_slug(""), "");
}

#[test]
fn seed_sites_must_exist() {
    let sites = vec![site("www"), site("test")];
    assert!(site_exists(&sites, &"test".to_string()));
    assert!(!site_exists(&sites, &"nope".to_string()));
    let pages = vec!["www".to_string(), "nope".to_string(), "test".to_string()];
    assert_eq!(first_unknown_site(&sites, &pages), Some(1));
    assert_eq!(first_unknown_site(&sites, &vec!["www".to_string()]), None);
}

#[test]
fn dates_are_checked() {
    let d = Date::new(2000, 2, 29).unwrap();
    assert_eq!((d.year(), d.month(), d.day()), (2000, 2, 29));
    assert!(Date::new(1900, 2, 29).is_none());
    assert!(Date::new(2024, 4, 31).is_none());
    assert!(Date::new(2024, 13, 1).is_none());
    assert!(Date::new(2024, 1, 0).is_none());
    assert!(Date::new(2023, 12, 31).is_some());
}

#[test]
fn bibliography_rendering() {
    let mut ctx = HtmlContext::new();
    render_bibcite(&mut ctx, "Smith2000", true);
    render_bibcite(&mut ctx, "Doe", false);
    assert_eq!(ctx.buffer(), "[Smith2000]Doe");
    let mut ctx = HtmlContext::new();
    render_bibliography(&mut ctx, None);
    render_bibliography(&mut ctx, Some(" / Sources"));
    assert_eq!(ctx.buffer(), "Bibliography / Sources");
}
