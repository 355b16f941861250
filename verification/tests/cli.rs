use sitepass::cli::{format_site_listing, resolve_generate_site, Cli, Commands, SiteChoice};

fn strings(items: &[&str]) -> Vec<String> {
    items.iter().map(|s| s.to_string()).collect()
}

#[test]
fn empty_registry_means_no_sites() {
    let r = resolve_generate_site(&strings(&[]), None);
    assert!(matches!(r, SiteChoice::NoSites));
    let r = resolve_generate_site(&strings(&[]), Some("a".to_string()));
    assert!(matches!(r, SiteChoice::NoSites));
}

#[test]
fn no_request_means_selection() {
    let r = resolve_generate_site(&strings(&["a"]), None);
    assert!(matches!(r, SiteChoice::PromptSelect));
}

#[test]
fn known_site_is_chosen() {
    let r = resolve_generate_site(&strings(&["a", "b"]), Some("b".to_string()));
    match r {
        SiteChoice::Chosen(s) => assert_eq!(s, "b"),
        _ => panic!("expected the site to be chosen"),
    }
}

#[test]
fn unknown_site_is_not_found() {
    let r = resolve_generate_site(&strings(&["a", "b"]), Some("c".to_string()));
    match r {
        SiteChoice::NotFound(s) => assert_eq!(s, "c"),
        _ => panic!("expected the site to be missing"),
    }
}

#[test]
fn listing_is_numbered_from_one() {
    let lines = format_site_listing(&strings(&["alpha", "beta"]));
    assert_eq!(lines, strings(&["1. alpha", "2. beta"]));
}

#[test]
fn listing_numbers_grow_past_nine() {
    let names: Vec<String> = (0..12).map(|i| format!("site{}", i)).collect();
    let lines = format_site_listing(&names);
    assert_eq!(lines[0], "1. site0");
    assert_eq!(lines[9], "10. site9");
    assert_eq!(lines[11], "12. site11");
}

#[test]
fn command_line_shapes() {
    let cli = Cli { command: None };
    assert!(cli.command.is_none());
    let cli = Cli { command: Some(Commands::Add { site: Some("a".to_string()) }) };
    match cli.command {
        Some(Commands::Add { site }) => assert_eq!(site.as_deref(), Some("a")),
        _ => panic!("expected the add command"),
    }
    let cli = Cli { command: Some(Commands::Generate { site: None }) };
    assert!(matches!(cli.command, Some(Commands::Generate { site: None })));
    let cli = Cli { command: Some(Commands::List) };
    assert!(matches!(cli.command, Some(Commands::List)));
}
