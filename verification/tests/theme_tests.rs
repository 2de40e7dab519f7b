use rulmee::colors::Colors;
use rulmee::theme::{has_theme, initial_themes, theme_file_plan, theme_search_dirs, Theme, ThemeDiscovery, ThemeFormat};

#[test]
fn test_discover_themes_fallback() {
    let base_colors = Colors::default();
    let themes = initial_themes(&base_colors);
    assert!(!themes.is_empty());
    assert_eq!(themes[0].name, "default");
}

#[test]
fn theme_files_are_planned_by_extension_and_name() {
    let themes = initial_themes(&Colors::default());
    assert_eq!(
        theme_file_plan("/etc/lidm/themes/theme_a.toml", &themes),
        Some(("theme_a".to_string(), ThemeFormat::Toml))
    );
    assert_eq!(
        theme_file_plan("/etc/lidm/themes/theme_b.ini", &themes),
        Some(("theme_b".to_string(), ThemeFormat::Ini))
    );
    assert_eq!(theme_file_plan("/etc/lidm/themes/notes.txt", &themes), None);
    assert_eq!(theme_file_plan("/etc/lidm/themes/README", &themes), None);
    assert_eq!(theme_file_plan("/etc/lidm/themes/default.toml", &themes), None);
}

#[test]
fn theme_names_are_found() {
    let themes = vec![Theme::new("a", "/a", Colors::default()), Theme::new("b", "/b", Colors::default())];
    assert!(has_theme(&themes, "b"));
    assert!(!has_theme(&themes, "c"));
    assert_eq!(theme_search_dirs()[0], "/etc/rulmee/themes");
    assert_eq!(theme_search_dirs().len(), 5);
}

#[test]
fn discovery_lists_each_theme_name_once() {
    let mut found = ThemeDiscovery::new(&Colors::default());
    assert_eq!(found.plan("/etc/rulmee/themes/dusk.toml"), Some(("dusk".to_string(), ThemeFormat::Toml)));
    assert!(found.add("dusk", "/etc/rulmee/themes/dusk.toml", Colors::default()));
    assert_eq!(found.plan("/etc/lidm/themes/dusk.ini"), None);
    assert!(!found.add("dusk", "/etc/lidm/themes/dusk.ini", Colors::default()));
    assert_eq!(found.plan("/etc/lidm/themes/dawn.ini"), Some(("dawn".to_string(), ThemeFormat::Ini)));
    assert!(found.add("dawn", "/etc/lidm/themes/dawn.ini", Colors::default()));
    let themes = found.into_themes();
    let names: Vec<&str> = themes.iter().map(|t| t.name.as_str()).collect();
    assert_eq!(names, vec!["default", "dusk", "dawn"]);
    assert_eq!(themes[1].path, "/etc/rulmee/themes/dusk.toml");
}
