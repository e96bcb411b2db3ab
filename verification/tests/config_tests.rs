use nixhist::config::{Config, LayoutMode, ThemeName};

#[test]
fn test_default_config() {
    let config = Config::default();
    assert_eq!(config.theme, ThemeName::Gruvbox);
    assert_eq!(config.layout, LayoutMode::Auto);
    assert!(config.display.show_nixos_version);
}

#[test]
fn test_pin_toggle() {
    let mut config = Config::default();
    assert!(!config.is_system_pinned(42));

    config.toggle_system_pin(42);
    assert!(config.is_system_pinned(42));

    config.toggle_system_pin(42);
    assert!(!config.is_system_pinned(42));
}

#[test]
fn test_theme_cycle() {
    let theme = ThemeName::Gruvbox;
    assert_eq!(theme.next(), ThemeName::Nord);
    assert_eq!(theme.next().next(), ThemeName::Transparent);
    assert_eq!(theme.next().next().next(), ThemeName::Gruvbox);
}

#[test]
fn test_home_manager_pin_is_independent() {
    let mut config = Config::default();
    config.toggle_home_manager_pin(7);
    assert!(config.is_home_manager_pinned(7));
    assert!(!config.is_system_pinned(7));
    config.toggle_home_manager_pin(7);
    assert!(!config.is_home_manager_pinned(7));
}

#[test]
fn test_layout_cycle() {
    let layout = LayoutMode::Auto;
    assert_eq!(layout.next(), LayoutMode::SideBySide);
    assert_eq!(layout.next().next(), LayoutMode::TabsOnly);
    assert_eq!(layout.next().next().next(), LayoutMode::Auto);
}

#[test]
fn test_display_names() {
    assert_eq!(ThemeName::Gruvbox.as_str(), "Gruvbox");
    assert_eq!(LayoutMode::Auto.as_str(), "Auto (responsive)");
}
