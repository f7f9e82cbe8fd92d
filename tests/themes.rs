use std::path::PathBuf;
use ta_lib::error::HighlightError;
use ta_lib::themes::{list_available_themes, theme_from_lowercase, BuiltinTheme, ThemeSource};

#[test]
fn test_builtin_theme_as_str() {
    assert_eq!(BuiltinTheme::SolarizedLight.as_str(), "Solarized (light)");
    assert_eq!(BuiltinTheme::Base16OceanDark.as_str(), "base16-ocean.dark");
    assert_eq!(BuiltinTheme::MonokaiExtended.as_str(), "Monokai Extended");
}

#[test]
fn test_builtin_theme_from_name() {
    assert_eq!(BuiltinTheme::from_name("solarized-light").unwrap(), BuiltinTheme::SolarizedLight);
    assert_eq!(BuiltinTheme::from_name("Solarized (light)").unwrap(), BuiltinTheme::SolarizedLight);
    assert_eq!(BuiltinTheme::from_name("BASE16-OCEAN-DARK").unwrap(), BuiltinTheme::Base16OceanDark);
    assert_eq!(BuiltinTheme::from_name("zenburn").unwrap(), BuiltinTheme::Zenburn);
}

#[test]
fn test_builtin_theme_from_name_invalid() {
    assert!(BuiltinTheme::from_name("nonexistent").is_err());
    assert!(BuiltinTheme::from_name("").is_err());
}

#[test]
fn test_builtin_theme_iter() {
    let themes: Vec<_> = BuiltinTheme::iter();
    assert!(themes.len() >= 7);
    assert!(themes.contains(&BuiltinTheme::SolarizedLight));
    assert!(themes.contains(&BuiltinTheme::Base16OceanDark));
}

#[test]
fn test_list_available_themes() {
    let themes = list_available_themes();
    assert!(themes.contains(&"Solarized (light)".to_string()));
    assert!(themes.contains(&"base16-ocean.dark".to_string()));
    assert!(themes.contains(&"Dracula".to_string()));
}

#[test]
fn test_builtin_theme_is_copy() {
    fn assert_copy<T: Copy>() {}
    assert_copy::<BuiltinTheme>();
}

#[test]
fn test_builtin_theme_equality() {
    assert_eq!(BuiltinTheme::Dracula, BuiltinTheme::Dracula);
    assert_ne!(BuiltinTheme::Dracula, BuiltinTheme::Zenburn);
}

#[test]
fn test_theme_source_builtin_variant() {
    let source = ThemeSource::Builtin(BuiltinTheme::Dracula);
    assert!(matches!(source, ThemeSource::Builtin(BuiltinTheme::Dracula)));
}

#[test]
fn test_theme_source_variants() {
    let builtin = ThemeSource::Builtin(BuiltinTheme::Dracula);
    let custom = ThemeSource::Custom(PathBuf::from("/custom/theme.tmTheme"));

    assert!(matches!(builtin, ThemeSource::Builtin(_)));
    assert!(matches!(custom, ThemeSource::Custom(_)));
}

#[test]
fn test_theme_source_custom_variant() {
    let path = PathBuf::from("/tmp/custom.tmTheme");
    let source = ThemeSource::Custom(path.clone());
    if let ThemeSource::Custom(p) = source {
        assert_eq!(p, path);
    } else {
        panic!("Expected Custom variant");
    }
}

#[test]
fn from_name_reports_the_name_given() {
    match BuiltinTheme::from_name("Nope Theme") {
        Err(HighlightError::ThemeNotFound { name }) => assert_eq!(name, "Nope Theme"),
        _ => panic!("expected ThemeNotFound"),
    }
    assert_eq!(BuiltinTheme::from_name("GRUVBOX Light").unwrap(), BuiltinTheme::GruvboxLight);
    assert_eq!(BuiltinTheme::from_name("Monokai Extended").unwrap(), BuiltinTheme::MonokaiExtended);
}

#[test]
fn lowercase_lookup_is_exact() {
    assert_eq!(theme_from_lowercase("dracula"), Some(BuiltinTheme::Dracula));
    assert_eq!(theme_from_lowercase("Dracula"), None);
    assert_eq!(theme_from_lowercase("gruvbox dark"), Some(BuiltinTheme::GruvboxDark));
    assert_eq!(theme_from_lowercase(""), None);
}

#[test]
fn every_theme_name_round_trips() {
    for t in BuiltinTheme::iter() {
        assert_eq!(BuiltinTheme::from_name(t.as_str()).unwrap(), t);
    }
    assert_eq!(list_available_themes().len(), 7);
}
