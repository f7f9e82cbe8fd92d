use ta_lib::ansi::{capabilities_from, AnsiBuilder, TerminalCapabilities};

#[test]
fn test_empty_builder() {
    let code = AnsiBuilder::new().build();
    assert_eq!(code, "");
}

#[test]
fn test_foreground_rgb() {
    let code = AnsiBuilder::new().fg_rgb(255, 128, 64).build();
    assert_eq!(code, "\x1b[38;2;255;128;64m");
}

#[test]
fn test_background_rgb() {
    let code = AnsiBuilder::new().bg_rgb(10, 20, 30).build();
    assert_eq!(code, "\x1b[48;2;10;20;30m");
}

#[test]
fn test_bold() {
    let code = AnsiBuilder::new().bold().build();
    assert_eq!(code, "\x1b[1m");
}

#[test]
fn test_italic() {
    let code = AnsiBuilder::new().italic().build();
    assert_eq!(code, "\x1b[3m");
}

#[test]
fn test_underline() {
    let code = AnsiBuilder::new().underline().build();
    assert_eq!(code, "\x1b[4m");
}

#[test]
fn test_combined_styles() {
    let code = AnsiBuilder::new().fg_rgb(255, 0, 0).bold().underline().build();
    assert_eq!(code, "\x1b[38;2;255;0;0;1;4m");
}

#[test]
fn test_fg_and_bg() {
    let code = AnsiBuilder::new().fg_rgb(255, 255, 255).bg_rgb(0, 0, 0).build();
    assert_eq!(code, "\x1b[38;2;255;255;255;48;2;0;0;0m");
}

#[test]
fn test_reset_constant() {
    assert_eq!(AnsiBuilder::RESET, "\x1b[0m");
}

#[test]
fn test_builder_is_clone() {
    let builder = AnsiBuilder::new().bold();
    let _cloned = builder.clone();
}

#[test]
fn test_builder_default() {
    let builder = AnsiBuilder::default();
    assert_eq!(builder.build(), "");
}

#[test]
fn test_detect_terminal_capabilities_truecolor() {
    assert_eq!(capabilities_from(Some("truecolor"), None), TerminalCapabilities::TrueColor);
}

#[test]
fn test_detect_terminal_capabilities_24bit() {
    assert_eq!(capabilities_from(Some("24bit"), None), TerminalCapabilities::TrueColor);
}

#[test]
fn test_detect_terminal_capabilities_256() {
    assert_eq!(capabilities_from(None, Some("xterm-256color")), TerminalCapabilities::Color256);
}

#[test]
fn test_detect_terminal_capabilities_basic() {
    assert_eq!(capabilities_from(None, Some("xterm")), TerminalCapabilities::Basic16);
}

#[test]
fn test_detect_terminal_capabilities_no_env() {
    assert_eq!(capabilities_from(None, None), TerminalCapabilities::Basic16);
}

#[test]
fn colour_components_are_decimal() {
    assert_eq!(AnsiBuilder::new().fg_rgb(0, 9, 100).italic().build(), "\x1b[38;2;0;9;100;3m");
    assert_eq!(capabilities_from(Some("yes"), Some("screen")), TerminalCapabilities::Basic16);
}
