use sysdx::config::Colors;
use sysdx::theme::{parse_hex, Color, Theme};

#[test]
fn parses_valid_hex() {
    assert_eq!(parse_hex("#00ff88"), Some((0, 255, 136)));
    assert_eq!(parse_hex("8844ff"), Some((136, 68, 255)));
}

#[test]
fn rejects_invalid_hex() {
    assert_eq!(parse_hex("#xyz"), None);
    assert_eq!(parse_hex("#0000"), None);
}

#[test]
fn fallback_when_none() {
    let colors = Colors::default();
    let theme = Theme::from_colors(&colors);
    assert_eq!(theme.active, Color::Green);
}

#[test]
fn hex_edge_cases() {
    assert_eq!(parse_hex("  #A0b1C2 "), Some((160, 177, 194)));
    assert_eq!(parse_hex("##102030"), Some((16, 32, 48)));
    assert_eq!(parse_hex("#+f+f+f"), Some((15, 15, 15)));
    assert_eq!(parse_hex("#-1-1-1"), None);
    assert_eq!(parse_hex("é1234"), None);
    assert_eq!(parse_hex(""), None);
}

#[test]
fn overrides_replace_defaults() {
    let mut colors = Colors::default();
    colors.active = Some("#010203".to_string());
    colors.failed = Some("not a colour".to_string());
    let theme = Theme::from_colors(&colors);
    assert_eq!(theme.active, Color::Rgb(1, 2, 3));
    assert_eq!(theme.failed, Color::Red);
    assert_eq!(theme.background, Color::Reset);
    assert_eq!(theme.surface, Color::Black);
    assert_eq!(theme.border, Color::Blue);
    assert_eq!(theme.border_focused, Color::Green);
    assert_eq!(theme.text, Color::White);
    assert_eq!(theme.text_dim, Color::Gray);
    assert_eq!(theme.selection_bg, Color::DarkGray);
    assert_eq!(theme.selection_fg, Color::White);
    assert_eq!(theme.inactive, Color::Gray);
    assert_eq!(theme.filter_bar, Color::Yellow);
    assert_eq!(theme.header, Color::Blue);
}

#[test]
fn hex_roundtrip() {
    for &(r, g, b) in &[(0u8, 0u8, 0u8), (255, 255, 255), (18, 52, 86), (171, 205, 239), (9, 160, 15)] {
        let text = format!("#{:02x}{:02x}{:02x}", r, g, b);
        assert_eq!(parse_hex(&text), Some((r, g, b)));
    }
}
