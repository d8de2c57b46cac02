use omarchy_circle_search::theme::{
    hex_slice_panics, hex_to_rgb, parse_theme, theme_slice_panics, Rgb, ThemeColors,
};

fn rgb(r: u8, g: u8, b: u8) -> Option<Rgb> {
    Some(Rgb { r, g, b })
}

#[test]
fn reads_hex_colours() {
    assert_eq!(hex_to_rgb("#1e1e2e"), rgb(0x1e, 0x1e, 0x2e));
    assert_eq!(hex_to_rgb("  FFaa00 "), rgb(255, 0xaa, 0));
    assert_eq!(hex_to_rgb("##000000"), rgb(0, 0, 0));
    assert_eq!(hex_to_rgb("+f+f+f"), rgb(15, 15, 15));
}

#[test]
fn rejects_non_colours() {
    assert_eq!(hex_to_rgb("#12345"), None);
    assert_eq!(hex_to_rgb("#1234567"), None);
    assert_eq!(hex_to_rgb("#12345g"), None);
    assert_eq!(hex_to_rgb("-f0000"), None);
    assert_eq!(hex_to_rgb("++0000"), None);
    assert_eq!(hex_to_rgb(""), None);
    assert_eq!(hex_to_rgb("éabcd"), None);
    assert!(hex_slice_panics("ab1é2"));
}

#[test]
fn cutting_a_character_apart_is_detected() {
    assert!(hex_slice_panics("aé345"));
    assert!(hex_slice_panics("€abc"));
    assert!(hex_slice_panics("ab3é4"));
    assert!(!hex_slice_panics("éabcd"));
    assert!(hex_slice_panics("zé345"));
    assert!(!hex_slice_panics("ab34é"));
    assert_eq!(hex_to_rgb("ab34é"), None);
    assert!(!hex_slice_panics("#1e1e2e"));
}

#[test]
fn theme_file_colours() {
    let text = "accent = \"#7aa2f7\"\nbackground = \"#1a1b26\"\nforeground=#c0caf5\n# comment = \"#000000\"\n";
    assert!(!theme_slice_panics(text));
    assert_eq!(
        parse_theme(text),
        ThemeColors {
            background: rgb(0x1a, 0x1b, 0x26),
            foreground: rgb(0xc0, 0xca, 0xf5),
            accent: rgb(0x7a, 0xa2, 0xf7),
        }
    );
}

#[test]
fn theme_last_value_wins_and_missing_keys_are_none() {
    let text = "background = \"#000000\"\nbackground = \"#ffffff\"\naccent = \"blue\"\n";
    assert_eq!(
        parse_theme(text),
        ThemeColors { background: rgb(255, 255, 255), foreground: None, accent: None }
    );
}

#[test]
fn theme_value_that_would_panic() {
    assert!(theme_slice_panics("accent = \"aé345\"\n"));
    assert!(!theme_slice_panics("other = \"aé345\"\n"));
}
