use zenvi::font::{
    default_font_family, guifont_entries, is_generic_monospace, loose_family_name,
    match_installed, parse_guifont, parse_single_guifont, resolve_default_font_family,
    preferred_monospace_families, resolve_guifont_family, ParsedGuiFont,
};
use zenvi::platform::TargetOs;

/// The size an entry asks for: the last `h<number>` strictly between 4 and 120.
fn size_of(parsed: &ParsedGuiFont) -> Option<f32> {
    let mut size = None;
    for text in &parsed.size_texts {
        if let Ok(s) = text.parse::<f32>() {
            if s > 4.0 && s < 120.0 {
                size = Some(s);
            }
        }
    }
    size
}

fn fonts(names: &[&str]) -> Vec<String> {
    names.iter().map(|n| n.to_string()).collect()
}

#[test]
fn test_parse_guifont_full() {
    let parsed = parse_guifont("JetBrainsMono_Nerd_Font:h15.5");
    assert_eq!(parsed.family, Some("JetBrainsMono Nerd Font".to_string()));
    assert_eq!(size_of(&parsed), Some(15.5));
}

#[test]
fn test_parse_guifont_spaces_and_attributes() {
    let parsed = parse_guifont("Fira Code:h16:b:w8");
    assert_eq!(parsed.family, Some("Fira Code".to_string()));
    assert_eq!(size_of(&parsed), Some(16.0));
}

#[test]
fn test_parse_guifont_fallback_list() {
    let parsed = parse_guifont("Source Code Pro:h14,Menlo:h14");
    assert_eq!(parsed.family, Some("Source Code Pro".to_string()));
    assert_eq!(size_of(&parsed), Some(14.0));
}

#[test]
fn test_parse_guifont_size_only() {
    let parsed = parse_guifont(":h18");
    assert_eq!(parsed.family, None);
    assert_eq!(size_of(&parsed), Some(18.0));
}

#[test]
fn test_parse_guifont_font_only() {
    let parsed = parse_guifont("Hack");
    assert_eq!(parsed.family, Some("Hack".to_string()));
    assert_eq!(size_of(&parsed), None);
}

#[test]
fn test_parse_guifont_empty() {
    let parsed = parse_guifont("");
    assert_eq!(parsed.family, None);
    assert_eq!(size_of(&parsed), None);
}

#[test]
fn test_parse_guifont_escaped_spaces() {
    let parsed = parse_guifont("Fira\\ Code\\ Nerd\\ Font:h13");
    assert_eq!(parsed.family, Some("Fira Code Nerd Font".to_string()));
    assert_eq!(size_of(&parsed), Some(13.0));
}

#[test]
fn size_texts_keep_every_h_attribute_in_order() {
    let parsed = parse_single_guifont("Hack:h12:H200:w5:h9.5");
    assert_eq!(parsed.size_texts, vec!["12".to_string(), "200".to_string(), "9.5".to_string()]);
    assert_eq!(size_of(&parsed), Some(9.5));
}

#[test]
fn default_families_per_platform() {
    assert_eq!(default_font_family(TargetOs::MacOs), "Menlo");
    assert_eq!(default_font_family(TargetOs::Windows), "Consolas");
    assert_eq!(default_font_family(TargetOs::Linux), "DejaVu Sans Mono");
}

#[test]
fn monospace_is_recognised_in_any_case() {
    assert!(is_generic_monospace("monospace"));
    assert!(is_generic_monospace("MonoSpace"));
    assert!(!is_generic_monospace("mono"));
}

#[test]
fn loose_names_drop_case_and_spaces() {
    assert_eq!(loose_family_name("JetBrains Mono NL"), "jetbrainsmononl");
    assert_eq!(loose_family_name("ÉCRAN Mono"), "écranmono");
}

#[test]
fn entries_of_a_fallback_list() {
    let entries = guifont_entries(" Source Code Pro:h14 , Menlo:h12 ");
    assert_eq!(entries.len(), 2);
    assert_eq!(entries[0].family, Some("Source Code Pro".to_string()));
    assert_eq!(entries[1].family, Some("Menlo".to_string()));
    assert_eq!(entries[1].size_texts, vec!["12".to_string()]);
    assert!(guifont_entries("   ").is_empty());
}

#[test]
fn matching_installed_families() {
    let installed = fonts(&["Fira Code", "JetBrains Mono", "Hack"]);
    assert_eq!(match_installed("Hack", &installed, "Menlo"), Some("Hack".to_string()));
    assert_eq!(
        match_installed("jetbrainsmono", &installed, "Menlo"),
        Some("JetBrains Mono".to_string())
    );
    assert_eq!(match_installed("monospace", &installed, "Menlo"), Some("Menlo".to_string()));
    assert_eq!(match_installed("Consolas", &installed, "Menlo"), None);
}

#[test]
fn guifont_resolves_to_the_first_installed_entry() {
    let installed = fonts(&["Menlo", "Fira Code"]);
    assert_eq!(
        resolve_guifont_family("Source Code Pro:h14,fira_code:h13", &installed, "Menlo"),
        "Fira Code"
    );
    assert_eq!(resolve_guifont_family("Nothing:h14", &installed, "DejaVu"), "DejaVu");
    assert_eq!(resolve_guifont_family("", &installed, "DejaVu"), "DejaVu");
}

#[test]
fn system_monospace_on_linux() {
    let installed = fonts(&["Noto Emoji Mono", "Courier Prime", "Hack", "Fira Code"]);
    assert_eq!(resolve_default_font_family(TargetOs::Linux, Some("hack"), &installed), "Hack");
    assert_eq!(resolve_default_font_family(TargetOs::Linux, None, &installed), "Fira Code");
    let others = fonts(&["Noto Emoji Mono", "Courier Prime"]);
    assert_eq!(resolve_default_font_family(TargetOs::Linux, None, &others), "Courier Prime");
    assert_eq!(resolve_default_font_family(TargetOs::Linux, None, &fonts(&["Arial"])), "DejaVu Sans Mono");
    assert_eq!(resolve_default_font_family(TargetOs::MacOs, Some("Hack"), &installed), "Menlo");
}

#[test]
fn preferred_list_starts_with_jetbrains_mono() {
    let list = preferred_monospace_families();
    assert_eq!(list.len(), 17);
    assert_eq!(list[0], "JetBrains Mono");
    assert_eq!(list[16], "Courier New");
}

#[test]
fn a_guifont_family_is_clean_and_trimmed() {
    let p = zenvi::font::parse_single_guifont("  Fira\\ Code_Mono  :h14");
    assert_eq!(p.family, Some("Fira Code Mono".to_string()));
    let p = zenvi::font::parse_single_guifont(" _\\ :h14");
    assert_eq!(p.family, None);
}
