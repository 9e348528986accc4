use velowin::config::{parse_config, Config};

fn get(section: &velowin::config::Section, key: &str) -> Option<String> {
    section.get(key).cloned()
}

#[test]
fn parses_known_sections() {
    let cfg = parse_config(
        "general {\n    gaps_in = 5\n    gaps_out = 20\n}\n\ndecoration {\n  rounding=10\n}\nanimations {\n enabled = yes\n}\n",
    );
    assert_eq!(get(&cfg.general, "gaps_in"), Some("5".to_string()));
    assert_eq!(get(&cfg.general, "gaps_out"), Some("20".to_string()));
    assert_eq!(get(&cfg.decoration, "rounding"), Some("10".to_string()));
    assert_eq!(get(&cfg.animations, "enabled"), Some("yes".to_string()));
    assert_eq!(get(&cfg.general, "rounding"), None);
    assert!(cfg.binds.is_empty());
}

#[test]
fn comments_blank_lines_and_lines_without_equals_are_skipped() {
    let cfg = parse_config("general {\n# gaps_in = 1\n\n   \nnot a setting\n  border_size = 2  \n}");
    assert_eq!(get(&cfg.general, "gaps_in"), None);
    assert_eq!(get(&cfg.general, "not a setting"), None);
    assert_eq!(get(&cfg.general, "border_size"), Some("2".to_string()));
}

#[test]
fn later_values_replace_earlier_ones() {
    let cfg = parse_config("general { a = 1\n a = 2 }\ngeneral {\na=3\nb = x = y\n}");
    assert_eq!(get(&cfg.general, "a"), Some("3".to_string()));
    // Only the first `=` splits key and value.
    assert_eq!(get(&cfg.general, "b"), Some("x = y".to_string()));
}

#[test]
fn unknown_sections_are_skipped() {
    let cfg = parse_config("misc { a = 1 }\ngeneral { b = 2 }");
    assert_eq!(get(&cfg.general, "a"), None);
    assert_eq!(get(&cfg.general, "b"), Some("2".to_string()));
}

#[test]
fn parsing_stops_at_what_is_not_a_section() {
    // A body without a closing brace, a name with a digit, a missing brace.
    let cfg = parse_config("general { a = 1 }\ndecoration { b = 2");
    assert_eq!(get(&cfg.general, "a"), Some("1".to_string()));
    assert_eq!(get(&cfg.decoration, "b"), None);
    let cfg = parse_config("general2 { a = 1 }\ngeneral { b = 2 }");
    assert_eq!(get(&cfg.general, "a"), None);
    assert_eq!(get(&cfg.general, "b"), None);
    let cfg = parse_config("general = 1\ngeneral { b = 2 }");
    assert_eq!(get(&cfg.general, "b"), None);
}

#[test]
fn bind_lines_outside_sections_give_an_empty_config() {
    let cfg = parse_config(
        "\n        bind = SUPER, Return, exec, powershell\n        bind = SUPER, Q, killactive,\n        exec-once = start velowin-bar\n    ",
    );
    assert_eq!(get(&cfg.general, "bind"), None);
    assert!(cfg.binds.is_empty());
}

#[test]
fn empty_and_blank_texts_give_an_empty_config() {
    for text in ["", "  \n\t\r\n"] {
        let cfg = parse_config(text);
        assert_eq!(get(&cfg.general, ""), None);
        assert!(cfg.binds.is_empty());
    }
}

#[test]
fn crlf_lines_and_unicode_whitespace_are_trimmed() {
    let cfg = parse_config("general {\r\n  key\u{3000}=\u{00A0}value\r\n}\r\n");
    assert_eq!(get(&cfg.general, "key"), Some("value".to_string()));
}

#[test]
fn section_names_are_alphabetic_runs() {
    // A non-ASCII alphabetic name is a section (unknown, so skipped); the
    // next one is still read.
    let cfg = parse_config("généràl { a = 1 }\ngeneral { b = 2 }");
    assert_eq!(get(&cfg.general, "a"), None);
    assert_eq!(get(&cfg.general, "b"), Some("2".to_string()));
}

#[test]
fn default_config_is_empty() {
    let cfg = Config::default();
    assert_eq!(get(&cfg.general, "gaps_in"), None);
    assert!(cfg.binds.is_empty());
}
