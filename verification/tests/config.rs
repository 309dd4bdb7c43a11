use watari::config::{parse_bool, resolve, Config, Env, DEFAULT_DISPLAY};

fn env(display: Option<&str>, mirror_clears: Option<&str>) -> Env {
    Env {
        display: display.map(str::to_owned),
        mirror_clears: mirror_clears.map(str::to_owned),
    }
}

#[test]
fn boolean_spellings() {
    for truthy in ["1", "true", "yes", "on", "TRUE", "anything", ""] {
        assert!(parse_bool(truthy), "{truthy} should be truthy");
    }
    for falsy in ["0", "false", "no", "off", "OFF", " false "] {
        assert!(!parse_bool(falsy), "{falsy} should be falsy");
    }
}

#[test]
fn defaults_are_used_when_nothing_is_set() {
    let config = resolve(None, None, &Env::default());
    assert_eq!(config.display, DEFAULT_DISPLAY);
    assert!(config.mirror_clears);
}

#[test]
fn empty_environment_values_fall_back_to_defaults() {
    let config = resolve(None, None, &env(Some(""), Some("")));
    assert_eq!(config.display, DEFAULT_DISPLAY);
    assert!(config.mirror_clears);
}

#[test]
fn environment_is_used_when_no_flag_is_given() {
    let config = resolve(None, None, &env(Some(":7"), Some("off")));
    assert_eq!(config.display, ":7");
    assert!(!config.mirror_clears);
}

#[test]
fn flags_win_over_the_environment() {
    let config = resolve(Some(":42"), Some(true), &env(Some(":7"), Some("off")));
    assert_eq!(config.display, ":42");
    assert!(config.mirror_clears);
}

#[test]
fn partial_overrides_only_touch_their_field() {
    let config = resolve(Some(":42"), None, &env(Some(":7"), Some("false")));
    assert_eq!(config.display, ":42");
    assert!(!config.mirror_clears);
}

#[test]
fn render_is_stable_key_value_lines() {
    let config = Config {
        display: ":9".to_owned(),
        mirror_clears: false,
    };
    assert_eq!(config.render(), "display=:9\nmirror_clears=false\n");
}

#[test]
fn render_shows_true_for_mirrored_clears() {
    let config = Config {
        display: ":0".to_owned(),
        mirror_clears: true,
    };
    assert_eq!(config.render(), "display=:0\nmirror_clears=true\n");
}

#[test]
fn boolean_parsing_trims_unicode_whitespace_and_ignores_ascii_case() {
    assert!(!parse_bool("\t No\n"));
    assert!(!parse_bool("\u{3000}oFf\u{a0}"));
    assert!(!parse_bool("FALSE"));
    assert!(parse_bool("n o"));
    assert!(parse_bool("00"));
    assert!(parse_bool("falsey"));
    assert!(parse_bool("\u{2028}"));
}

#[test]
fn empty_display_override_falls_back_to_the_default() {
    let config = resolve(Some(""), None, &env(Some(":7"), None));
    assert_eq!(config.display, DEFAULT_DISPLAY);
}

#[test]
fn boolean_parsing_ignores_capitals_and_padding() {
    for value in ["off", "No", "FALSE", "0", "yes", "x"] {
        assert_eq!(parse_bool(&value.to_ascii_uppercase()), parse_bool(value));
        assert_eq!(parse_bool(&format!(" {value} ")), parse_bool(value));
    }
}
