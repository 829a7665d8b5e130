use mousekeys::config::{settings_path, Config, ConfigError};

fn load(lines: &[&str]) -> Config {
    let lines: Vec<String> = lines.iter().map(|l| l.to_string()).collect();
    Config::load_from_lines(&lines)
}

fn same(a: &Config, b: &Config) -> bool {
    format!("{:?}", a) == format!("{:?}", b)
}

#[test]
fn defaults() {
    let c = Config::default();
    assert_eq!(c.vmax_normal, 10);
    assert_eq!(c.vmax_fast, 30);
    assert_eq!(c.vmax_slow, 1);
    assert_eq!(c.tau, "0.2");
    assert_eq!(c.double_click_delay, 25);
    assert!(c.mousekeys_numlock_on);
    assert_eq!(c.movement_update_rate, 10);
    assert_eq!(c.reconnect_delay, 2);
    assert_eq!(c.max_velocity, "100.0");
    assert_eq!(c.keyboard_scan_interval, 3);
    assert_eq!(c.validate(false, false), Ok(()));
    assert!(same(&load(&[]), &c));
}

#[test]
fn every_setting_can_be_given() {
    let c = load(&[
        "vmax_normal = 12",
        "vmax_fast=-3",
        "  vmax_slow\t=\t+2  ",
        "tau = 0.5",
        "double_click_delay = 80",
        "mousekeys_numlock_on = false",
        "movement_update_rate = 5",
        "reconnect_delay = 0",
        "max_velocity = 250.0",
        "keyboard_scan_interval = 18446744073709551615",
    ]);
    assert_eq!(c.vmax_normal, 12);
    assert_eq!(c.vmax_fast, -3);
    assert_eq!(c.vmax_slow, 2);
    assert_eq!(c.tau, "0.5");
    assert_eq!(c.double_click_delay, 80);
    assert!(!c.mousekeys_numlock_on);
    assert_eq!(c.movement_update_rate, 5);
    assert_eq!(c.reconnect_delay, 0);
    assert_eq!(c.max_velocity, "250.0");
    assert_eq!(c.keyboard_scan_interval, u64::MAX);
}

#[test]
fn lines_without_a_pair_are_skipped() {
    let c = load(&[
        "",
        "   ",
        "# vmax_normal = 99",
        "   # vmax_normal = 99",
        "vmax_normal",
        "vmax_normal = 9 = 9",
        "=",
        "vmax_normal : 99",
        "#vmax_fast=1",
    ]);
    assert!(same(&c, &Config::default()));
}

#[test]
fn unknown_keys_and_senseless_values_are_skipped() {
    let c = load(&[
        "Vmax_normal = 99",
        "vmax normal = 99",
        " = 4",
        "vmax_normal = fast",
        "vmax_normal = 1.5",
        "vmax_normal = 2147483648",
        "vmax_normal =",
        "double_click_delay = -1",
        "mousekeys_numlock_on = yes",
        "reconnect_delay = 1 2",
        "tau = fast",
        "tau = 0,5",
        "max_velocity =",
    ]);
    assert!(same(&c, &Config::default()));
}

#[test]
fn the_last_sensible_line_decides() {
    let c = load(&["vmax_fast = 40", "vmax_fast = 50", "vmax_fast = many", "vmax_slow = 3"]);
    assert_eq!(c.vmax_fast, 50);
    assert_eq!(c.vmax_slow, 3);
    assert_eq!(c.vmax_normal, 10);
    let c = load(&["tau = 0.1", "tau = 0.3", "vmax_fast = 5", "tau = none", "# tau = 1", "tau"]);
    assert_eq!(c.tau, "0.3");
}

#[test]
fn fractions_are_kept_as_written() {
    let c = load(&["tau = 0.1", "max_velocity = 5", "tau =\u{3000}+3e-1\u{3000}", "tau = none"]);
    assert_eq!(c.tau, "+3e-1");
    assert_eq!(c.max_velocity, "5");
    for text in [&c.tau, &c.max_velocity, &Config::default().tau, &Config::default().max_velocity] {
        assert!(text.parse::<f32>().is_ok());
    }
}

#[test]
fn lines_that_set_nothing_can_stand_anywhere() {
    let plain = ["vmax_fast = 40", "tau = 0.4", "vmax_fast = 50", "reconnect_delay = 7"];
    let idle = ["", "# tau = 1", "tau", "tau = 1 = 1", "speed = 3", "tau = x", "vmax_fast = 1.0"];
    let whole = load(&plain);
    for line in idle {
        for place in 0..=plain.len() {
            let mut lines = plain.to_vec();
            lines.insert(place, line);
            assert!(same(&load(&lines), &whole), "{:?} {}", line, place);
        }
    }
}

#[test]
fn lines_for_different_settings_may_change_places() {
    let a = load(&["vmax_fast = 40", "tau = 0.4", "vmax_fast = 50", "reconnect_delay = 7"]);
    let b = load(&["tau = 0.4", "vmax_fast = 40", "vmax_fast = 50", "reconnect_delay = 7"]);
    let c = load(&["reconnect_delay = 7", "vmax_fast = 40", "vmax_fast = 50", "tau = 0.4"]);
    let d = load(&["vmax_fast = 50", "tau = 0.4", "vmax_fast = 40", "reconnect_delay = 7"]);
    assert!(same(&a, &b) && same(&a, &c) && !same(&a, &d));
}

#[test]
fn a_file_can_be_read_in_parts() {
    let whole = load(&["vmax_fast = 40", "tau = 1", "vmax_fast = 50"]);
    let mut parts = load(&["vmax_fast = 40"]);
    parts.apply_line("tau = 1");
    parts.apply_line("  vmax_fast = 50  ");
    assert!(same(&whole, &parts));
}

#[test]
fn text_beyond_ascii_is_no_obstacle() {
    let c = load(&["\u{feff}vmax_fast = 40", "\u{fc}ber = 1", "\u{2003}vmax_slow\u{a0}= 7"]);
    assert_eq!(c.vmax_fast, 30);
    assert_eq!(c.vmax_slow, 7);
}

#[test]
fn validation_finds_the_first_mistake() {
    for line in ["vmax_normal = -1", "vmax_fast = -1", "vmax_slow = -1"] {
        let c = load(&[line]);
        assert_eq!(c.validate(false, false), Err(ConfigError::NegativeVelocity));
        assert_eq!(c.validate(true, true), Err(ConfigError::NegativeVelocity));
    }
    let c = load(&["vmax_normal = 0"]);
    assert_eq!(c.validate(false, false), Ok(()));
    assert_eq!(c.validate(true, false), Err(ConfigError::TauOutOfRange));
    assert_eq!(c.validate(true, true), Err(ConfigError::TauOutOfRange));
    assert_eq!(c.validate(false, true), Err(ConfigError::MaxVelocityNotPositive));
}

#[test]
fn mistakes_are_put_in_words() {
    assert_eq!(ConfigError::NegativeVelocity.message(), "Velocity values must be non-negative");
    assert_eq!(ConfigError::TauOutOfRange.message(), "Tau must be between 0.0 and 1.0");
    assert_eq!(ConfigError::MaxVelocityNotPositive.message(), "Max velocity must be positive");
}

#[test]
fn a_scan_interval_of_zero_means_no_scans() {
    assert!(Config::default().scans_keyboards());
    assert!(!load(&["keyboard_scan_interval = 0"]).scans_keyboards());
    assert!(load(&["keyboard_scan_interval = 1"]).scans_keyboards());
}

#[test]
fn settings_are_found_by_name_or_beside_the_program() {
    assert_eq!(settings_path(Some("my.conf"), Some("/opt")), "my.conf");
    assert_eq!(settings_path(Some("my.conf"), None), "my.conf");
    assert_eq!(settings_path(None, Some("/opt/bin")), "/opt/bin/mousekeys.conf");
    assert_eq!(settings_path(None, None), "mousekeys.conf");
}
