use garden_esp::dotenv::{env_export, is_exported, parse_env_line};

#[test]
fn env_line_splits_at_first_equals() {
    assert_eq!(parse_env_line("SSID=garden"), Some(("SSID", "garden".to_string())));
    assert_eq!(parse_env_line("  KEY = a=b  "), Some(("KEY", "a=b".to_string())));
    assert_eq!(parse_env_line("KEY="), Some(("KEY", "".to_string())));
    assert_eq!(parse_env_line("NOEQUALS"), None);
    assert_eq!(parse_env_line(" =value"), None);
}

#[test]
fn env_value_loses_one_pair_of_quotes() {
    assert_eq!(parse_env_line("P=\"pa ss\""), Some(("P", "pa ss".to_string())));
    assert_eq!(parse_env_line("P='x'"), Some(("P", "x".to_string())));
    assert_eq!(parse_env_line("P=\"\""), Some(("P", "".to_string())));
    assert_eq!(parse_env_line("P=\""), Some(("P", "\"".to_string())));
    assert_eq!(parse_env_line("P=\"x'"), Some(("P", "\"x'".to_string())));
    assert_eq!(parse_env_line("P=''x''"), Some(("P", "'x'".to_string())));
}

#[test]
fn env_trims_unicode_white_space() {
    assert_eq!(parse_env_line("\u{3000}SSID\t=\u{a0}net\u{2003}"), Some(("SSID", "net".to_string())));
}

#[test]
fn only_known_keys_are_exported() {
    assert!(is_exported("SSID"));
    assert!(is_exported("MQTT_BROKER_PASSWORD"));
    assert!(!is_exported("ssid"));
    assert!(!is_exported("COUNTRY_INFO"));
    assert_eq!(env_export("MQTT_BROKER_PORT=8883"), Some(("MQTT_BROKER_PORT".to_string(), "8883".to_string())));
    assert_eq!(env_export("COUNTRY_INFO=DE"), None);
}

#[test]
fn blank_lines_and_comments_export_nothing() {
    assert_eq!(env_export(""), None);
    assert_eq!(env_export("   \t "), None);
    assert_eq!(env_export("# SSID=x"), None);
    assert_eq!(env_export("   #SSID=x"), None);
    assert_eq!(env_export("  SSID = \"my net\"  "), Some(("SSID".to_string(), "my net".to_string())));
}
