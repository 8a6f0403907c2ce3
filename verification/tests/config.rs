use keyboard_debouncer::conf_file::load_conf;
use keyboard_debouncer::config::{
    build_config, known_keys, lookup_keys, parse_args, parse_cli_args, resolve_config_path, CliAction,
    CliError, ConfigError, NamedKey,
};

#[test]
fn test_parse_cli_args_empty() {
    let res = parse_cli_args(Vec::<&str>::new()).unwrap();
    assert_eq!(res, CliAction::Run(None));
}

#[test]
fn test_parse_cli_args_positional() {
    let res = parse_cli_args(vec!["/custom/path.conf"]).unwrap();
    assert_eq!(
        res,
        CliAction::Run(Some(String::from("/custom/path.conf")))
    );
}

#[test]
fn test_parse_cli_args_long_flag() {
    let res = parse_cli_args(vec!["--config", "/etc/debouncer.conf"]).unwrap();
    assert_eq!(
        res,
        CliAction::Run(Some(String::from("/etc/debouncer.conf")))
    );
}

#[test]
fn test_parse_cli_args_short_flag() {
    let res = parse_cli_args(vec!["-c", "/etc/debouncer.conf"]).unwrap();
    assert_eq!(
        res,
        CliAction::Run(Some(String::from("/etc/debouncer.conf")))
    );
}

#[test]
fn test_parse_cli_args_help() {
    assert_eq!(parse_cli_args(vec!["-h"]).unwrap(), CliAction::Help);
    assert_eq!(parse_cli_args(vec!["--help"]).unwrap(), CliAction::Help);
}

#[test]
fn test_parse_cli_args_missing_flag_value() {
    assert!(parse_cli_args(vec!["--config"]).is_err());
    assert!(parse_cli_args(vec!["-c"]).is_err());
}

#[test]
fn test_parse_cli_args_unknown_flag() {
    assert!(parse_cli_args(vec!["--unknown"]).is_err());
    assert!(parse_cli_args(vec!["-u"]).is_err());
}

#[test]
fn test_parse_cli_args_multiple_paths() {
    assert!(parse_cli_args(vec!["conf1.conf", "conf2.conf"]).is_err());
    assert!(parse_cli_args(vec!["--config", "conf1.conf", "conf2.conf"]).is_err());
    assert!(parse_cli_args(vec!["conf1.conf", "-c", "conf2.conf"]).is_err());
}

fn default_path() -> String {
    String::from("debouncer.conf")
}

#[test]
fn cli_errors_say_what_is_wrong() {
    assert_eq!(
        parse_cli_args(vec!["a.conf", "--config"]).unwrap_err().message(),
        "Option '--config' requires a path argument"
    );
    assert_eq!(
        parse_cli_args(vec!["a.conf", "b.conf"]).unwrap_err().message(),
        "Multiple configuration files specified"
    );
    assert_eq!(
        parse_cli_args(vec!["--verbose"]).unwrap_err().message(),
        "Unknown option: '--verbose'. Use --help for usage."
    );
}

#[test]
fn cli_errors_have_their_variants() {
    assert_eq!(
        parse_cli_args(vec!["-c"]),
        Err(CliError::MissingValue(String::from("-c")))
    );
    assert_eq!(
        parse_cli_args(vec!["-c", "a", "-c", "b"]),
        Err(CliError::MultiplePaths)
    );
    assert_eq!(
        parse_cli_args(vec!["-"]),
        Err(CliError::UnknownOption(String::from("-")))
    );
}

#[test]
fn cli_option_takes_the_next_argument_whatever_it_is() {
    assert_eq!(
        parse_cli_args(vec!["-c", "-h"]).unwrap(),
        CliAction::Run(Some(String::from("-h")))
    );
}

#[test]
fn cli_help_wins_unless_a_fault_comes_first() {
    assert_eq!(
        parse_cli_args(vec!["a.conf", "-h", "b.conf"]).unwrap(),
        CliAction::Help
    );
    assert!(parse_cli_args(vec!["-x", "-h"]).is_err());
}

#[test]
fn named_conf_file_comes_first() {
    assert_eq!(
        resolve_config_path(Some(String::from("my.conf")), true, true).unwrap(),
        "my.conf"
    );
    assert_eq!(resolve_config_path(None, true, true).unwrap(), default_path());
    assert_eq!(
        resolve_config_path(None, false, true).unwrap(),
        "/etc/debouncer.conf"
    );
    let err = resolve_config_path(None, false, false).unwrap_err();
    assert_eq!(err, ConfigError::NoConfFile);
    assert_eq!(
        err.message(),
        "Could not find debouncer.conf in current directory or /etc/. Please create one."
    );
}

#[test]
fn conf_lines_are_trimmed_and_comments_skipped() {
    let conf = load_conf(
        "# comment = 1\n  # another = 2\r\n  A = b = c  \r\nno equals sign\nB=\n\u{a0}C\u{3000}=\td\n",
    );
    assert_eq!(conf.get("A"), Some("b = c"));
    assert_eq!(conf.get("B"), Some(""));
    assert_eq!(conf.get("C"), Some("d"));
    assert_eq!(conf.get("# comment"), None);
    assert_eq!(conf.get("comment"), None);
    assert_eq!(conf.get("no equals sign"), None);
}

#[test]
fn later_conf_line_overrides() {
    let conf = load_conf("A=1\nA=2\n#A=3\nB=x");
    assert_eq!(conf.get("A"), Some("2"));
    assert_eq!(conf.get("B"), Some("x"));
}

#[test]
fn settings_fall_back_to_the_defaults() {
    let conf = load_conf("KEYS=KEY_K, KEY_L ,KEY_ENTER\nKEYBOARD_NAME=My Keyboard\n");
    let cfg = parse_args(&conf, "debouncer.conf", false).ok().unwrap();
    assert_eq!(cfg.keys, vec![37u16, 38u16, 28u16]);
    assert_eq!(cfg.device_path, "");
    assert_eq!(cfg.keyboard_name, Some(String::from("My Keyboard")));
    assert_eq!(cfg.track_db, None);
    assert_eq!(cfg.debounce.threshold_ms, 30);
    assert_eq!(cfg.debounce.short_hold_threshold_ms, 70);
    assert_eq!(cfg.debounce.extended_threshold_ms, 100);
    assert_eq!(cfg.debounce.micro_hold_threshold_ms, 20);
    assert_eq!(cfg.debounce.micro_extended_threshold_ms, 150);
    assert!(!cfg.debounce.log_forward);
    assert!(!cfg.debounce.debounce_all);
}

#[test]
fn settings_are_read() {
    let conf = load_conf(
        "KEYS=KEY_K\nDEVICE_PATH=/dev/input/event10\nKEYBOARD_NAME=kb\nTHRESHOLD_MS=1\n\
         EXTENDED_THRESHOLD_MS=+2\nSHORT_HOLD_THRESHOLD_MS=003\nMICRO_HOLD_THRESHOLD_MS=4\n\
         MICRO_EXTENDED_THRESHOLD_MS=18446744073709551615\nLOG_FORWARD=true\n\
         DEBOUNCE_ALL_KEYS=true\nTRACK_DB=/var/lib/keys.db\n",
    );
    let cfg = parse_args(&conf, "debouncer.conf", true).ok().unwrap();
    assert_eq!(cfg.device_path, "/dev/input/event10");
    assert_eq!(cfg.keyboard_name, Some(String::from("kb")));
    assert_eq!(cfg.debounce.threshold_ms, 1);
    assert_eq!(cfg.debounce.extended_threshold_ms, 2);
    assert_eq!(cfg.debounce.short_hold_threshold_ms, 3);
    assert_eq!(cfg.debounce.micro_hold_threshold_ms, 4);
    assert_eq!(cfg.debounce.micro_extended_threshold_ms, u64::MAX);
    assert!(cfg.debounce.log_forward);
    assert!(cfg.debounce.debounce_all);
    assert_eq!(cfg.track_db, Some(String::from("/var/lib/keys.db")));
}

#[test]
fn settings_that_write_no_number_fall_back() {
    for bad in ["", "+", "-1", "1.5", "12ms", "18446744073709551616", "٣"] {
        let content = format!("KEYS=KEY_K\nKEYBOARD_NAME=kb\nTHRESHOLD_MS={bad}\nLOG_FORWARD=yes\n");
        let cfg = parse_args(&load_conf(&content), "c", false).ok().unwrap();
        assert_eq!(cfg.debounce.threshold_ms, 30);
        assert!(!cfg.debounce.log_forward);
    }
}

#[test]
fn missing_keys_are_an_error() {
    let err = parse_args(&load_conf("KEYBOARD_NAME=kb"), "/etc/debouncer.conf", false)
        .err()
        .unwrap();
    assert_eq!(err, ConfigError::KeysMissing(String::from("/etc/debouncer.conf")));
    assert_eq!(err.message(), "KEYS is required in /etc/debouncer.conf");
}

#[test]
fn unknown_keys_are_an_error() {
    let conf = load_conf("KEYS=KEY_K, KEY_FOO ,KEY_BAR");
    let err = parse_args(&conf, "c", false).err().unwrap();
    assert_eq!(err, ConfigError::UnknownKey(String::from("KEY_FOO")));
    assert_eq!(
        err.message(),
        "Unknown key name: 'KEY_FOO'. Use evtest format, e.g. KEY_K, KEY_ENTER"
    );
    let empty = parse_args(&load_conf("KEYS="), "c", false).err().unwrap();
    assert_eq!(empty, ConfigError::UnknownKey(String::new()));
}

#[test]
fn device_has_to_be_configured_and_exist() {
    let err = parse_args(&load_conf("KEYS=KEY_K"), "c", true).err().unwrap();
    assert_eq!(err, ConfigError::NoDevice);
    assert_eq!(
        err.message(),
        "Either DEVICE_PATH or KEYBOARD_NAME must be set in config"
    );
    let conf = load_conf("KEYS=KEY_K\nKEYBOARD_NAME=kb\nDEVICE_PATH=/dev/input/event99");
    let err = parse_args(&conf, "c", false).err().unwrap();
    assert_eq!(
        err,
        ConfigError::NoSuchDevice(String::from("/dev/input/event99"))
    );
    assert_eq!(
        err.message(),
        "Device path /dev/input/event99 does not exist"
    );
}

#[test]
fn looked_up_keys_carry_their_codes() {
    let found = lookup_keys(" KEY_A ,nothing");
    assert_eq!(found.len(), 2);
    assert_eq!(found[0].name, "KEY_A");
    assert_eq!(found[0].code, Some(evdev::Key::KEY_A.code()));
    assert_eq!(found[1].name, "nothing");
    assert_eq!(found[1].code, None);
}

#[test]
fn known_keys_go_by_what_was_found() {
    let key = |name: &str, code: Option<u16>| NamedKey {
        name: String::from(name),
        code,
    };
    assert_eq!(
        known_keys(vec![key("A", Some(7)), key("B", Some(9))]),
        Ok(vec![7u16, 9u16])
    );
    assert_eq!(
        known_keys(vec![key("A", Some(7)), key("B", None), key("C", None)]),
        Err(ConfigError::UnknownKey(String::from("B")))
    );
}

#[test]
fn config_is_built_around_the_keys() {
    let conf = load_conf("KEYBOARD_NAME=kb");
    let cfg = build_config(&conf, vec![1u16, 2u16], false).ok().unwrap();
    assert_eq!(cfg.keys, vec![1u16, 2u16]);
    assert_eq!(
        build_config(&load_conf(""), vec![1u16], false).err(),
        Some(ConfigError::NoDevice)
    );
}
