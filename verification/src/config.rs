//! Configuration of the daemon: the command line and what the configuration
//! file says.
use vstd::prelude::*;
use vstd::string::*;

use crate::conf_file::Conf;
use crate::conf_file::{is_setting, setting_name, setting_value, settings};
use crate::conf_file::{law_last_setting_wins, law_unnamed_is_unset};
use crate::debounce::{
    DEFAULT_EXTENDED_THRESHOLD_MS, DEFAULT_MICRO_EXTENDED_THRESHOLD_MS,
    DEFAULT_MICRO_HOLD_THRESHOLD_MS, DEFAULT_SHORT_HOLD_THRESHOLD_MS, DEFAULT_THRESHOLD_MS,
};
use crate::keys::evdev_key_code;
use crate::keys::parse_key;
use crate::text::law_splitting_undoes_joining;
use crate::text::{begins_with, joined, number_in, pieces, trimmed};
use crate::text::{has_prefix, parse_number, same_text, split, trim};

verus! {

/// Configuration for debounce filtering. All thresholds are in milliseconds.
#[derive(Clone, Copy, Debug)]
pub struct DebounceConfig {
    /// The window after a `Normal` hold.
    pub threshold_ms: u64,
    /// The window after a `Short` hold.
    pub extended_threshold_ms: u64,
    /// A hold below this is at most `Short`.
    pub short_hold_threshold_ms: u64,
    /// A hold below this is `Micro`.
    pub micro_hold_threshold_ms: u64,
    /// The window after a `Micro` hold.
    pub micro_extended_threshold_ms: u64,
    /// Log every forwarded event at once.
    pub log_forward: bool,
    /// Debounce every key but the modifiers.
    pub debounce_all: bool,
}

/// Top-level application configuration.
pub struct Config {
    /// The event node to read; empty where it is to be found by name.
    pub device_path: String,
    /// The name under which the keyboard is found.
    pub keyboard_name: Option<String>,
    /// The codes of the keys to debounce.
    pub keys: Vec<u16>,
    pub debounce: DebounceConfig,
    /// The database of the key health record.
    pub track_db: Option<String>,
}

/// What the command line asks for.
#[derive(Debug, PartialEq, Eq)]
pub enum CliAction {
    /// Print the usage.
    Help,
    /// Run, with the configuration file that was named.
    Run(Option<String>),
}

/// A command line that asks for nothing sensible.
#[derive(Debug, PartialEq, Eq)]
pub enum CliError {
    /// The option stands last and lacks its path.
    MissingValue(String),
    /// A second configuration file.
    MultiplePaths,
    /// An option that there is not.
    UnknownOption(String),
}

/// What a command line comes to.
pub enum CliMeaning {
    Help,
    Run(Option<Seq<char>>),
    MissingValue(Seq<char>),
    MultiplePaths,
    UnknownOption(Seq<char>),
}

/// The text of an optional string.
pub open spec fn text_of(s: Option<String>) -> Option<Seq<char>> {
    match s {
        Some(t) => Some(t@),
        None => None,
    }
}

/// `arg` asks for the usage.
pub open spec fn is_help_option(arg: Seq<char>) -> bool {
    arg == "-h"@ || arg == "--help"@
}

/// `arg` names the configuration file in the argument behind it.
pub open spec fn is_config_option(arg: Seq<char>) -> bool {
    arg == "-c"@ || arg == "--config"@
}

/// The meaning of the arguments that are left, once `given` has been named.
pub open spec fn cli_meaning(args: Seq<Seq<char>>, given: Option<Seq<char>>) -> CliMeaning
    decreases args.len(),
{
    if args.len() == 0 {
        CliMeaning::Run(given)
    } else if is_help_option(args[0]) {
        CliMeaning::Help
    } else if is_config_option(args[0]) {
        if args.len() == 1 {
            CliMeaning::MissingValue(args[0])
        } else if given is Some {
            CliMeaning::MultiplePaths
        } else {
            cli_meaning(args.skip(2), Some(args[1]))
        }
    } else if begins_with(args[0], "-"@) {
        CliMeaning::UnknownOption(args[0])
    } else if given is Some {
        CliMeaning::MultiplePaths
    } else {
        cli_meaning(args.skip(1), Some(args[0]))
    }
}

/// The meaning that a result of `parse_cli_args` states.
pub open spec fn cli_result(r: Result<CliAction, CliError>) -> CliMeaning {
    match r {
        Ok(CliAction::Help) => CliMeaning::Help,
        Ok(CliAction::Run(path)) => CliMeaning::Run(text_of(path)),
        Err(CliError::MissingValue(option)) => CliMeaning::MissingValue(option@),
        Err(CliError::MultiplePaths) => CliMeaning::MultiplePaths,
        Err(CliError::UnknownOption(option)) => CliMeaning::UnknownOption(option@),
    }
}

/// Reads the command line, without the name of the program.
pub fn parse_cli_args(args: Vec<&str>) -> (r: Result<CliAction, CliError>)
    ensures
        cli_result(r) == cli_meaning(args@.map_values(|a: &str| a@), None),
{
    let ghost all = args@.map_values(|a: &str| a@);
    let mut explicit_path: Option<String> = None;
    let mut i: usize = 0;
    assert(all.skip(0) =~= all);
    while i < args.len()
        invariant
            all == args@.map_values(|a: &str| a@),
            i <= args@.len(),
            cli_meaning(all, None) == cli_meaning(all.skip(i as int), text_of(explicit_path)),
        decreases args@.len() - i,
    {
        let arg: &str = args[i];
        assert(all.skip(i as int)[0] == arg@);
        if same_text(arg, "-h") || same_text(arg, "--help") {
            return Ok(CliAction::Help);
        } else if same_text(arg, "-c") || same_text(arg, "--config") {
            if i + 1 == args.len() {
                return Err(CliError::MissingValue(arg.to_owned()));
            }
            if explicit_path.is_some() {
                return Err(CliError::MultiplePaths);
            }
            assert(all.skip(i as int)[1] == args@[i + 1]@);
            assert(all.skip(i as int).skip(2) =~= all.skip(i + 2));
            explicit_path = Some(args[i + 1].to_owned());
            i = i + 2;
        } else if has_prefix(arg, "-") {
            return Err(CliError::UnknownOption(arg.to_owned()));
        } else {
            if explicit_path.is_some() {
                return Err(CliError::MultiplePaths);
            }
            assert(all.skip(i as int).skip(1) =~= all.skip(i + 1));
            explicit_path = Some(arg.to_owned());
            i = i + 1;
        }
    }
    Ok(CliAction::Run(explicit_path))
}

impl CliError {
    /// The message for an error of the command line.
    pub open spec fn text(&self) -> Seq<char> {
        match self {
            CliError::MissingValue(option) => "Option '"@ + option@
                + "' requires a path argument"@,
            CliError::MultiplePaths => "Multiple configuration files specified"@,
            CliError::UnknownOption(option) => "Unknown option: '"@ + option@
                + "'. Use --help for usage."@,
        }
    }

    /// The message for the error.
    pub fn message(&self) -> (r: String)
        ensures
            r@ == self.text(),
    {
        match self {
            CliError::MissingValue(option) => "Option '".to_owned().concat(option.as_str()).concat(
                "' requires a path argument",
            ),
            CliError::MultiplePaths => "Multiple configuration files specified".to_owned(),
            CliError::UnknownOption(option) => "Unknown option: '".to_owned().concat(
                option.as_str(),
            ).concat("'. Use --help for usage."),
        }
    }
}

/// A configuration that the daemon cannot run with.
#[derive(Debug, PartialEq, Eq)]
pub enum ConfigError {
    /// No configuration file was named, and there is none in either place.
    NoConfFile,
    /// The configuration file of this path does not set `KEYS`.
    KeysMissing(String),
    /// `KEYS` lists a name that is no key.
    UnknownKey(String),
    /// `DEVICE_PATH` names a node that does not exist.
    NoSuchDevice(String),
    /// Neither `DEVICE_PATH` nor `KEYBOARD_NAME` is set.
    NoDevice,
}

/// What can be wrong with a configuration.
pub enum ConfigFault {
    NoConfFile,
    KeysMissing(Seq<char>),
    UnknownKey(Seq<char>),
    NoSuchDevice(Seq<char>),
    NoDevice,
}

impl View for ConfigError {
    type V = ConfigFault;

    open spec fn view(&self) -> ConfigFault {
        match self {
            ConfigError::NoConfFile => ConfigFault::NoConfFile,
            ConfigError::KeysMissing(path) => ConfigFault::KeysMissing(path@),
            ConfigError::UnknownKey(name) => ConfigFault::UnknownKey(name@),
            ConfigError::NoSuchDevice(path) => ConfigFault::NoSuchDevice(path@),
            ConfigError::NoDevice => ConfigFault::NoDevice,
        }
    }
}

impl ConfigError {
    /// The message for an error of the configuration.
    pub open spec fn text(&self) -> Seq<char> {
        match self {
            ConfigError::NoConfFile =>
                "Could not find debouncer.conf in current directory or /etc/. Please create one."@,
            ConfigError::KeysMissing(path) => "KEYS is required in "@ + path@,
            ConfigError::UnknownKey(name) => "Unknown key name: '"@ + name@
                + "'. Use evtest format, e.g. KEY_K, KEY_ENTER"@,
            ConfigError::NoSuchDevice(path) => "Device path "@ + path@ + " does not exist"@,
            ConfigError::NoDevice => "Either DEVICE_PATH or KEYBOARD_NAME must be set in config"@,
        }
    }

    /// The message for the error.
    pub fn message(&self) -> (r: String)
        ensures
            r@ == self.text(),
    {
        match self {
            ConfigError::NoConfFile =>
                "Could not find debouncer.conf in current directory or /etc/. Please create one.".to_owned(),
            ConfigError::KeysMissing(path) => "KEYS is required in ".to_owned().concat(
                path.as_str(),
            ),
            ConfigError::UnknownKey(name) => "Unknown key name: '".to_owned().concat(
                name.as_str(),
            ).concat("'. Use evtest format, e.g. KEY_K, KEY_ENTER"),
            ConfigError::NoSuchDevice(path) => "Device path ".to_owned().concat(
                path.as_str(),
            ).concat(" does not exist"),
            ConfigError::NoDevice =>
                "Either DEVICE_PATH or KEYBOARD_NAME must be set in config".to_owned(),
        }
    }
}

/// The configuration file to read: the one that was named, else the one in the
/// current directory, else the one in `/etc`.
pub open spec fn conf_path_for(
    explicit_path: Option<Seq<char>>,
    local_exists: bool,
    etc_exists: bool,
) -> Option<Seq<char>> {
    if explicit_path is Some {
        explicit_path
    } else if local_exists {
        Some("debouncer.conf"@)
    } else if etc_exists {
        Some("/etc/debouncer.conf"@)
    } else {
        None
    }
}

/// Picks the configuration file. `local_exists` and `etc_exists` say whether
/// there is a `debouncer.conf` in the current directory and in `/etc`.
pub fn resolve_config_path(
    explicit_path: Option<String>,
    local_exists: bool,
    etc_exists: bool,
) -> (r: Result<String, ConfigError>)
    ensures
        match r {
            Ok(path) => conf_path_for(text_of(explicit_path), local_exists, etc_exists) == Some(
                path@,
            ),
            Err(e) => e is NoConfFile && conf_path_for(
                text_of(explicit_path),
                local_exists,
                etc_exists,
            ) is None,
        },
{
    match explicit_path {
        Some(path) => Ok(path),
        None => {
            if local_exists {
                Ok("debouncer.conf".to_owned())
            } else if etc_exists {
                Ok("/etc/debouncer.conf".to_owned())
            } else {
                Err(ConfigError::NoConfFile)
            }
        },
    }
}

/// The number that a setting writes, or the default where it is not set or
/// writes none.
pub open spec fn number_or(
    conf: Map<Seq<char>, Seq<char>>,
    name: Seq<char>,
    default_value: u64,
) -> u64 {
    if conf.contains_key(name) && number_in(conf[name]) is Some {
        number_in(conf[name])->0
    } else {
        default_value
    }
}

/// A setting that is exactly `true`.
pub open spec fn flag_set(conf: Map<Seq<char>, Seq<char>>, name: Seq<char>) -> bool {
    conf.contains_key(name) && conf[name] == "true"@
}

/// The debounce settings of a configuration file.
pub open spec fn debounce_settings(conf: Map<Seq<char>, Seq<char>>) -> DebounceConfig {
    DebounceConfig {
        threshold_ms: number_or(conf, "THRESHOLD_MS"@, DEFAULT_THRESHOLD_MS),
        extended_threshold_ms: number_or(
            conf,
            "EXTENDED_THRESHOLD_MS"@,
            DEFAULT_EXTENDED_THRESHOLD_MS,
        ),
        short_hold_threshold_ms: number_or(
            conf,
            "SHORT_HOLD_THRESHOLD_MS"@,
            DEFAULT_SHORT_HOLD_THRESHOLD_MS,
        ),
        micro_hold_threshold_ms: number_or(
            conf,
            "MICRO_HOLD_THRESHOLD_MS"@,
            DEFAULT_MICRO_HOLD_THRESHOLD_MS,
        ),
        micro_extended_threshold_ms: number_or(
            conf,
            "MICRO_EXTENDED_THRESHOLD_MS"@,
            DEFAULT_MICRO_EXTENDED_THRESHOLD_MS,
        ),
        log_forward: flag_set(conf, "LOG_FORWARD"@),
        debounce_all: flag_set(conf, "DEBOUNCE_ALL_KEYS"@),
    }
}

/// `c` is what the settings and the list of keys amount to.
pub open spec fn is_config(c: Config, conf: Map<Seq<char>, Seq<char>>, keys: Seq<u16>) -> bool {
    &&& c.device_path@ == match conf.get("DEVICE_PATH"@) {
        Some(path) => path,
        None => Seq::empty(),
    }
    &&& text_of(c.keyboard_name) == conf.get("KEYBOARD_NAME"@)
    &&& c.keys@ == keys
    &&& c.debounce == debounce_settings(conf)
    &&& text_of(c.track_db) == conf.get("TRACK_DB"@)
}

/// What is wrong with the device that the settings name.
pub open spec fn device_fault(
    conf: Map<Seq<char>, Seq<char>>,
    device_exists: bool,
) -> Option<ConfigFault> {
    if conf.contains_key("DEVICE_PATH"@) {
        if device_exists {
            None
        } else {
            Some(ConfigFault::NoSuchDevice(conf["DEVICE_PATH"@]))
        }
    } else if conf.contains_key("KEYBOARD_NAME"@) {
        None
    } else {
        Some(ConfigFault::NoDevice)
    }
}

/// A name out of `KEYS` with the code of its key, where there is one.
#[derive(Debug)]
pub struct NamedKey {
    pub name: String,
    pub code: Option<u16>,
}

impl View for NamedKey {
    type V = (Seq<char>, Option<u16>);

    open spec fn view(&self) -> (Seq<char>, Option<u16>) {
        (self.name@, self.code)
    }
}

/// The names in a list that is separated by commas, each with the code of its
/// key.
pub open spec fn listed_keys(raw: Seq<char>) -> Seq<(Seq<char>, Option<u16>)> {
    pieces(raw, ',').map_values(
        |name: Seq<char>| (trimmed(name), evdev_key_code(trimmed(name))),
    )
}

/// The views of keys that were looked up.
pub open spec fn looked_up(found: Seq<NamedKey>) -> Seq<(Seq<char>, Option<u16>)> {
    found.map_values(|k: NamedKey| k@)
}

/// The first name that is no key.
pub open spec fn first_unknown(found: Seq<(Seq<char>, Option<u16>)>) -> Option<Seq<char>>
    decreases found.len(),
{
    if found.len() == 0 {
        None
    } else if found[0].1 is None {
        Some(found[0].0)
    } else {
        first_unknown(found.drop_first())
    }
}

/// The codes of names that all are keys, in order.
pub open spec fn codes_of(found: Seq<(Seq<char>, Option<u16>)>) -> Seq<u16> {
    found.map_values(|k: (Seq<char>, Option<u16>)| k.1->0)
}

/// Looks up each key name in a list that is separated by commas.
pub fn lookup_keys(raw: &str) -> (r: Vec<NamedKey>)
    ensures
        looked_up(r@) == listed_keys(raw@),
        r@.len() > 0,
{
    let parts: Vec<&str> = split(raw, ',');
    let ghost names = pieces(raw@, ',');
    let mut found: Vec<NamedKey> = Vec::new();
    let mut i: usize = 0;
    assert(parts@.map_values(|p: &str| p@) == names);
    assert(names.len() > 0);
    assert(names.len() == parts@.len());
    while i < parts.len()
        invariant
            parts@.map_values(|p: &str| p@) == names,
            names == pieces(raw@, ','),
            i <= parts@.len(),
            looked_up(found@) == listed_keys(raw@).take(i as int),
        decreases parts@.len() - i,
    {
        assert(names[i as int] == parts@[i as int]@);
        let name: &str = trim(parts[i]);
        let code: Option<u16> = match parse_key(name) {
            Ok(code) => Some(code),
            Err(_) => None,
        };
        let ghost before = found@;
        found.push(NamedKey { name: name.to_owned(), code });
        assert(looked_up(found@) =~= looked_up(before).push((name@, code)));
        assert(listed_keys(raw@).take(i + 1) =~= listed_keys(raw@).take(i as int).push(
            (name@, code),
        ));
        i = i + 1;
    }
    assert(listed_keys(raw@).take(parts@.len() as int) =~= listed_keys(raw@));
    assert(looked_up(found@).len() == found@.len());
    found
}

/// The codes of the keys that were looked up, unless one of the names is no
/// key.
pub fn known_keys(found: Vec<NamedKey>) -> (r: Result<Vec<u16>, ConfigError>)
    ensures
        match r {
            Ok(keys) => first_unknown(looked_up(found@)) is None && keys@ == codes_of(
                looked_up(found@),
            ),
            Err(e) => match first_unknown(looked_up(found@)) {
                Some(name) => e@ == ConfigFault::UnknownKey(name),
                None => false,
            },
        },
{
    let ghost all = looked_up(found@);
    let mut keys: Vec<u16> = Vec::new();
    let mut i: usize = 0;
    assert(all.skip(0) =~= all);
    assert(keys@ =~= codes_of(all.take(0)));
    while i < found.len()
        invariant
            all == looked_up(found@),
            i <= found@.len(),
            first_unknown(all) == first_unknown(all.skip(i as int)),
            keys@ == codes_of(all.take(i as int)),
        decreases found@.len() - i,
    {
        assert(all.skip(i as int)[0] == found@[i as int]@);
        assert(all.skip(i as int).drop_first() =~= all.skip(i + 1));
        match found[i].code {
            Some(code) => {
                keys.push(code);
                assert(keys@ =~= codes_of(all.take(i + 1)));
            },
            None => {
                return Err(ConfigError::UnknownKey(found[i].name.clone()));
            },
        }
        i = i + 1;
    }
    assert(all.take(found@.len() as int) =~= all);
    Ok(keys)
}

fn number_setting(conf: &Conf, name: &str, default_value: u64) -> (r: u64)
    ensures
        r == number_or(conf@, name@, default_value),
{
    match conf.get(name) {
        Some(v) => match parse_number(v) {
            Some(n) => n,
            None => default_value,
        },
        None => default_value,
    }
}

fn flag_setting(conf: &Conf, name: &str) -> (r: bool)
    ensures
        r == flag_set(conf@, name@),
{
    match conf.get(name) {
        Some(v) => same_text(v, "true"),
        None => false,
    }
}

fn text_setting(conf: &Conf, name: &str) -> (r: Option<String>)
    ensures
        text_of(r) == conf@.get(name@),
{
    match conf.get(name) {
        Some(v) => Some(v.to_owned()),
        None => None,
    }
}

/// Puts the configuration together out of the settings and the keys that they
/// list. `device_exists` says whether the node that `DEVICE_PATH` names exists.
pub fn build_config(conf: &Conf, keys: Vec<u16>, device_exists: bool) -> (r: Result<
    Config,
    ConfigError,
>)
    ensures
        match r {
            Ok(c) => device_fault(conf@, device_exists) is None && is_config(c, conf@, keys@),
            Err(e) => device_fault(conf@, device_exists) == Some(e@),
        },
        r matches Ok(c) ==> (c.debounce.debounce_all <==> conf@.get("DEBOUNCE_ALL_KEYS"@) == Some(
            "true"@,
        )),
        r matches Ok(c) ==> (c.debounce.log_forward <==> conf@.get("LOG_FORWARD"@) == Some(
            "true"@,
        )),
{
    let keyboard_name: Option<String> = text_setting(conf, "KEYBOARD_NAME");
    let device_path: String = match text_setting(conf, "DEVICE_PATH") {
        Some(path) => {
            if !device_exists {
                return Err(ConfigError::NoSuchDevice(path));
            }
            path
        },
        None => {
            if keyboard_name.is_none() {
                return Err(ConfigError::NoDevice);
            }
            String::new()
        },
    };
    let debounce: DebounceConfig = DebounceConfig {
        threshold_ms: number_setting(conf, "THRESHOLD_MS", DEFAULT_THRESHOLD_MS),
        extended_threshold_ms: number_setting(
            conf,
            "EXTENDED_THRESHOLD_MS",
            DEFAULT_EXTENDED_THRESHOLD_MS,
        ),
        short_hold_threshold_ms: number_setting(
            conf,
            "SHORT_HOLD_THRESHOLD_MS",
            DEFAULT_SHORT_HOLD_THRESHOLD_MS,
        ),
        micro_hold_threshold_ms: number_setting(
            conf,
            "MICRO_HOLD_THRESHOLD_MS",
            DEFAULT_MICRO_HOLD_THRESHOLD_MS,
        ),
        micro_extended_threshold_ms: number_setting(
            conf,
            "MICRO_EXTENDED_THRESHOLD_MS",
            DEFAULT_MICRO_EXTENDED_THRESHOLD_MS,
        ),
        log_forward: flag_setting(conf, "LOG_FORWARD"),
        debounce_all: flag_setting(conf, "DEBOUNCE_ALL_KEYS"),
    };
    let track_db: Option<String> = text_setting(conf, "TRACK_DB");
    Ok(Config { device_path, keyboard_name, keys, debounce, track_db })
}

/// What is wrong with the settings of the file at `conf_path`: the first fault
/// in this order, that `KEYS` is missing, that a key is unknown, that the
/// device is not to be had.
pub open spec fn config_fault(
    conf: Map<Seq<char>, Seq<char>>,
    conf_path: Seq<char>,
    device_exists: bool,
) -> Option<ConfigFault> {
    if !conf.contains_key("KEYS"@) {
        Some(ConfigFault::KeysMissing(conf_path))
    } else {
        match first_unknown(listed_keys(conf["KEYS"@])) {
            Some(name) => Some(ConfigFault::UnknownKey(name)),
            None => device_fault(conf, device_exists),
        }
    }
}

/// Reads the configuration out of the settings of the file at `conf_path`.
/// `device_exists` says whether the node that `DEVICE_PATH` names exists.
pub fn parse_args(conf: &Conf, conf_path: &str, device_exists: bool) -> (r: Result<
    Config,
    ConfigError,
>)
    ensures
        match r {
            Ok(c) => {
                &&& config_fault(conf@, conf_path@, device_exists) is None
                &&& is_config(c, conf@, codes_of(listed_keys(conf@["KEYS"@])))
                &&& c.keys@.len() > 0
            },
            Err(e) => config_fault(conf@, conf_path@, device_exists) == Some(e@),
        },
        r matches Ok(c) ==> (c.debounce.debounce_all <==> conf@.get("DEBOUNCE_ALL_KEYS"@) == Some(
            "true"@,
        )),
        r matches Ok(c) ==> (c.debounce.log_forward <==> conf@.get("LOG_FORWARD"@) == Some(
            "true"@,
        )),
{
    let raw: &str = match conf.get("KEYS") {
        Some(raw) => raw,
        None => {
            return Err(ConfigError::KeysMissing(conf_path.to_owned()));
        },
    };
    let found: Vec<NamedKey> = lookup_keys(raw);
    match known_keys(found) {
        Ok(keys) => build_config(conf, keys, device_exists),
        Err(e) => Err(e),
    }
}

/// A configuration file can be named with either option or, unless it looks
/// like an option, on its own: all three mean the same.
pub proof fn law_ways_to_name_a_file_agree(path: Seq<char>)
    ensures
        cli_meaning(seq!["-c"@, path], None) == CliMeaning::Run(Some(path)),
        cli_meaning(seq!["--config"@, path], None) == CliMeaning::Run(Some(path)),
        !begins_with(path, "-"@) ==> cli_meaning(seq![path], None) == CliMeaning::Run(Some(path)),
{
    reveal_strlit("-");
    reveal_strlit("-h");
    reveal_strlit("--help");
    reveal_strlit("-c");
    reveal_strlit("--config");
    reveal_with_fuel(cli_meaning, 3);
    assert("-c"@[1] != "-h"@[1]);
    assert("--help"@.take(1) =~= "-"@);
    assert("-h"@.take(1) =~= "-"@);
    assert("-c"@.take(1) =~= "-"@);
    assert("--config"@.take(1) =~= "-"@);
    assert(seq!["-c"@, path].skip(2) =~= Seq::empty());
    assert(seq!["--config"@, path].skip(2) =~= Seq::empty());
    assert(seq![path].skip(1) =~= Seq::empty());
}

/// A second configuration file is refused, however either is named and
/// whatever comes behind.
pub proof fn law_second_file_is_refused(given: Seq<char>, args: Seq<Seq<char>>)
    requires
        args.len() > 0,
        (is_config_option(args[0]) && args.len() > 1) || !begins_with(args[0], "-"@),
    ensures
        cli_meaning(args, Some(given)) == CliMeaning::MultiplePaths,
{
    reveal_strlit("-");
    reveal_strlit("-h");
    reveal_strlit("--help");
    reveal_strlit("-c");
    reveal_strlit("--config");
    assert("-h"@.take(1) =~= "-"@);
    assert("--help"@.take(1) =~= "-"@);
    assert("-c"@[1] != "-h"@[1]);
    assert("-c"@.len() != "--help"@.len());
    assert("--config"@.len() != "--help"@.len());
    if !begins_with(args[0], "-"@) {
        assert("-c"@.take(1) =~= "-"@);
        assert("--config"@.take(1) =~= "-"@);
    }
}

/// The daemon only ever runs with a file that the command line names.
pub proof fn law_path_is_an_argument(args: Seq<Seq<char>>, given: Option<Seq<char>>)
    ensures
        cli_meaning(args, given) matches CliMeaning::Run(path) ==> path == given || (given is None
            && path is Some && args.contains(path->0)),
    decreases args.len(),
{
    if args.len() > 0 {
        if is_config_option(args[0]) {
            if args.len() > 1 && given is None {
                law_path_is_an_argument(args.skip(2), Some(args[1]));
                assert(args.contains(args[1]));
            }
        } else if given is None {
            law_path_is_an_argument(args.skip(1), Some(args[0]));
            assert(args.contains(args[0]));
        }
    }
}

/// Each switch is on exactly if the setting of its own name is `true`.
pub proof fn law_switches_go_by_their_names(
    c: Config,
    conf: Map<Seq<char>, Seq<char>>,
    keys: Seq<u16>,
)
    requires
        is_config(c, conf, keys),
    ensures
        c.debounce.debounce_all <==> conf.contains_key("DEBOUNCE_ALL_KEYS"@) && conf["DEBOUNCE_ALL_KEYS"@]
            == "true"@,
        c.debounce.log_forward <==> conf.contains_key("LOG_FORWARD"@) && conf["LOG_FORWARD"@]
            == "true"@,
{
}

/// Each threshold is the number that the setting of its own name writes. One
/// that is not set, or whose setting writes no number, has its default.
pub proof fn law_thresholds_go_by_their_names(
    c: Config,
    conf: Map<Seq<char>, Seq<char>>,
    keys: Seq<u16>,
)
    requires
        is_config(c, conf, keys),
    ensures
        c.debounce.threshold_ms == match conf.get("THRESHOLD_MS"@) {
            Some(v) => match number_in(v) {
                Some(n) => n,
                None => 30u64,
            },
            None => 30u64,
        },
        c.debounce.extended_threshold_ms == match conf.get("EXTENDED_THRESHOLD_MS"@) {
            Some(v) => match number_in(v) {
                Some(n) => n,
                None => 100u64,
            },
            None => 100u64,
        },
        c.debounce.short_hold_threshold_ms == match conf.get("SHORT_HOLD_THRESHOLD_MS"@) {
            Some(v) => match number_in(v) {
                Some(n) => n,
                None => 70u64,
            },
            None => 70u64,
        },
        c.debounce.micro_hold_threshold_ms == match conf.get("MICRO_HOLD_THRESHOLD_MS"@) {
            Some(v) => match number_in(v) {
                Some(n) => n,
                None => 20u64,
            },
            None => 20u64,
        },
        c.debounce.micro_extended_threshold_ms == match conf.get("MICRO_EXTENDED_THRESHOLD_MS"@) {
            Some(v) => match number_in(v) {
                Some(n) => n,
                None => 150u64,
            },
            None => 150u64,
        },
{
}

/// The places are those that the settings of their own names give: an event
/// node or none, a name or none, a database or none.
pub proof fn law_places_go_by_their_names(
    c: Config,
    conf: Map<Seq<char>, Seq<char>>,
    keys: Seq<u16>,
)
    requires
        is_config(c, conf, keys),
    ensures
        conf.contains_key("DEVICE_PATH"@) ==> c.device_path@ == conf["DEVICE_PATH"@],
        !conf.contains_key("DEVICE_PATH"@) ==> c.device_path@.len() == 0,
        c.keyboard_name is Some <==> conf.contains_key("KEYBOARD_NAME"@),
        c.keyboard_name matches Some(name) ==> name@ == conf["KEYBOARD_NAME"@],
        c.track_db is Some <==> conf.contains_key("TRACK_DB"@),
        c.track_db matches Some(path) ==> path@ == conf["TRACK_DB"@],
        c.keys@ == keys,
{
}

/// No setting depends on another: two files that agree on a name agree on what
/// that name sets, whatever else they hold.
pub proof fn law_settings_do_not_mix(
    c: Config,
    conf: Map<Seq<char>, Seq<char>>,
    keys: Seq<u16>,
    other: Config,
    other_conf: Map<Seq<char>, Seq<char>>,
    other_keys: Seq<u16>,
)
    requires
        is_config(c, conf, keys),
        is_config(other, other_conf, other_keys),
    ensures
        conf.get("DEBOUNCE_ALL_KEYS"@) == other_conf.get("DEBOUNCE_ALL_KEYS"@) ==> c.debounce.debounce_all
            == other.debounce.debounce_all,
        conf.get("LOG_FORWARD"@) == other_conf.get("LOG_FORWARD"@) ==> c.debounce.log_forward
            == other.debounce.log_forward,
        conf.get("THRESHOLD_MS"@) == other_conf.get("THRESHOLD_MS"@) ==> c.debounce.threshold_ms
            == other.debounce.threshold_ms,
        conf.get("EXTENDED_THRESHOLD_MS"@) == other_conf.get("EXTENDED_THRESHOLD_MS"@) ==> c.debounce.extended_threshold_ms
            == other.debounce.extended_threshold_ms,
        conf.get("SHORT_HOLD_THRESHOLD_MS"@) == other_conf.get("SHORT_HOLD_THRESHOLD_MS"@) ==> c.debounce.short_hold_threshold_ms
            == other.debounce.short_hold_threshold_ms,
        conf.get("MICRO_HOLD_THRESHOLD_MS"@) == other_conf.get("MICRO_HOLD_THRESHOLD_MS"@) ==> c.debounce.micro_hold_threshold_ms
            == other.debounce.micro_hold_threshold_ms,
        conf.get("MICRO_EXTENDED_THRESHOLD_MS"@) == other_conf.get("MICRO_EXTENDED_THRESHOLD_MS"@) ==> c.debounce.micro_extended_threshold_ms
            == other.debounce.micro_extended_threshold_ms,
        conf.get("DEVICE_PATH"@) == other_conf.get("DEVICE_PATH"@) ==> c.device_path@
            == other.device_path@,
        conf.get("KEYBOARD_NAME"@) == other_conf.get("KEYBOARD_NAME"@) ==> text_of(c.keyboard_name)
            == text_of(other.keyboard_name),
        conf.get("TRACK_DB"@) == other_conf.get("TRACK_DB"@) ==> text_of(c.track_db) == text_of(
            other.track_db,
        ),
{
}

/// What the last line that sets a name says is what counts: a switch is on if
/// that line sets it to `true`, a threshold is the number on that line.
pub proof fn law_last_line_decides(
    c: Config,
    front: Seq<Seq<char>>,
    line: Seq<char>,
    back: Seq<Seq<char>>,
    keys: Seq<u16>,
)
    requires
        is_config(c, settings(front.push(line) + back), keys),
        is_setting(line),
        forall|i: int|
            #![trigger back[i]]
            0 <= i < back.len() && is_setting(back[i]) ==> setting_name(back[i])
                != setting_name(line),
    ensures
        setting_name(line) == "DEBOUNCE_ALL_KEYS"@ ==> (c.debounce.debounce_all <==> setting_value(line)
            == "true"@),
        setting_name(line) == "LOG_FORWARD"@ ==> (c.debounce.log_forward <==> setting_value(line)
            == "true"@),
        setting_name(line) == "THRESHOLD_MS"@ ==> c.debounce.threshold_ms
            == match number_in(setting_value(line)) {
            Some(n) => n,
            None => 30u64,
        },
        setting_name(line) == "EXTENDED_THRESHOLD_MS"@ ==> c.debounce.extended_threshold_ms
            == match number_in(setting_value(line)) {
            Some(n) => n,
            None => 100u64,
        },
        setting_name(line) == "SHORT_HOLD_THRESHOLD_MS"@ ==> c.debounce.short_hold_threshold_ms
            == match number_in(setting_value(line)) {
            Some(n) => n,
            None => 70u64,
        },
        setting_name(line) == "MICRO_HOLD_THRESHOLD_MS"@ ==> c.debounce.micro_hold_threshold_ms
            == match number_in(setting_value(line)) {
            Some(n) => n,
            None => 20u64,
        },
        setting_name(line) == "MICRO_EXTENDED_THRESHOLD_MS"@ ==> c.debounce.micro_extended_threshold_ms
            == match number_in(setting_value(line)) {
            Some(n) => n,
            None => 150u64,
        },
        setting_name(line) == "DEVICE_PATH"@ ==> c.device_path@ == setting_value(line),
        setting_name(line) == "KEYBOARD_NAME"@ ==> text_of(c.keyboard_name) == Some(
            setting_value(line),
        ),
        setting_name(line) == "TRACK_DB"@ ==> text_of(c.track_db) == Some(setting_value(line)),
{
    law_last_setting_wins(front, line, back);
}

/// What no line sets has its default: switches are off, and there is no
/// database, device or name.
pub proof fn law_unset_means_default(
    c: Config,
    lines: Seq<Seq<char>>,
    keys: Seq<u16>,
    name: Seq<char>,
)
    requires
        is_config(c, settings(lines), keys),
        forall|i: int|
            #![trigger lines[i]]
            0 <= i < lines.len() && is_setting(lines[i]) ==> setting_name(lines[i]) != name,
    ensures
        name == "DEBOUNCE_ALL_KEYS"@ ==> !c.debounce.debounce_all,
        name == "LOG_FORWARD"@ ==> !c.debounce.log_forward,
        name == "THRESHOLD_MS"@ ==> c.debounce.threshold_ms == 30,
        name == "EXTENDED_THRESHOLD_MS"@ ==> c.debounce.extended_threshold_ms == 100,
        name == "SHORT_HOLD_THRESHOLD_MS"@ ==> c.debounce.short_hold_threshold_ms == 70,
        name == "MICRO_HOLD_THRESHOLD_MS"@ ==> c.debounce.micro_hold_threshold_ms == 20,
        name == "MICRO_EXTENDED_THRESHOLD_MS"@ ==> c.debounce.micro_extended_threshold_ms == 150,
        name == "DEVICE_PATH"@ ==> c.device_path@.len() == 0,
        name == "KEYBOARD_NAME"@ ==> c.keyboard_name is None,
        name == "TRACK_DB"@ ==> c.track_db is None,
{
    law_unnamed_is_unset(lines, name);
}

proof fn lemma_unknown_is_found(found: Seq<(Seq<char>, Option<u16>)>, at: int)
    requires
        0 <= at <= found.len(),
        forall|i: int| 0 <= i < at ==> (#[trigger] found[i]).1 is Some,
        at < found.len() ==> found[at].1 is None,
    ensures
        first_unknown(found) == if at < found.len() {
            Some(found[at].0)
        } else {
            None
        },
    decreases found.len(),
{
    if at > 0 {
        let rest = found.drop_first();
        assert(found[0].1 is Some);
        assert forall|i: int| 0 <= i < at - 1 implies (#[trigger] rest[i]).1 is Some by {
            assert(rest[i] == found[i + 1]);
        }
        if at < found.len() {
            assert(rest[at - 1] == found[at]);
        }
        lemma_unknown_is_found(rest, at - 1);
    }
}

/// A list of keys is read name by name, in order, without the white space
/// around each name. It is good if every name is one of a key, and then gives
/// the code of each; else the first name that is none is the one to complain
/// of.
pub proof fn law_list_is_read_name_by_name(names: Seq<Seq<char>>, at: int)
    requires
        names.len() > 0,
        forall|i: int| 0 <= i < names.len() ==> !(#[trigger] names[i]).contains(','),
        0 <= at <= names.len(),
        forall|i: int| 0 <= i < at ==> evdev_key_code(trimmed(#[trigger] names[i])) is Some,
        at < names.len() ==> evdev_key_code(trimmed(names[at])) is None,
    ensures
        ({
            let found = listed_keys(joined(names, ','));
            &&& at == names.len() ==> first_unknown(found) is None
            &&& at < names.len() ==> first_unknown(found) == Some(trimmed(names[at]))
            &&& codes_of(found).len() == names.len()
            &&& forall|i: int|
                0 <= i < at ==> evdev_key_code(trimmed(names[i])) == Some(
                    #[trigger] codes_of(found)[i],
                )
        }),
{
    law_splitting_undoes_joining(names, ',');
    let found = listed_keys(joined(names, ','));
    assert(found.len() == names.len());
    assert forall|i: int| 0 <= i < at implies (#[trigger] found[i]).1 is Some by {
        assert(evdev_key_code(trimmed(names[i])) is Some);
    }
    lemma_unknown_is_found(found, at);
    assert forall|i: int| 0 <= i < at implies evdev_key_code(trimmed(names[i])) == Some(
        #[trigger] codes_of(found)[i],
    ) by {
        assert(found[i].1 is Some);
        assert(evdev_key_code(trimmed(names[i])) is Some);
    }
}

/// A file is refused for the first of these reasons that holds: it sets no
/// `KEYS`; it lists a name that is no key; it gives the path of a device that
/// is not there; it gives neither a path nor a name. Else it is accepted.
pub proof fn law_file_is_accepted_or_says_why(
    conf: Map<Seq<char>, Seq<char>>,
    conf_path: Seq<char>,
    device_exists: bool,
    names: Seq<Seq<char>>,
    at: int,
)
    requires
        conf.contains_key("KEYS"@) ==> {
            &&& conf["KEYS"@] == joined(names, ',')
            &&& names.len() > 0
            &&& forall|i: int| 0 <= i < names.len() ==> !(#[trigger] names[i]).contains(',')
            &&& 0 <= at <= names.len()
            &&& forall|i: int| 0 <= i < at ==> evdev_key_code(trimmed(#[trigger] names[i])) is Some
            &&& at < names.len() ==> evdev_key_code(trimmed(names[at])) is None
        },
    ensures
        config_fault(conf, conf_path, device_exists) == if !conf.contains_key("KEYS"@) {
            Some(ConfigFault::KeysMissing(conf_path))
        } else if at < names.len() {
            Some(ConfigFault::UnknownKey(trimmed(names[at])))
        } else if conf.contains_key("DEVICE_PATH"@) && !device_exists {
            Some(ConfigFault::NoSuchDevice(conf["DEVICE_PATH"@]))
        } else if !conf.contains_key("DEVICE_PATH"@) && !conf.contains_key("KEYBOARD_NAME"@) {
            Some(ConfigFault::NoDevice)
        } else {
            None
        },
{
    if conf.contains_key("KEYS"@) {
        law_list_is_read_name_by_name(names, at);
    }
}

/// A file that was named is read, whatever there is elsewhere. Else the one in
/// the current directory is, whether or not there is one in `/etc`. None is
/// read only if there is none.
pub proof fn law_nearest_file_is_read(path: Seq<char>, local_exists: bool, etc_exists: bool)
    ensures
        conf_path_for(Some(path), local_exists, etc_exists) == Some(path),
        conf_path_for(None, true, etc_exists) == Some("debouncer.conf"@),
        conf_path_for(None, false, true) == Some("/etc/debouncer.conf"@),
        conf_path_for(None, local_exists, etc_exists) is None <==> !local_exists && !etc_exists,
{
}

proof fn lemma_option_names()
    ensures
        "-h"@ != "-c"@,
        "-h"@ != "--config"@,
        "--help"@ != "-c"@,
        "--help"@ != "--config"@,
        "-h"@.len() > 0 && "-h"@[0] == '-',
        "--help"@.len() > 0 && "--help"@[0] == '-',
        "-c"@.len() > 0 && "-c"@[0] == '-',
        "--config"@.len() > 0 && "--config"@[0] == '-',
        forall|s: Seq<char>| #[trigger] begins_with(s, "-"@) <==> s.len() > 0 && s[0] == '-',
{
    reveal_strlit("-");
    reveal_strlit("-h");
    reveal_strlit("--help");
    reveal_strlit("-c");
    reveal_strlit("--config");
    assert("-h"@[1] != "-c"@[1]);
    assert("--help"@.len() != "--config"@.len());
    assert forall|s: Seq<char>| #[trigger] begins_with(s, "-"@) <==> s.len() > 0 && s[0]
        == '-' by {
        if s.len() > 0 && s[0] == '-' {
            assert(s.take(1) =~= "-"@);
        }
        if begins_with(s, "-"@) {
            assert(s.take(1)[0] == '-');
        }
    }
}

/// The daemon runs on exactly four kinds of command line: an empty one, one
/// path that does not begin with a hyphen, and any path behind `-c` or
/// `--config`.
pub proof fn law_command_lines_that_run(args: Seq<Seq<char>>, path: Option<Seq<char>>)
    ensures
        cli_meaning(args, None) == CliMeaning::Run(path) <==> match path {
            None => args.len() == 0,
            Some(p) => {
                ||| args == seq![p] && !(p.len() > 0 && p[0] == '-')
                ||| args == seq!["-c"@, p]
                ||| args == seq!["--config"@, p]
            },
        },
{
    lemma_option_names();
    reveal_with_fuel(cli_meaning, 3);
    if args.len() == 1 {
        assert(args == seq![args[0]]);
        assert(args.skip(1) == Seq::<Seq<char>>::empty());
    } else if args.len() == 2 {
        assert(args == seq![args[0], args[1]]);
        assert(args.skip(2) == Seq::<Seq<char>>::empty());
        assert(args.skip(1) == seq![args[1]]);
    } else if args.len() > 2 {
        assert(args.skip(1).len() > 0);
        assert(args.skip(2).len() > 0);
    }
    if path is Some {
        let p = path->0;
        assert(seq![p].len() == 1 && seq![p][0] == p);
        assert(seq!["-c"@, p].len() == 2 && seq!["-c"@, p][0] == "-c"@ && seq!["-c"@, p][1] == p);
        assert(seq!["--config"@, p][0] == "--config"@ && seq!["--config"@, p][1] == p);
    }
}

/// An argument that asks for the usage gets it, at the front or behind the
/// name of a file, whatever comes behind it.
pub proof fn law_usage_is_given(
    option: Seq<char>,
    path: Seq<char>,
    back: Seq<Seq<char>>,
    given: Option<Seq<char>>,
)
    requires
        option == "-h"@ || option == "--help"@,
    ensures
        cli_meaning(seq![option] + back, given) is Help,
        cli_meaning(seq!["-c"@, path, option] + back, None) is Help,
        cli_meaning(seq!["--config"@, path, option] + back, None) is Help,
        !(path.len() > 0 && path[0] == '-') ==> cli_meaning(seq![path, option] + back, None)
            is Help,
{
    lemma_option_names();
    reveal_with_fuel(cli_meaning, 2);
    assert((seq!["-c"@, path, option] + back).skip(2) == seq![option] + back);
    assert((seq!["--config"@, path, option] + back).skip(2) == seq![option] + back);
    assert((seq![path, option] + back).skip(1) == seq![option] + back);
}

/// Any other argument that begins with a hyphen is refused by its name, at the
/// front or behind the name of a file.
pub proof fn law_unknown_option_is_named(
    option: Seq<char>,
    path: Seq<char>,
    back: Seq<Seq<char>>,
    given: Option<Seq<char>>,
)
    requires
        option.len() > 0,
        option[0] == '-',
        option != "-h"@,
        option != "--help"@,
        option != "-c"@,
        option != "--config"@,
    ensures
        cli_meaning(seq![option] + back, given) == CliMeaning::UnknownOption(option),
        cli_meaning(seq!["-c"@, path, option] + back, None) == CliMeaning::UnknownOption(option),
        cli_meaning(seq!["--config"@, path, option] + back, None) == CliMeaning::UnknownOption(
            option,
        ),
        !(path.len() > 0 && path[0] == '-') ==> cli_meaning(seq![path, option] + back, None)
            == CliMeaning::UnknownOption(option),
{
    lemma_option_names();
    reveal_with_fuel(cli_meaning, 2);
    assert((seq!["-c"@, path, option] + back).skip(2) == seq![option] + back);
    assert((seq!["--config"@, path, option] + back).skip(2) == seq![option] + back);
    assert((seq![path, option] + back).skip(1) == seq![option] + back);
}

/// An option for a file that stands last lacks its path, whether or not a file
/// was named before.
pub proof fn law_last_option_lacks_its_path(option: Seq<char>, given: Option<Seq<char>>)
    requires
        option == "-c"@ || option == "--config"@,
    ensures
        cli_meaning(seq![option], given) == CliMeaning::MissingValue(option),
{
    lemma_option_names();
}

/// The messages on a command line quote the option that they are about.
pub proof fn law_command_line_messages(option: String)
    ensures
        CliError::MissingValue(option).text() == "Option '"@ + option@
            + "' requires a path argument"@,
        CliError::UnknownOption(option).text() == "Unknown option: '"@ + option@
            + "'. Use --help for usage."@,
        CliError::MultiplePaths.text() == "Multiple configuration files specified"@,
{
}

/// The messages on a configuration quote the path or the name that they are
/// about.
pub proof fn law_configuration_messages(what: String)
    ensures
        ConfigError::KeysMissing(what).text() == "KEYS is required in "@ + what@,
        ConfigError::UnknownKey(what).text() == "Unknown key name: '"@ + what@
            + "'. Use evtest format, e.g. KEY_K, KEY_ENTER"@,
        ConfigError::NoSuchDevice(what).text() == "Device path "@ + what@ + " does not exist"@,
        ConfigError::KeysMissing(what)@ == ConfigFault::KeysMissing(what@),
        ConfigError::UnknownKey(what)@ == ConfigFault::UnknownKey(what@),
        ConfigError::NoSuchDevice(what)@ == ConfigFault::NoSuchDevice(what@),
{
}

} // verus!
