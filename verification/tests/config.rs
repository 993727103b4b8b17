use scan_pipeline::config::{
    names_contain, Config, FingerprintingConfig, RescanConfig, ScannerConfig, SnipeConfig,
    SourcePort, TargetConfig, TcpFingerprintConfig, DEFAULT_PING_TIMEOUT_SECS,
    DEFAULT_SCAN_DURATION_SECS, DEFAULT_SLEEP_SECS,
};
use scan_pipeline::text::{find_first, parse_port, str_equal};

fn config() -> Config {
    Config {
        mongodb_uri: String::from("mongodb://localhost"),
        rate: 1000,
        sleep_secs: None,
        exit_on_done: false,
        source_port: SourcePort::default(),
        scan_duration_secs: None,
        ping_timeout_secs: None,
        target: TargetConfig { addr: String::from("10.0.0.0"), port: 25565, protocol_version: 47 },
        scanner: ScannerConfig { enabled: true, modes: None },
        rescan: RescanConfig::default(),
        rescan2: RescanConfig::default(),
        rescan3: RescanConfig::default(),
        rescan4: RescanConfig::default(),
        rescan5: RescanConfig::default(),
        snipe: SnipeConfig::default(),
        fingerprinting: FingerprintingConfig::default(),
        tcp_fingerprint: TcpFingerprintConfig::default(),
    }
}

#[test]
fn defaults_switch_everything_off() {
    let snipe = SnipeConfig::default();
    assert!(!snipe.enabled);
    assert_eq!(snipe.webhook_url, "");
    assert!(snipe.usernames.is_empty());
    assert!(!FingerprintingConfig::default().enabled);
}

#[test]
fn default_source_port_is_one_port() {
    assert_eq!(SourcePort::default(), SourcePort::Number(61000));
}

#[test]
fn default_fingerprint_profile() {
    assert_eq!(TcpFingerprintConfig::default(), TcpFingerprintConfig::Nintendo3DS);
}

#[test]
fn durations_fall_back_to_their_defaults() {
    let mut config = config();
    assert_eq!(config.sleep_secs_or_default(), 10);
    assert_eq!(config.scan_duration_secs_or_default(), 300);
    assert_eq!(config.ping_timeout_secs_or_default(), 60);
    assert_eq!(DEFAULT_SLEEP_SECS, 10);
    assert_eq!(DEFAULT_SCAN_DURATION_SECS, 300);
    assert_eq!(DEFAULT_PING_TIMEOUT_SECS, 60);
    config.sleep_secs = Some(0);
    config.scan_duration_secs = Some(30);
    config.ping_timeout_secs = Some(5);
    assert_eq!(config.sleep_secs_or_default(), 0);
    assert_eq!(config.scan_duration_secs_or_default(), 30);
    assert_eq!(config.ping_timeout_secs_or_default(), 5);
}

#[test]
fn source_port_as_a_number() {
    assert_eq!(SourcePort::parse("61000"), Some(SourcePort::Number(61000)));
    assert_eq!(SourcePort::parse("0"), Some(SourcePort::Number(0)));
    assert_eq!(SourcePort::parse("65535"), Some(SourcePort::Number(65535)));
    assert_eq!(SourcePort::parse("00080"), Some(SourcePort::Number(80)));
    assert_eq!(SourcePort::parse("000000000000000000000065535"), Some(SourcePort::Number(65535)));
}

#[test]
fn source_port_as_a_range() {
    assert_eq!(
        SourcePort::parse("61000-65535"),
        Some(SourcePort::Range { min: 61000, max: 65535 })
    );
    assert_eq!(SourcePort::parse("5-5"), Some(SourcePort::Range { min: 5, max: 5 }));
    assert_eq!(SourcePort::parse("0-65535"), Some(SourcePort::Range { min: 0, max: 65535 }));
}

#[test]
fn source_port_rejects_what_is_no_port() {
    assert_eq!(SourcePort::parse(""), None);
    assert_eq!(SourcePort::parse("65536"), None);
    assert_eq!(SourcePort::parse("99999999999999999999999"), None);
    assert_eq!(SourcePort::parse("-"), None);
    assert_eq!(SourcePort::parse("1-"), None);
    assert_eq!(SourcePort::parse("-1"), None);
    assert_eq!(SourcePort::parse("5-4"), None);
    assert_eq!(SourcePort::parse("1-2-3"), None);
    assert_eq!(SourcePort::parse("61000 "), None);
    assert_eq!(SourcePort::parse(" 61000"), None);
    assert_eq!(SourcePort::parse("+1"), None);
    assert_eq!(SourcePort::parse("61000-65536"), None);
    assert_eq!(SourcePort::parse("6100a"), None);
    assert_eq!(SourcePort::parse("61000\u{2013}65535"), None);
}

#[test]
fn parse_port_reads_a_part_of_the_text() {
    let text = "ab123-45".as_bytes();
    assert_eq!(parse_port(text, 2, 5), Some(123));
    assert_eq!(parse_port(text, 6, 8), Some(45));
    assert_eq!(parse_port(text, 2, 6), None);
    assert_eq!(parse_port(text, 0, 5), None);
    assert_eq!(parse_port(text, 3, 3), None);
    assert_eq!(parse_port(text, 4, 5), Some(3));
}

#[test]
fn find_first_finds_the_first_or_the_end() {
    assert_eq!(find_first("a-b-c".as_bytes(), 45), 1);
    assert_eq!(find_first("-".as_bytes(), 45), 0);
    assert_eq!(find_first("abc".as_bytes(), 45), 3);
    assert_eq!(find_first("".as_bytes(), 45), 0);
}

#[test]
fn str_equal_compares_text() {
    assert!(str_equal("", ""));
    assert!(str_equal("Android", "Android"));
    assert!(!str_equal("Android", "android"));
    assert!(!str_equal("Android", "Androids"));
    assert!(!str_equal("Androids", "Android"));
    assert!(!str_equal("Solaris 8", "Solaris 9"));
    assert!(str_equal("caf\u{e9}", "caf\u{e9}"));
    assert!(!str_equal("caf\u{e9}", "cafe"));
}

#[test]
fn every_profile_is_found_by_its_name() {
    let named = [
        (TcpFingerprintConfig::Nintendo3DS, "Nintendo 3DS"),
        (TcpFingerprintConfig::WindowsXP, "Windows XP"),
        (TcpFingerprintConfig::Windows7or8, "Windows 7 or 8"),
        (TcpFingerprintConfig::Linux311AndNewer, "Linux 3.11 and newer"),
        (TcpFingerprintConfig::Solaris8, "Solaris 8"),
        (TcpFingerprintConfig::Android, "Android"),
    ];
    for (profile, name) in named {
        assert_eq!(profile.name(), name);
        assert_eq!(TcpFingerprintConfig::from_name(name), Some(profile));
    }
}

#[test]
fn an_unknown_profile_name_is_refused() {
    assert_eq!(TcpFingerprintConfig::from_name(""), None);
    assert_eq!(TcpFingerprintConfig::from_name("android"), None);
    assert_eq!(TcpFingerprintConfig::from_name("Nintendo3DS"), None);
    assert_eq!(TcpFingerprintConfig::from_name("Windows 7"), None);
    assert_eq!(TcpFingerprintConfig::from_name("Windows 7 or 8 "), None);
    assert_eq!(TcpFingerprintConfig::from_name("FreeBSD"), None);
}

#[test]
fn all_modes_are_enabled_where_none_is_listed() {
    let all = ScannerConfig { enabled: true, modes: None };
    assert!(all.mode_enabled("slash0"));
    assert!(all.mode_enabled(""));
    let some = ScannerConfig {
        enabled: true,
        modes: Some(vec![String::from("slash0"), String::from("rescan")]),
    };
    assert!(some.mode_enabled("slash0"));
    assert!(some.mode_enabled("rescan"));
    assert!(!some.mode_enabled("slash24"));
    assert!(!some.mode_enabled("Rescan"));
    let none = ScannerConfig { enabled: true, modes: Some(Vec::new()) };
    assert!(!none.mode_enabled("slash0"));
}

#[test]
fn watched_names_count_only_while_sniping_is_on() {
    let mut snipe = SnipeConfig {
        enabled: true,
        webhook_url: String::from("https://example.invalid/hook"),
        usernames: vec![String::from("alice"), String::from("bob")],
    };
    assert!(snipe.is_watched("alice"));
    assert!(snipe.is_watched("bob"));
    assert!(!snipe.is_watched("carol"));
    assert!(!snipe.is_watched("Alice"));
    snipe.enabled = false;
    assert!(!snipe.is_watched("alice"));
    assert!(!SnipeConfig::default().is_watched("alice"));
}

#[test]
fn names_contain_finds_a_name_anywhere() {
    let names = vec![String::from("a"), String::from("b"), String::from("c")];
    assert!(names_contain(&names, "a"));
    assert!(names_contain(&names, "c"));
    assert!(!names_contain(&names, "d"));
    assert!(!names_contain(&Vec::new(), "a"));
}

fn names(list: &[&str]) -> Vec<String> {
    list.iter().map(|name| String::from(*name)).collect()
}

#[test]
fn joined_tells_of_watched_players_who_were_not_online() {
    let snipe = SnipeConfig {
        enabled: true,
        webhook_url: String::new(),
        usernames: names(&["alice", "bob", "dave"]),
    };
    let before = names(&["bob", "carol"]);
    let online = names(&["dave", "carol", "bob", "erin", "alice"]);
    assert_eq!(snipe.joined(&before, &online), names(&["dave", "alice"]));
    assert_eq!(snipe.joined(&Vec::new(), &online), names(&["dave", "bob", "alice"]));
    assert_eq!(snipe.joined(&online, &online), names(&[]));
    assert_eq!(snipe.joined(&before, &Vec::new()), names(&[]));
}

#[test]
fn joined_tells_of_nobody_while_sniping_is_off() {
    let snipe = SnipeConfig {
        enabled: false,
        webhook_url: String::new(),
        usernames: names(&["alice"]),
    };
    assert_eq!(snipe.joined(&Vec::new(), &names(&["alice"])), names(&[]));
    assert_eq!(SnipeConfig::default().joined(&Vec::new(), &names(&["alice"])), names(&[]));
}
