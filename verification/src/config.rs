//! The scanner's configuration.

use vstd::prelude::*;
use crate::fingerprint::{descriptor_of, TcpFingerprint};
use crate::rescan::Sort;
use crate::text::{find_first, first_of, lemma_first_of, parse_port, port_of, str_equal};
use vstd::string::StringSliceAdditionalSpecFns;

verus! {

/// The key/value map of `toml`, of which `toml::Table` is an instance.
#[verifier::external_type_specification]
#[verifier::external_body]
#[verifier::reject_recursive_types(K)]
#[verifier::reject_recursive_types(V)]
pub struct ExTomlMap<K, V>(toml::map::Map<K, V>);

/// A value of a TOML document, carried through without being read.
#[verifier::external_type_specification]
#[verifier::external_body]
pub struct ExTomlValue(toml::Value);

/// The keys that a table holds.
pub uninterp spec fn table_keys(table: toml::Table) -> Set<Seq<char>>;

/// Calls `toml::map::Map::new`. Taken on trust: the table that it makes
/// holds no key.
#[verifier::external_body]
fn empty_table() -> (table: toml::Table)
    ensures
        table_keys(table) == Set::<Seq<char>>::empty(),
{
    toml::Table::new()
}

/// The port that probes are sent from: one port, or any port of a range
/// with both ends included.
#[derive(Clone, Copy, Debug, PartialEq, Eq, Structural)]
pub enum SourcePort {
    Number(u16),
    Range { min: u16, max: u16 },
}

/// The source port that a piece of text stands for: a port, or two ports
/// with a hyphen between them, the first no greater than the second.
pub open spec fn source_port_of(text: Seq<u8>) -> Option<SourcePort> {
    let hyphen = first_of(text, 45);
    if hyphen == text.len() {
        match port_of(text) {
            Some(port) => Some(SourcePort::Number(port)),
            None => None,
        }
    } else {
        match (port_of(text.take(hyphen)), port_of(text.skip(hyphen + 1))) {
            (Some(min), Some(max)) => if min <= max {
                Some(SourcePort::Range { min, max })
            } else {
                None
            },
            _ => None,
        }
    }
}

impl SourcePort {
    /// Reads a source port as a configuration writes it: a number such as
    /// `61000`, or a range such as `61000-65535`.
    pub fn parse(text: &str) -> (port: Option<SourcePort>)
        ensures
            port == source_port_of(text.spec_bytes()),
    {
        let bytes = text.as_bytes();
        let hyphen = find_first(bytes, 45);
        proof {
            lemma_first_of(bytes@, 45);
        }
        if hyphen == bytes.len() {
            assert(bytes@.subrange(0, bytes@.len() as int) =~= bytes@);
            match parse_port(bytes, 0, bytes.len()) {
                Some(port) => Some(SourcePort::Number(port)),
                None => None,
            }
        } else {
            assert(bytes@.subrange(0, hyphen as int) =~= bytes@.take(hyphen as int));
            assert(bytes@.subrange(hyphen as int + 1, bytes@.len() as int) =~= bytes@.skip(
                hyphen as int + 1,
            ));
            let min = parse_port(bytes, 0, hyphen);
            let max = parse_port(bytes, hyphen + 1, bytes.len());
            match (min, max) {
                (Some(min), Some(max)) => {
                    if min <= max {
                        Some(SourcePort::Range { min, max })
                    } else {
                        None
                    }
                },
                _ => None,
            }
        }
    }
}

impl Default for SourcePort {
    fn default() -> (port: SourcePort)
        ensures
            port == SourcePort::Number(61000),
    {
        SourcePort::Number(61000)
    }
}

/// Everything that an operator sets for a scan run.
pub struct Config {
    pub mongodb_uri: String,
    pub rate: u64,
    /// The number of seconds to sleep after each scan.
    pub sleep_secs: Option<u64>,
    /// If true, the program exits after the first scan.
    pub exit_on_done: bool,
    /// The port that packets are sent from.
    pub source_port: SourcePort,
    /// The maximum amount of time each scan takes.
    pub scan_duration_secs: Option<u64>,
    /// The maximum amount of time to wait for a ping response.
    pub ping_timeout_secs: Option<u64>,
    pub target: TargetConfig,
    pub scanner: ScannerConfig,
    pub rescan: RescanConfig,
    pub rescan2: RescanConfig,
    pub rescan3: RescanConfig,
    pub rescan4: RescanConfig,
    pub rescan5: RescanConfig,
    /// Who to look out for, and where to tell of them.
    pub snipe: SnipeConfig,
    pub fingerprinting: FingerprintingConfig,
    pub tcp_fingerprint: TcpFingerprintConfig,
}

/// How long to sleep after each scan where the configuration does not
/// say, in seconds.
pub const DEFAULT_SLEEP_SECS: u64 = 10;

/// How long a scan may take where the configuration does not say, in
/// seconds.
pub const DEFAULT_SCAN_DURATION_SECS: u64 = 300;

/// How long to wait for a ping response where the configuration does not
/// say, in seconds.
pub const DEFAULT_PING_TIMEOUT_SECS: u64 = 60;

impl Config {
    /// The number of seconds to sleep after each scan.
    pub fn sleep_secs_or_default(&self) -> (secs: u64)
        ensures
            secs == match self.sleep_secs {
                Some(configured) => configured,
                None => DEFAULT_SLEEP_SECS,
            },
    {
        match self.sleep_secs {
            Some(configured) => configured,
            None => DEFAULT_SLEEP_SECS,
        }
    }

    /// The maximum number of seconds that each scan takes.
    pub fn scan_duration_secs_or_default(&self) -> (secs: u64)
        ensures
            secs == match self.scan_duration_secs {
                Some(configured) => configured,
                None => DEFAULT_SCAN_DURATION_SECS,
            },
    {
        match self.scan_duration_secs {
            Some(configured) => configured,
            None => DEFAULT_SCAN_DURATION_SECS,
        }
    }

    /// The maximum number of seconds to wait for a ping response.
    pub fn ping_timeout_secs_or_default(&self) -> (secs: u64)
        ensures
            secs == match self.ping_timeout_secs {
                Some(configured) => configured,
                None => DEFAULT_PING_TIMEOUT_SECS,
            },
    {
        match self.ping_timeout_secs {
            Some(configured) => configured,
            None => DEFAULT_PING_TIMEOUT_SECS,
        }
    }
}

/// Whether one of the names is `name`.
pub open spec fn names_hold(names: Seq<String>, name: Seq<char>) -> bool {
    exists|i: int| 0 <= i < names.len() && (#[trigger] names[i])@ == name
}

/// Whether one of the names is `name`.
pub fn names_contain(names: &Vec<String>, name: &str) -> (found: bool)
    ensures
        found == names_hold(names@, name@),
{
    let mut i: usize = 0;
    while i < names.len()
        invariant
            i <= names@.len(),
            forall|k: int| 0 <= k < i ==> (#[trigger] names@[k])@ != name@,
        decreases names@.len() - i,
    {
        if str_equal(names[i].as_str(), name) {
            return true;
        }
        i = i + 1;
    }
    false
}

/// The address space to scan and the protocol to speak to it.
#[derive(Clone, Debug)]
pub struct TargetConfig {
    pub addr: String,
    pub port: u16,
    pub protocol_version: i32,
}

/// Whether to scan, and with which modes.
#[derive(Clone, Debug)]
pub struct ScannerConfig {
    pub enabled: bool,
    /// The modes to scan with; all of them where this is `None`.
    pub modes: Option<Vec<String>>,
}

impl ScannerConfig {
    /// Whether a mode is among those to scan with: every mode is where the
    /// configuration lists none.
    pub fn mode_enabled(&self, mode: &str) -> (enabled: bool)
        ensures
            enabled == match self.modes {
                Some(modes) => names_hold(modes@, mode@),
                None => true,
            },
    {
        match &self.modes {
            Some(modes) => names_contain(modes, mode),
            None => true,
        }
    }
}

/// One rescan profile: when to probe known servers again, and which.
pub struct RescanConfig {
    pub enabled: bool,
    pub rescan_every_secs: u64,
    /// The maximum number of seconds since players were last seen on a
    /// server for it to be rescanned.
    pub players_online_ago_max_secs: Option<u64>,
    /// The maximum number of seconds since the last ping of a server for
    /// it to be rescanned.
    pub last_ping_ago_max_secs: Option<u64>,
    pub limit: Option<usize>,
    pub filter: toml::Table,
    pub sort: Option<Sort>,
}

impl Default for RescanConfig {
    /// A profile that is switched off and selects without bounds.
    fn default() -> (profile: RescanConfig)
        ensures
            !profile.enabled,
            profile.rescan_every_secs == 0,
            profile.players_online_ago_max_secs.is_none(),
            profile.last_ping_ago_max_secs.is_none(),
            profile.limit.is_none(),
            table_keys(profile.filter) == Set::<Seq<char>>::empty(),
            profile.sort.is_none(),
    {
        RescanConfig {
            enabled: false,
            rescan_every_secs: 0,
            players_online_ago_max_secs: None,
            last_ping_ago_max_secs: None,
            limit: None,
            filter: empty_table(),
            sort: None,
        }
    }
}

/// The players to look out for, and the webhook to tell of them.
#[derive(Clone, Debug)]
pub struct SnipeConfig {
    pub enabled: bool,
    pub webhook_url: String,
    pub usernames: Vec<String>,
}

impl Default for SnipeConfig {
    fn default() -> (snipe: SnipeConfig)
        ensures
            !snipe.enabled,
            snipe.webhook_url@ == Seq::<char>::empty(),
            snipe.usernames@ == Seq::<String>::empty(),
    {
        SnipeConfig { enabled: false, webhook_url: String::new(), usernames: Vec::new() }
    }
}

impl SnipeConfig {
    /// Whether a player of that name is looked out for.
    pub open spec fn watches(self, username: Seq<char>) -> bool {
        self.enabled && names_hold(self.usernames@, username)
    }

    /// The players to tell of: those of the players now online who are
    /// looked out for and were not online before, in the order in which
    /// the server lists them.
    pub open spec fn spec_joined(self, before: Seq<String>, online: Seq<String>) -> Seq<String>
        decreases online.len(),
    {
        if online.len() == 0 {
            Seq::empty()
        } else {
            let earlier = self.spec_joined(before, online.drop_last());
            if self.watches(online.last()@) && !names_hold(before, online.last()@) {
                earlier.push(online.last())
            } else {
                earlier
            }
        }
    }

    /// The players to tell of, given who was online on a server before and
    /// who is now.
    pub fn joined(&self, before: &Vec<String>, online: &Vec<String>) -> (joined: Vec<String>)
        ensures
            joined@ == self.spec_joined(before@, online@),
    {
        let mut joined: Vec<String> = Vec::new();
        let mut i: usize = 0;
        assert(online@.take(0) =~= Seq::<String>::empty());
        while i < online.len()
            invariant
                i <= online@.len(),
                joined@ == self.spec_joined(before@, online@.take(i as int)),
            decreases online@.len() - i,
        {
            proof {
                let next = online@.take(i as int + 1);
                assert(next.drop_last() =~= online@.take(i as int));
                assert(next.last() == online@[i as int]);
            }
            let name = &online[i];
            if self.is_watched(name.as_str()) && !names_contain(before, name.as_str()) {
                joined.push(name.clone());
            }
            i = i + 1;
        }
        assert(online@.take(online@.len() as int) =~= online@);
        joined
    }

    /// Whether a player of that name is looked out for.
    pub fn is_watched(&self, username: &str) -> (watched: bool)
        ensures
            watched == self.watches(username@),
    {
        self.enabled && names_contain(&self.usernames, username)
    }
}

/// Whether servers are fingerprinted actively.
#[derive(Clone, Copy, Debug, PartialEq, Eq, Structural)]
pub struct FingerprintingConfig {
    /// Whether to test quirks of the server's protocol implementation.
    pub enabled: bool,
}

impl Default for FingerprintingConfig {
    fn default() -> (fingerprinting: FingerprintingConfig)
        ensures
            !fingerprinting.enabled,
    {
        FingerprintingConfig { enabled: false }
    }
}

/// The operating system whose TCP stack the probes imitate.
#[derive(Clone, Copy, Debug, PartialEq, Eq, Structural)]
pub enum TcpFingerprintConfig {
    Nintendo3DS,
    WindowsXP,
    Windows7or8,
    Linux311AndNewer,
    Solaris8,
    Android,
}

impl Default for TcpFingerprintConfig {
    fn default() -> (profile: TcpFingerprintConfig)
        ensures
            profile == TcpFingerprintConfig::Nintendo3DS,
    {
        TcpFingerprintConfig::Nintendo3DS
    }
}

impl TcpFingerprintConfig {
    /// The name under which a configuration selects the profile.
    pub open spec fn spec_name(self) -> Seq<char> {
        match self {
            Self::Nintendo3DS => "Nintendo 3DS"@,
            Self::WindowsXP => "Windows XP"@,
            Self::Windows7or8 => "Windows 7 or 8"@,
            Self::Linux311AndNewer => "Linux 3.11 and newer"@,
            Self::Solaris8 => "Solaris 8"@,
            Self::Android => "Android"@,
        }
    }

    /// The name under which a configuration selects the profile.
    pub fn name(&self) -> (name: &'static str)
        ensures
            name@ == self.spec_name(),
    {
        match self {
            Self::Nintendo3DS => "Nintendo 3DS",
            Self::WindowsXP => "Windows XP",
            Self::Windows7or8 => "Windows 7 or 8",
            Self::Linux311AndNewer => "Linux 3.11 and newer",
            Self::Solaris8 => "Solaris 8",
            Self::Android => "Android",
        }
    }

    /// The profile of a given name, or nothing where no profile has that
    /// name.
    pub fn from_name(name: &str) -> (profile: Option<TcpFingerprintConfig>)
        ensures
            forall|named: TcpFingerprintConfig|
                profile == Some(named) <==> name@ == #[trigger] named.spec_name(),
    {
        let profile = if str_equal(name, "Nintendo 3DS") {
            Some(Self::Nintendo3DS)
        } else if str_equal(name, "Windows XP") {
            Some(Self::WindowsXP)
        } else if str_equal(name, "Windows 7 or 8") {
            Some(Self::Windows7or8)
        } else if str_equal(name, "Linux 3.11 and newer") {
            Some(Self::Linux311AndNewer)
        } else if str_equal(name, "Solaris 8") {
            Some(Self::Solaris8)
        } else if str_equal(name, "Android") {
            Some(Self::Android)
        } else {
            None
        };
        proof {
            lemma_names_distinct();
            assert forall|named: TcpFingerprintConfig|
                profile == Some(named) <==> name@ == #[trigger] named.spec_name() by {
                match profile {
                    Some(found) => {
                        assert(name@ == found.spec_name());
                    },
                    None => {},
                }
            }
        }
        profile
    }

    /// Resolves the profile to the descriptor that the emitter consumes.
    pub fn to_fingerprint(&self) -> (fingerprint: TcpFingerprint)
        ensures
            fingerprint@ == descriptor_of(*self),
    {
        match self {
            Self::Nintendo3DS => TcpFingerprint::nintendo_3ds(),
            Self::WindowsXP => TcpFingerprint::windows_xp(),
            Self::Windows7or8 => TcpFingerprint::windows_7_or_8(),
            Self::Linux311AndNewer => TcpFingerprint::linux_3_11_and_newer(),
            Self::Solaris8 => TcpFingerprint::solaris_8(),
            Self::Android => TcpFingerprint::android(),
        }
    }
}

/// No two profiles share a name.
pub proof fn lemma_names_distinct()
    ensures
        forall|a: TcpFingerprintConfig, b: TcpFingerprintConfig|
            #[trigger] a.spec_name() == #[trigger] b.spec_name() <==> a == b,
{
    reveal_strlit("Nintendo 3DS");
    reveal_strlit("Windows XP");
    reveal_strlit("Windows 7 or 8");
    reveal_strlit("Linux 3.11 and newer");
    reveal_strlit("Solaris 8");
    reveal_strlit("Android");
    assert forall|a: TcpFingerprintConfig, b: TcpFingerprintConfig|
        #[trigger] a.spec_name() == #[trigger] b.spec_name() implies a == b by {
        assert(a.spec_name().len() == b.spec_name().len());
    }
}

} // verus!
