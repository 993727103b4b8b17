use scan_pipeline::config::TcpFingerprintConfig;
use scan_pipeline::fingerprint::{TcpFingerprint, TcpOption};

fn profiles() -> Vec<TcpFingerprintConfig> {
    vec![
        TcpFingerprintConfig::Nintendo3DS,
        TcpFingerprintConfig::WindowsXP,
        TcpFingerprintConfig::Windows7or8,
        TcpFingerprintConfig::Linux311AndNewer,
        TcpFingerprintConfig::Solaris8,
        TcpFingerprintConfig::Android,
    ]
}

#[test]
fn six_profiles_resolve_to_six_descriptors() {
    let all = profiles();
    for (i, a) in all.iter().enumerate() {
        for (j, b) in all.iter().enumerate() {
            if i == j {
                assert_eq!(a.to_fingerprint(), b.to_fingerprint());
            } else {
                assert_ne!(a.to_fingerprint(), b.to_fingerprint());
            }
        }
    }
}

#[test]
fn resolving_twice_gives_the_same_descriptor() {
    for profile in profiles() {
        assert_eq!(profile.to_fingerprint(), profile.to_fingerprint());
    }
}

#[test]
fn default_profile_is_nintendo_3ds() {
    assert_eq!(TcpFingerprintConfig::default(), TcpFingerprintConfig::Nintendo3DS);
    assert_eq!(TcpFingerprintConfig::default().to_fingerprint(), TcpFingerprint::nintendo_3ds());
}

#[test]
fn nintendo_3ds_descriptor_values() {
    let fingerprint = TcpFingerprintConfig::Nintendo3DS.to_fingerprint();
    assert_eq!(fingerprint.ittl, 64);
    assert_eq!(fingerprint.window, 32768);
    assert_eq!(fingerprint.window_scale, 0);
    assert_eq!(fingerprint.mss, 1360);
    assert_eq!(
        fingerprint.options,
        vec![TcpOption::MaxSegmentSize, TcpOption::Nop, TcpOption::Nop, TcpOption::SackPermitted]
    );
}

#[test]
fn linux_and_android_share_a_layout_but_not_a_window() {
    let linux = TcpFingerprintConfig::Linux311AndNewer.to_fingerprint();
    let android = TcpFingerprintConfig::Android.to_fingerprint();
    assert_eq!(linux.options, android.options);
    assert_eq!(linux.window, 29200);
    assert_eq!(android.window, 64240);
    assert_eq!(linux.window_scale, 7);
    assert_eq!(android.window_scale, 1);
}

#[test]
fn solaris_descriptor_values() {
    let fingerprint = TcpFingerprint::solaris_8();
    assert_eq!(fingerprint.ittl, 64);
    assert_eq!(fingerprint.window, 32850);
    assert_eq!(fingerprint.options.len(), 9);
    assert_eq!(fingerprint.options[8], TcpOption::MaxSegmentSize);
}

#[test]
fn windows_descriptors_differ_in_window_only() {
    let xp = TcpFingerprint::windows_xp();
    let seven = TcpFingerprint::windows_7_or_8();
    assert_eq!(xp.ittl, 128);
    assert_eq!(seven.ittl, 128);
    assert_eq!(xp.window, 65535);
    assert_eq!(seven.window, 8192);
    assert_eq!(xp.options, seven.options);
}
