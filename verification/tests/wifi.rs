use takeover::common::ErrorKind;
use takeover::migrator::common::mig_error::MigErrorKind;
use takeover::migrator::stage1::wifi_config::nwmgr_parser::{parse_nwmgr_config, replace_nwmgr_id};
use takeover::migrator::stage1::wifi_config::wpa_parser::WpaParser;
use takeover::migrator::stage1::wifi_config::{
    scan_source, WifiConfig, WifiSource, WifiSourceKind,
};

const WPA_CONF: &str = "ctrl_interface=DIR=/var/run/wpa_supplicant GROUP=netdev
# a comment
network={
    ssid=\"Home\"
    psk=\"secret\"
}

network={
    ssid=\"Home\"
    psk=\"other\"
}
network = {
    ssid=\"Work\"
    key_mgmt=NONE
}
";

fn ssids(v: &[WifiConfig]) -> Vec<String> {
    v.iter().map(|w| w.get_ssid().to_string()).collect()
}

#[test]
fn wifi_sources() {
    assert!(matches!(scan_source(true, true, true, true, true), WifiSourceKind::NetworkManager));
    assert!(matches!(scan_source(true, false, true, true, true), WifiSourceKind::WpaSupplicant));
    assert!(matches!(scan_source(false, false, true, false, true), WifiSourceKind::ConnMgr));
    assert!(matches!(scan_source(false, false, false, true, true), WifiSourceKind::Nothing));
}

#[test]
fn wpa_supplicant_networks() {
    let w = WpaParser::parse_config(&[], Some(WPA_CONF)).unwrap();
    assert_eq!(ssids(&w), vec!["Home", "Work"]);
    match &w[0] {
        WifiConfig::Params(p) => assert_eq!(p.psk.as_deref(), Some("secret")),
        other => panic!("unexpected {:?}", other),
    }
    match &w[1] {
        WifiConfig::Params(p) => assert_eq!(p.psk, None),
        other => panic!("unexpected {:?}", other),
    }
    let only_work = WpaParser::parse_config(&["Work".to_string()], Some(WPA_CONF)).unwrap();
    assert_eq!(ssids(&only_work), vec!["Work"]);
    assert_eq!(
        WpaParser::parse_config(&[], None).unwrap_err().inner.kind,
        MigErrorKind::Displayed
    );
}

#[test]
fn networkmanager_files() {
    let files = vec![
        (
            "/etc/NetworkManager/system-connections/home".to_string(),
            "[connection]\nid=home\ntype=wifi\n\n[wifi]\nssid=Home\n".to_string(),
        ),
        (
            "/etc/NetworkManager/system-connections/eth".to_string(),
            "[connection]\nid=eth\ntype=ethernet\n".to_string(),
        ),
    ];
    let w = parse_nwmgr_config(&[], &files);
    assert_eq!(ssids(&w), vec!["Home"]);
    match &w[0] {
        WifiConfig::NwMgrFile(f) => assert_eq!(f.file, "/etc/NetworkManager/system-connections/home"),
        other => panic!("unexpected {:?}", other),
    }
    assert!(parse_nwmgr_config(&["Other".to_string()], &files).is_empty());
    let scanned = WifiConfig::scan(&[], &WifiSource::NetworkManager(files)).unwrap();
    assert_eq!(ssids(&scanned), vec!["Home"]);
    assert_eq!(
        WifiConfig::scan(&[], &WifiSource::ConnMgr).unwrap_err().inner.kind,
        MigErrorKind::NotImpl
    );
    assert!(WifiConfig::scan(&[], &WifiSource::Nothing).unwrap().is_empty());
}

#[test]
fn connection_ids() {
    let text = "[connection]\nid=home\ntype=wifi\n[wifi]\nssid=Home\n";
    assert_eq!(
        replace_nwmgr_id(text, "resin-wifi-01").unwrap(),
        "[connection]\nid=resin-wifi-01\ntype=wifi\n[wifi]\nssid=Home\n"
    );
    assert_eq!(replace_nwmgr_id("[wifi]\nssid=x\n", "a").unwrap_err().kind, ErrorKind::InvState);
}

#[test]
fn connection_file_names() {
    assert_eq!(
        WifiConfig::nwmgr_file_path("/mnt/boot/system-connections", 3),
        "/mnt/boot/system-connections/resin-wifi-3"
    );
}

#[test]
fn wifi_file_names_are_distinct() {
    let a = WifiConfig::nwmgr_file_path("/b", 1);
    let b = WifiConfig::nwmgr_file_path("/b", 11);
    assert_ne!(a, b);
    assert_eq!(b, "/b/resin-wifi-11");
}
