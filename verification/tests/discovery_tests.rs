use jas::config::DiscoveryConfig;
use jas::discovery::{
    device_accepts, discovery_candidate, discovery_plan, find_matching_device, handles_event, key_accepts, match_update, pick_ip,
    IpAddress, ServiceEventKind, SERVICE_TYPE,
};

const ALT_IRK: [u8; 16] = [50, 10, 122, 100, 99, 243, 92, 205, 164, 187, 214, 235, 227, 171, 236, 139];
const IDENTIFIER: &str = "2BE6E510-0325-4365-923E-B14C6F57DB3A";
const AUTH_TAG: &str = "kXjlTr2l";

fn pairing_file(alt_irk: Option<Vec<u8>>) -> Vec<u8> {
    let mut file = idevice::remote_pairing::RpPairingFile::generate("jas-test");
    file.alt_irk = alt_irk;
    file.to_bytes()
}

fn v6(first: u16) -> IpAddress {
    IpAddress::V6([first, 0, 0, 0, 0, 0, 0, 1])
}

#[test]
fn service_type_is_remote_pairing() {
    assert_eq!(SERVICE_TYPE, "_remotepairing._tcp.local.");
}

#[test]
fn ipv4_is_preferred() {
    let addrs = vec![v6(0x2001), IpAddress::V4([10, 0, 0, 2]), IpAddress::V4([10, 0, 0, 3])];
    assert_eq!(pick_ip(&addrs), Some(IpAddress::V4([10, 0, 0, 2])));
}

#[test]
fn routable_ipv6_beats_link_local() {
    let addrs = vec![v6(0xfe80), v6(0xfebf), v6(0x2001)];
    assert_eq!(pick_ip(&addrs), Some(v6(0x2001)));
}

#[test]
fn link_local_is_last_resort() {
    let addrs = vec![v6(0xfe80), v6(0xfe81)];
    assert_eq!(pick_ip(&addrs), Some(v6(0xfe80)));
    assert_eq!(pick_ip(&vec![]), None);
    // fec0::/10 is not link-local
    assert_eq!(pick_ip(&vec![v6(0xfe80), v6(0xfec0)]), Some(v6(0xfec0)));
}

#[test]
fn candidate_needs_both_properties_and_an_address() {
    let addrs = vec![IpAddress::V4([192, 168, 1, 5])];
    let c = discovery_candidate(Some("id".into()), Some("tag".into()), &addrs).unwrap();
    assert_eq!(c.identifier, "id");
    assert_eq!(c.auth_tag, "tag");
    assert_eq!(c.ip, IpAddress::V4([192, 168, 1, 5]));
    assert!(discovery_candidate(None, Some("tag".into()), &addrs).is_none());
    assert!(discovery_candidate(Some("id".into()), None, &addrs).is_none());
    assert!(discovery_candidate(Some("id".into()), Some("tag".into()), &vec![]).is_none());
}

#[test]
fn auth_tag_checks_the_identity_key() {
    assert!(key_accepts(Some(ALT_IRK.to_vec()), IDENTIFIER, AUTH_TAG));
    assert!(!key_accepts(Some(ALT_IRK.to_vec()), IDENTIFIER, "AAAAAAAA"));
    assert!(!key_accepts(Some(ALT_IRK[..15].to_vec()), IDENTIFIER, AUTH_TAG));
    assert!(!key_accepts(None, IDENTIFIER, AUTH_TAG));
}

#[test]
fn matching_device_is_the_first_whose_key_accepts() {
    let other = pairing_file(Some(vec![7u8; 16]));
    let without_key = pairing_file(None);
    let matching = pairing_file(Some(ALT_IRK.to_vec()));
    let pairings = vec![None, Some(b"not a plist".to_vec()), Some(without_key), Some(other), Some(matching.clone()), Some(matching)];
    assert_eq!(find_matching_device(&pairings, IDENTIFIER, AUTH_TAG), Some(4));
    assert_eq!(find_matching_device(&pairings[..4].to_vec(), IDENTIFIER, AUTH_TAG), None);
}

#[test]
fn discovery_plan_follows_config() {
    let mut cfg = DiscoveryConfig::default();
    let plan = discovery_plan(&cfg).unwrap();
    assert_eq!(plan.interface, None);
    cfg.mdns_interface = "  en0 \n".to_string();
    assert_eq!(discovery_plan(&cfg).unwrap().interface.as_deref(), Some("en0"));
    cfg.mdns_interface = "   ".to_string();
    assert_eq!(discovery_plan(&cfg).unwrap().interface, None);
    cfg.mdns_enabled = false;
    assert!(discovery_plan(&cfg).is_none());
}

#[test]
fn unicode_white_space_is_trimmed() {
    let mut cfg = DiscoveryConfig::default();
    cfg.mdns_interface = "\u{3000}\u{a0}bridge0\u{85}\u{2028}".to_string();
    assert_eq!(discovery_plan(&cfg).unwrap().interface.as_deref(), Some("bridge0"));
    cfg.mdns_interface = "\u{200b}en0".to_string();
    assert_eq!(discovery_plan(&cfg).unwrap().interface.as_deref(), Some("\u{200b}en0"));
    cfg.mdns_interface = " en 0 ".to_string();
    assert_eq!(discovery_plan(&cfg).unwrap().interface.as_deref(), Some("en 0"));
}

#[test]
fn device_step_matches_batch_search() {
    let matching = Some(pairing_file(Some(ALT_IRK.to_vec())));
    let other = Some(pairing_file(Some(vec![1u8; 16])));
    assert!(device_accepts(&matching, IDENTIFIER, AUTH_TAG));
    assert!(!device_accepts(&other, IDENTIFIER, AUTH_TAG));
    assert!(!device_accepts(&None, IDENTIFIER, AUTH_TAG));
}

#[test]
fn only_resolved_services_are_handled() {
    assert!(handles_event(ServiceEventKind::ServiceResolved));
    for kind in [ServiceEventKind::SearchStarted, ServiceEventKind::ServiceFound, ServiceEventKind::ServiceRemoved, ServiceEventKind::SearchStopped] {
        assert!(!handles_event(kind));
    }
}

#[test]
fn matched_device_is_always_updated() {
    let ip = "10.0.0.2".to_string();
    let same = match_update(&Some("10.0.0.2".to_string()), &ip);
    assert!(same.write_address && !same.announce);
    let moved = match_update(&Some("10.0.0.9".to_string()), &ip);
    assert!(moved.write_address && moved.announce);
    let first = match_update(&None, &ip);
    assert!(first.write_address && first.announce);
}
