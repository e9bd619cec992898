use qatest::network::{is_private_network_ip, AccessScope, IpAddress};

fn v6(segments: [u16; 8]) -> IpAddress {
    IpAddress::V6(segments)
}

#[test]
fn private_scope_allows_loopback_and_private_networks() {
    let allowed = [
        IpAddress::V4([127, 0, 0, 1]),
        IpAddress::V4([10, 1, 2, 3]),
        IpAddress::V4([172, 16, 1, 1]),
        IpAddress::V4([192, 168, 1, 20]),
        IpAddress::V4([169, 254, 10, 10]),
        v6([0, 0, 0, 0, 0, 0, 0, 1]),
        v6([0xfc00, 0, 0, 0, 0, 0, 0, 1]),
        v6([0xfd12, 0x3456, 0, 0, 0, 0, 0, 1]),
        v6([0xfe80, 0, 0, 0, 0, 0, 0, 1]),
    ];

    for ip in allowed {
        assert!(
            AccessScope::Private.allows(ip),
            "expected {:?} to be allowed",
            ip
        );
    }
}

#[test]
fn private_scope_rejects_public_networks() {
    let rejected = [
        IpAddress::V4([8, 8, 8, 8]),
        IpAddress::V4([1, 1, 1, 1]),
        v6([0x2001, 0x4860, 0x4860, 0, 0, 0, 0, 0x8888]),
    ];

    for ip in rejected {
        assert!(
            !AccessScope::Private.allows(ip),
            "expected {:?} to be rejected",
            ip
        );
    }
}

#[test]
fn unrestricted_scope_allows_public_networks() {
    assert!(AccessScope::Unrestricted.allows(IpAddress::V4([8, 8, 8, 8])));
    assert!(AccessScope::Unrestricted.allows(v6([0x2001, 0x4860, 0x4860, 0, 0, 0, 0, 0x8888])));
}

#[test]
fn access_scope_accepts_aliases_and_falls_back_to_private() {
    assert_eq!(AccessScope::from_env_value("lan"), AccessScope::Private);
    assert_eq!(
        AccessScope::from_env_value("unrestricted"),
        AccessScope::Unrestricted
    );
    assert_eq!(
        AccessScope::from_env_value("open"),
        AccessScope::Unrestricted
    );
    assert_eq!(AccessScope::from_env_value("invalid"), AccessScope::Private);
}

#[test]
fn private_ranges_have_exact_edges() {
    assert!(!is_private_network_ip(IpAddress::V4([172, 32, 0, 1])));
    assert!(is_private_network_ip(IpAddress::V4([172, 31, 255, 255])));
    assert!(!is_private_network_ip(IpAddress::V4([169, 253, 0, 1])));
    assert!(!is_private_network_ip(v6([0xfec0, 0, 0, 0, 0, 0, 0, 1])));
    assert_eq!(AccessScope::from_env_value("  PUBLIC "), AccessScope::Unrestricted);
    assert_eq!(AccessScope::from_env_value(""), AccessScope::Private);
    assert_eq!(AccessScope::Private.as_str(), "private");
    assert_eq!(AccessScope::Unrestricted.as_str(), "unrestricted");
}
