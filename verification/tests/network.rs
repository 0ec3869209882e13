use sandboxd::oci::address::{
    cidr_contains, is_protected_destination, network_address, validate_cidr, IpAddress,
};
use sandboxd::oci::network::{
    canonical_domain, domain_matches, validate_domain_pattern, HttpEgressRule, HttpScheme,
    IngressRule, NetworkPolicy, NetworkProfile, TcpEgressRule,
};
use sandboxd::table::Table;

fn ip(value: &str) -> IpAddress {
    IpAddress::parse(value).expect("IP")
}

fn http_policy() -> NetworkPolicy {
    NetworkPolicy {
        profile: NetworkProfile::HttpConnect,
        http_rules: vec![HttpEgressRule {
            domains: vec!["api.example.com".to_owned(), "*.services.example".to_owned()],
            schemes: vec![HttpScheme::Https],
            ports: vec![443],
        }],
        ..NetworkPolicy::default()
    }
}

#[test]
fn http_policy_matches_complete_domain_labels() {
    let policy = http_policy();
    policy.validate(&Table::new()).expect("valid policy");
    assert!(policy.permits_http("api.example.com", HttpScheme::Https, 443));
    assert!(policy.permits_http("v1.services.example", HttpScheme::Https, 443));
    assert!(!policy.permits_http("services.example", HttpScheme::Https, 443));
    assert!(!policy.permits_http("evilservices.example", HttpScheme::Https, 443));
    assert!(!policy.permits_http("api.example.com", HttpScheme::Http, 443));
    assert!(!policy.permits_http("127.0.0.1", HttpScheme::Https, 443));
}

#[test]
fn restricted_tcp_requires_canonical_cidrs() {
    let mut policy = NetworkPolicy {
        profile: NetworkProfile::RestrictedTcp,
        tcp_rules: vec![TcpEgressRule {
            destination_cidr: "203.0.113.0/24".to_owned(),
            ports: vec![5432],
        }],
        ..NetworkPolicy::default()
    };
    policy.validate(&Table::new()).expect("valid policy");
    assert!(policy.permits_tcp(ip("203.0.113.7"), 5432));
    assert!(!policy.permits_tcp(ip("203.0.114.7"), 5432));
    policy.tcp_rules[0].destination_cidr = "203.0.113.7/24".to_owned();
    assert!(policy.validate(&Table::new()).is_err());
    policy.tcp_rules[0].destination_cidr = "10.20.0.0/16".to_owned();
    assert!(policy.validate(&Table::new()).is_err());
}

#[test]
fn protected_destinations_cover_worker_and_metadata_ranges() {
    for address in [
        "127.0.0.1",
        "10.0.0.1",
        "100.64.0.1",
        "169.254.169.254",
        "192.168.1.1",
        "::1",
        "fd00::1",
        "fe80::1",
    ] {
        assert!(is_protected_destination(ip(address)), "{address}");
    }
    assert!(!is_protected_destination(ip("8.8.8.8")));
    assert!(!is_protected_destination(ip("2606:4700:4700::1111")));
}

#[test]
fn the_benchmark_block_is_protected_as_a_whole() {
    assert!(!is_protected_destination(ip("198.17.255.255")));
    assert!(is_protected_destination(ip("198.18.0.0")));
    assert!(is_protected_destination(ip("198.19.0.1")));
    assert!(is_protected_destination(ip("198.19.255.255")));
    assert!(!is_protected_destination(ip("198.20.0.0")));
}

#[test]
fn a_policy_without_a_profile_permits_nothing() {
    let policy = NetworkPolicy::default();
    policy.validate(&Table::new()).expect("valid policy");
    assert!(!policy.permits_http("api.example.com", HttpScheme::Https, 443));
    assert!(!policy.permits_tcp(ip("203.0.113.7"), 5432));
    assert!(!policy.permits_dns_name("api.example.com"));
}

#[test]
fn names_are_looked_up_where_they_are_permitted() {
    let policy = http_policy();
    assert!(policy.permits_dns_name("api.example.com"));
    assert!(policy.permits_dns_name("api.example.com."));
    assert!(!policy.permits_dns_name("API.example.com"));
    assert!(!policy.permits_dns_name("other.example.com"));
}

#[test]
fn ingress_leads_to_a_service() {
    let mut policy = http_policy();
    policy.ingress.push(IngressRule { service: "missing".to_owned(), container_port: 80 });
    assert!(policy.validate(&Table::new()).is_err());
}

#[test]
fn rules_belong_to_their_profile() {
    let mut policy = http_policy();
    policy.profile = NetworkProfile::RestrictedTcp;
    assert!(policy.validate(&Table::new()).is_err());
    let mut empty = http_policy();
    empty.http_rules.clear();
    assert!(empty.validate(&Table::new()).is_err());
    let mut twice = http_policy();
    twice.http_rules[0].ports.push(443);
    assert!(twice.validate(&Table::new()).is_err());
}

#[test]
fn domains_are_compared_label_by_label() {
    assert!(domain_matches("*.example.com", "a.example.com"));
    assert!(domain_matches("*.example.com", "a.b.example.com"));
    assert!(!domain_matches("*.example.com", "example.com"));
    assert_eq!(canonical_domain("example.com."), Some("example.com"));
    assert_eq!(canonical_domain("Example.com"), None);
    assert!(validate_domain_pattern("*.example.com").is_ok());
    assert!(validate_domain_pattern("exa mple.com").is_err());
    assert!(validate_domain_pattern("*.*.example.com").is_err());
}

#[test]
fn addresses_are_read_as_they_are_written() {
    assert_eq!(IpAddress::parse("127.0.0.1"), Some(IpAddress::V4(0x7f00_0001)));
    assert_eq!(IpAddress::parse("::1"), Some(IpAddress::V6(1)));
    assert_eq!(
        IpAddress::parse("2001:db8::a:b"),
        Some(IpAddress::V6(0x2001_0db8_0000_0000_0000_0000_000a_000b))
    );
    assert_eq!(IpAddress::parse("::ffff:1.2.3.4"), Some(IpAddress::V6(0xffff_0102_0304)));
    for wrong in ["", "1.2.3", "1.2.3.256", "01.2.3.4", "1::2::3", "g::", "1:2:3:4:5:6:7", "1.2.3.4.5"] {
        assert_eq!(IpAddress::parse(wrong), None, "{wrong}");
    }
}

#[test]
fn blocks_hold_the_addresses_that_share_their_prefix() {
    assert_eq!(network_address(ip("203.0.113.7"), 24), ip("203.0.113.0"));
    assert_eq!(network_address(ip("203.0.113.7"), 0), ip("0.0.0.0"));
    assert_eq!(network_address(ip("2001:db8::1"), 32), ip("2001:db8::"));
    assert_eq!(validate_cidr("203.0.113.0/24").unwrap(), (ip("203.0.113.0"), 24));
    assert!(validate_cidr("203.0.113.1/24").is_err());
    assert!(validate_cidr("203.0.113.0/33").is_err());
    assert!(validate_cidr("203.0.113.0").is_err());
    assert!(cidr_contains("203.0.113.0/24", ip("203.0.113.255")).unwrap());
    assert!(!cidr_contains("203.0.113.0/24", ip("203.0.112.255")).unwrap());
    assert!(!cidr_contains("203.0.113.0/24", ip("::1")).unwrap());
    assert!(cidr_contains("203.0.113/24", ip("203.0.113.1")).is_err());
}
