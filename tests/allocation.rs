use vm_ctl::error::{NameFault, VmError};
use vm_ctl::names::{parse_unsigned, sanitize_name, split_dots, validate_ip, validate_port};
use vm_ctl::resources::{
    assign_resources, guest_addr, next_ipv4, next_vnc_port, used_ipv4s, used_vnc_ports,
    StoredAllocation,
};

#[test]
fn sanitize_accepts_plain_identifiers() {
    assert_eq!(sanitize_name("52-54-c4-ca-42-38").unwrap(), "52-54-c4-ca-42-38");
    assert_eq!(sanitize_name("disk_1.img:a").unwrap(), "disk_1.img:a");
    assert_eq!(sanitize_name("vmé").unwrap(), "vmé");
}

#[test]
fn sanitize_rejects_each_fault() {
    assert!(matches!(sanitize_name(""), Err(VmError::InvalidName(NameFault::Empty))));
    let long = "a".repeat(256);
    assert!(matches!(sanitize_name(&long), Err(VmError::InvalidName(NameFault::TooLong))));
    let exact = "a".repeat(255);
    assert!(sanitize_name(&exact).is_ok());
    let wide = "é".repeat(128);
    assert!(matches!(sanitize_name(&wide), Err(VmError::InvalidName(NameFault::TooLong))));
    assert!(matches!(sanitize_name("a..b"), Err(VmError::InvalidName(NameFault::DotDot))));
    assert!(matches!(sanitize_name("a/b"), Err(VmError::InvalidName(NameFault::BadChar('/')))));
    assert!(matches!(sanitize_name("a b;c"), Err(VmError::InvalidName(NameFault::BadChar(' ')))));
}

#[test]
fn port_validation() {
    assert_eq!(validate_port("12001").unwrap(), 12001);
    assert_eq!(validate_port("+2000").unwrap(), 2000);
    assert_eq!(validate_port("1024").unwrap(), 1024);
    assert!(matches!(validate_port("1023"), Err(VmError::InvalidPort)));
    assert!(matches!(validate_port("80"), Err(VmError::InvalidPort)));
    assert!(matches!(validate_port("65536"), Err(VmError::InvalidPort)));
    assert!(matches!(validate_port("12a"), Err(VmError::InvalidPort)));
    assert!(matches!(validate_port(""), Err(VmError::InvalidPort)));
    assert!(matches!(validate_port("+"), Err(VmError::InvalidPort)));
}

#[test]
fn unsigned_parsing_limits() {
    assert_eq!(parse_unsigned("18446744073709551615", u64::MAX), Some(u64::MAX));
    assert_eq!(parse_unsigned("18446744073709551616", u64::MAX), None);
    assert_eq!(parse_unsigned("007", 255), Some(7));
    assert_eq!(parse_unsigned("256", 255), None);
}

#[test]
fn ip_validation() {
    assert_eq!(validate_ip("10.40.1.32").unwrap(), "10.40.1.32");
    assert!(matches!(validate_ip(""), Err(VmError::InvalidAddress)));
    assert!(matches!(validate_ip("10.0.0"), Err(VmError::InvalidAddress)));
    assert!(matches!(validate_ip("10.0.0.1.2"), Err(VmError::InvalidAddress)));
    assert!(matches!(validate_ip("256.0.0.1"), Err(VmError::InvalidAddress)));
    assert!(matches!(validate_ip("10..0.1"), Err(VmError::InvalidAddress)));
}

#[test]
fn dot_splitting() {
    assert_eq!(split_dots("a.b..c"), vec!["a", "b", "", "c"]);
    assert_eq!(split_dots(""), vec![""]);
}

#[test]
fn port_allocation_takes_lowest_free() {
    assert_eq!(next_vnc_port(&vec![]).unwrap(), 12001);
    assert_eq!(next_vnc_port(&vec![12001, 12003]).unwrap(), 12005);
    assert_eq!(next_vnc_port(&vec![12003, 12001, 12002]).unwrap(), 12005);
    assert_eq!(next_vnc_port(&vec![12003]).unwrap(), 12001);
}

#[test]
fn port_allocation_never_returns_used_and_is_deterministic() {
    let used: Vec<u16> = vec![12001, 12005, 12003, 12009];
    let p = next_vnc_port(&used).unwrap();
    assert!(!used.contains(&p));
    assert_eq!(p, 12007);
    let shuffled: Vec<u16> = vec![12009, 12003, 12005, 12001, 12003];
    assert_eq!(next_vnc_port(&shuffled).unwrap(), p);
}

#[test]
fn port_allocation_exhausted() {
    let all: Vec<u16> = (12001..=12999).step_by(2).collect();
    assert!(matches!(next_vnc_port(&all), Err(VmError::ResourceExhausted)));
}

#[test]
fn guest_address_enumeration() {
    assert_eq!(guest_addr(0), "10.0.1.10");
    assert_eq!(guest_addr(253), "10.0.254.10");
    assert_eq!(guest_addr(254), "10.1.0.10");
    assert_eq!(guest_addr(2803), "10.10.254.10");
    assert_eq!(next_ipv4(&vec![]).unwrap(), "10.0.1.10");
    assert_eq!(next_ipv4(&vec!["10.0.1.10".to_string()]).unwrap(), "10.0.2.10");
    let major0: Vec<String> = (1..=254).map(|m| format!("10.0.{}.10", m)).collect();
    assert_eq!(next_ipv4(&major0).unwrap(), "10.1.0.10");
}

#[test]
fn guest_address_exhausted() {
    let all: Vec<String> = (0..2804u16).map(guest_addr).collect();
    assert!(matches!(next_ipv4(&all), Err(VmError::ResourceExhausted)));
}

#[test]
fn stored_allocations_are_collected() {
    let stored = vec![
        StoredAllocation { vnc_port: Some(12001), local_ipv4: Some("10.0.1.10".to_string()) },
        StoredAllocation { vnc_port: None, local_ipv4: None },
        StoredAllocation { vnc_port: Some(12003), local_ipv4: Some("10.0.2.10".to_string()) },
    ];
    assert_eq!(used_vnc_ports(&stored), vec![12001, 12003]);
    assert_eq!(used_ipv4s(&stored), vec!["10.0.1.10", "10.0.2.10"]);
}

#[test]
fn resources_kept_or_assigned() {
    let ports = vec![12001];
    let ips = vec!["10.0.1.10".to_string()];
    let (p, a) = assign_resources(None, None, &ports, &ips).unwrap();
    assert_eq!((p, a.as_str()), (12003, "10.0.2.10"));
    let (p, a) = assign_resources(Some(12009), Some("10.0.7.10".to_string()), &ports, &ips).unwrap();
    assert_eq!((p, a.as_str()), (12009, "10.0.7.10"));
    let (_, a) = assign_resources(Some(12009), Some("10.0.0.1".to_string()), &ports, &ips).unwrap();
    assert_eq!(a, "10.0.2.10");
    let (_, a) = assign_resources(Some(12009), Some(String::new()), &ports, &ips).unwrap();
    assert_eq!(a, "10.0.2.10");
    let all: Vec<u16> = (12001..=12999).step_by(2).collect();
    assert!(matches!(assign_resources(None, None, &all, &ips), Err(VmError::ResourceExhausted)));
}
