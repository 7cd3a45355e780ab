use domain_checker::status::{check_domain, LookupError};

#[test]
fn both_lookups_no_records() {
    let s = check_domain(
        "free.example".to_string(),
        Err(LookupError::NoRecordsFound),
        Err(LookupError::NoRecordsFound),
    );
    assert_eq!(s.domain, "free.example");
    assert!(!s.registered);
    assert!(!s.has_dns);
    assert!(!s.has_ip);
    assert!(s.nameservers.is_empty());
    assert!(s.ip_addresses.is_empty());
    assert_eq!(s.error, None);
}

#[test]
fn both_lookups_succeed() {
    let s = check_domain(
        "taken.example".to_string(),
        Ok(vec!["ns1.host.example.".to_string(), "ns2.host.example.".to_string()]),
        Ok(vec!["192.0.2.1".to_string()]),
    );
    assert!(s.registered);
    assert!(s.has_dns);
    assert!(s.has_ip);
    assert_eq!(
        s.nameservers,
        vec!["ns1.host.example.".to_string(), "ns2.host.example.".to_string()]
    );
    assert_eq!(s.ip_addresses, vec!["192.0.2.1".to_string()]);
    assert_eq!(s.error, None);
}

#[test]
fn registered_iff_either_lookup_has_records() {
    let ns_only = check_domain(
        "a.example".to_string(),
        Ok(vec!["ns1.a.example.".to_string()]),
        Err(LookupError::NoRecordsFound),
    );
    assert!(ns_only.registered);
    assert_eq!(ns_only.registered, ns_only.has_dns || ns_only.has_ip);

    let ip_only = check_domain(
        "b.example".to_string(),
        Err(LookupError::NoRecordsFound),
        Ok(vec!["192.0.2.2".to_string()]),
    );
    assert!(ip_only.registered);
    assert_eq!(ip_only.registered, ip_only.has_dns || ip_only.has_ip);

    let neither = check_domain(
        "c.example".to_string(),
        Err(LookupError::NoRecordsFound),
        Err(LookupError::OtherFailure("timeout".to_string())),
    );
    assert!(!neither.registered);
    assert_eq!(neither.registered, neither.has_dns || neither.has_ip);
}

#[test]
fn ns_failure_then_address_success_ends_clean() {
    let s = check_domain(
        "d.example".to_string(),
        Err(LookupError::OtherFailure("X".to_string())),
        Ok(vec!["192.0.2.3".to_string()]),
    );
    assert!(s.registered);
    assert_eq!(s.error, None);
}

#[test]
fn ns_failure_then_no_address_records_keeps_ns_error() {
    let s = check_domain(
        "e.example".to_string(),
        Err(LookupError::OtherFailure("X".to_string())),
        Err(LookupError::NoRecordsFound),
    );
    assert!(!s.registered);
    assert_eq!(s.error, Some("NS lookup error: X".to_string()));
}

#[test]
fn address_failure_overwrites_ns_failure() {
    let s = check_domain(
        "f.example".to_string(),
        Err(LookupError::OtherFailure("X".to_string())),
        Err(LookupError::OtherFailure("Y".to_string())),
    );
    assert!(!s.registered);
    assert_eq!(s.error, Some("IP lookup error: Y".to_string()));
}

#[test]
fn address_failure_alone_is_recorded() {
    let s = check_domain(
        "g.example".to_string(),
        Err(LookupError::NoRecordsFound),
        Err(LookupError::OtherFailure("refused".to_string())),
    );
    assert!(!s.registered);
    assert_eq!(s.error, Some("IP lookup error: refused".to_string()));
}

#[test]
fn ns_success_hides_later_address_failure() {
    let s = check_domain(
        "h.example".to_string(),
        Ok(vec!["ns1.h.example.".to_string()]),
        Err(LookupError::OtherFailure("timeout".to_string())),
    );
    assert!(s.registered);
    assert!(s.has_dns);
    assert!(!s.has_ip);
    assert!(s.ip_addresses.is_empty());
    assert_eq!(s.error, None);
}
