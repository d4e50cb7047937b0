use nodecook_agent::{
    resolver_nameserver, valid_record_type,
    address_answers, dns_event, first_address, host_domain, is_ip, nameserver_address,
    record_type_for, resolution_plan, target_address, SocketIOError, StreamRequest, TargetPlan,
};

fn strings(v: &[&str]) -> Vec<String> {
    v.iter().map(|s| s.to_string()).collect()
}

#[test]
fn nameserver_ipv4_gets_port() {
    assert_eq!(nameserver_address("9.9.9.9", "A"), "9.9.9.9:53");
}

#[test]
fn nameserver_ipv6_gets_brackets_for_aaaa() {
    assert_eq!(
        nameserver_address("2001:4860:4860::8888", "AAAA"),
        "[2001:4860:4860::8888]:53"
    );
}

#[test]
fn nameserver_with_port_kept() {
    assert_eq!(nameserver_address("8.8.8.8:53", "A"), "8.8.8.8:53");
    assert_eq!(nameserver_address("[::1]:53", "AAAA"), "[::1]:53");
}

#[test]
fn nameserver_ipv6_ending_in_53_is_bracketed() {
    assert_eq!(nameserver_address("2001:db8::53", "AAAA"), "[2001:db8::53]:53");
}

#[test]
fn nameserver_ipv6_with_a_query_is_not_bracketed() {
    assert_eq!(nameserver_address("::1", "A"), "::1:53");
}

#[test]
fn record_types_by_family() {
    assert_eq!(record_type_for(true), "A");
    assert_eq!(record_type_for(false), "AAAA");
}

#[test]
fn ip_literals_recognised() {
    assert!(is_ip("1.1.1.1"));
    assert!(is_ip("2001:4860:4860::8888"));
    assert!(!is_ip("example.com"));
    assert!(!is_ip(""));
    assert!(!is_ip("1.1.1.1:80"));
}

#[test]
fn literal_target_skips_lookup() {
    match resolution_plan("1.1.1.1") {
        TargetPlan::Literal(a) => assert_eq!(a, "1.1.1.1"),
        TargetPlan::Lookup(_) => panic!("a literal address needs no lookup"),
    }
}

#[test]
fn name_target_needs_lookup() {
    match resolution_plan("example.com") {
        TargetPlan::Lookup(d) => assert_eq!(d, "example.com"),
        TargetPlan::Literal(_) => panic!("a name must be looked up"),
    }
}

#[test]
fn tcping_domain_is_before_colon() {
    assert_eq!(host_domain("example.com:80"), "example.com");
    assert_eq!(host_domain("example.com"), "example.com");
    assert_eq!(host_domain(":80"), "");
    let q = StreamRequest::from_fields(Some("example.com:80".to_string()), Some(false), None, None)
        .unwrap();
    assert_eq!(q.domain(), "example.com");
    assert!(!q.single);
}

#[test]
fn first_address_skips_aliases() {
    let answers = strings(&["alias.example.net.", "93.184.216.34", "93.184.216.35"]);
    assert_eq!(first_address(&answers), Some("93.184.216.34".to_string()));
    assert_eq!(first_address(&strings(&["alias.example.net."])), None);
    assert_eq!(first_address(&Vec::new()), None);
}

#[test]
fn target_address_outcomes() {
    assert_eq!(
        target_address(TargetPlan::Literal("1.1.1.1".to_string()), None),
        Ok("1.1.1.1".to_string())
    );
    assert_eq!(
        target_address(TargetPlan::Lookup("example.com".to_string()), None),
        Err(SocketIOError::ErrDNSLookupFailed)
    );
    assert_eq!(
        target_address(
            TargetPlan::Lookup("example.com".to_string()),
            Some(strings(&["cname.example.", "2.2.2.2"]))
        ),
        Ok("2.2.2.2".to_string())
    );
    assert_eq!(
        target_address(
            TargetPlan::Lookup("example.com".to_string()),
            Some(strings(&["cname.example."]))
        ),
        Err(SocketIOError::ErrDNSLookupFailed)
    );
}

#[test]
fn dns_answers_a_query_keeps_only_literals() {
    let answers = strings(&["cdn.example.com.", "93.184.216.34", "2606:2800::1"]);
    assert_eq!(address_answers("A", &answers), strings(&["93.184.216.34", "2606:2800::1"]));
}

#[test]
fn dns_answers_cname_query_keeps_all() {
    let answers = strings(&["cdn.example.com.", "93.184.216.34"]);
    assert_eq!(address_answers("CNAME", &answers), answers);
}

#[test]
fn dns_event_example_com_a() {
    let e = dns_event("A", Some(strings(&["93.184.216.34", "other.example."])), 12);
    assert_eq!(e.duration_ms, Some(12));
    assert_eq!(e.ips, strings(&["93.184.216.34"]));
    assert!(e.ips.iter().all(|s| is_ip(s)));
    assert_eq!(e.error, None);
}

#[test]
fn dns_event_failure() {
    let e = dns_event("A", None, 5);
    assert_eq!(e.duration_ms, None);
    assert!(e.ips.is_empty());
    assert_eq!(e.error, Some(SocketIOError::ErrDNSLookupFailed));
}

#[test]
fn record_types_checked() {
    assert!(valid_record_type("A"));
    assert!(valid_record_type("AAAA"));
    assert!(valid_record_type("CNAME"));
    assert!(!valid_record_type("cname"));
    assert!(!valid_record_type("NOPE"));
    assert!(!valid_record_type(""));
}

#[test]
fn resolver_nameserver_outcomes() {
    assert_eq!(resolver_nameserver(None, "A"), Ok(None));
    assert_eq!(resolver_nameserver(Some("9.9.9.9"), "A"), Ok(Some("9.9.9.9:53".to_string())));
    assert_eq!(
        resolver_nameserver(Some("2001:4860:4860::8888"), "AAAA"),
        Ok(Some("[2001:4860:4860::8888]:53".to_string()))
    );
    assert_eq!(
        resolver_nameserver(Some("dns.example"), "A"),
        Err(SocketIOError::ErrDNSLookupFailed)
    );
}
