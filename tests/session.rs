use nodecook_agent::{
    authorize, bearer_token, http_event, http_target, on_connect, pong_response, probe_kind,
    rejection, startup_allowed, target_of, Cli, ConnectAction, DnsRequest, HttpRequest, MtrRequest,
    NodeRole, ProbeKind, RequestError, SocketIOError, StreamRequest, TraceHop, TraceReport,
};

fn hop(h: u8) -> TraceHop {
    TraceHop {
        seq: 0,
        ip: format!("10.0.0.{}", h),
        hostname: format!("r{}", h),
        ttl: Some(64),
        hop: Some(h),
        role: if h == 1 { NodeRole::DefaultGateway } else { NodeRole::Relay },
        rtt_ms: h as u64,
    }
}

#[test]
fn bearer_token_parsing() {
    assert_eq!(bearer_token("Bearer abc"), Some("abc".to_string()));
    assert_eq!(bearer_token("Bearer abc def"), Some("abc".to_string()));
    assert_eq!(bearer_token("Bearer"), None);
}

#[test]
fn unauthenticated_connection_rejected() {
    assert_eq!(on_connect(Some("Bearer wrong"), "key"), ConnectAction::Reject);
    assert_eq!(on_connect(None, "key"), ConnectAction::Reject);
    assert_eq!(on_connect(Some("garbage"), "key"), ConnectAction::Reject);
    assert_eq!(rejection(), ("error", "unauthorized"));
}

#[test]
fn authenticated_connection_accepted() {
    assert_eq!(on_connect(Some("Bearer key"), "key"), ConnectAction::Accept);
    assert!(authorize(Some("Bearer key"), "key"));
}

#[test]
fn liveness_check() {
    assert_eq!(pong_response(Some("Bearer key"), "key"), (200, "pong"));
    assert_eq!(pong_response(Some("Bearer nope"), "key"), (401, ""));
    assert_eq!(pong_response(None, "key"), (401, ""));
}

#[test]
fn probe_routing() {
    assert_eq!(probe_kind("ping"), Some(ProbeKind::Ping));
    assert_eq!(probe_kind("tcping"), Some(ProbeKind::Tcping));
    assert_eq!(probe_kind("dns"), Some(ProbeKind::Dns));
    assert_eq!(probe_kind("mtr"), Some(ProbeKind::Mtr));
    assert_eq!(probe_kind("http"), Some(ProbeKind::Http));
    assert_eq!(probe_kind("pingx"), None);
    assert!(ProbeKind::Mtr.closes_session());
    assert!(!ProbeKind::Dns.closes_session());
    assert!(!ProbeKind::Http.closes_session());
    assert!(ProbeKind::Tcping.cancellable());
    assert!(!ProbeKind::Mtr.cancellable());
    assert_eq!(ProbeKind::Tcping.name(), "tcping");
}

#[test]
fn error_tags() {
    assert_eq!(SocketIOError::ErrDNSLookupFailed.tag(), "err_dns_lookup_failed");
    assert_eq!(SocketIOError::ErrPingFailed.tag(), "err_ping_failed");
    assert_eq!(SocketIOError::ErrTCPingFailed.tag(), "err_tcping_failed");
    assert_eq!(SocketIOError::ErrHTTPFailed.tag(), "err_http_failed");
    assert_eq!(SocketIOError::ErrMTRFailed.tag(), "err_mtr_failed");
}

#[test]
fn request_defaults_and_errors() {
    let q = StreamRequest::from_fields(Some("1.1.1.1".to_string()), None, None, None).unwrap();
    assert!(q.single && q.is_ipv4 && q.ns.is_none());
    assert_eq!(
        StreamRequest::from_fields(None, None, None, None).unwrap_err(),
        RequestError::MissingHost
    );
    assert_eq!(
        DnsRequest::from_fields(None, Some("A".to_string()), None).unwrap_err(),
        RequestError::MissingDomain
    );
    assert_eq!(
        DnsRequest::from_fields(Some("example.com".to_string()), None, None).unwrap_err(),
        RequestError::MissingRecordType
    );
    let t = StreamRequest::from_fields(Some("example.com:80".to_string()), Some(false), None, None);
    assert!(t.is_ok());
    assert_eq!(
        DnsRequest::from_fields(Some("example.com".to_string()), Some("a".to_string()), None)
            .unwrap_err(),
        RequestError::InvalidRecordType
    );
    assert_eq!(
        DnsRequest::from_fields(Some("example.com".to_string()), Some("BOGUS".to_string()), None)
            .unwrap_err(),
        RequestError::InvalidRecordType
    );
    let d = DnsRequest::from_fields(Some("example.com".to_string()), Some("CNAME".to_string()), None)
        .unwrap();
    assert_eq!(d.record_type, "CNAME");
    let h = HttpRequest::from_fields(Some("http://example.com".to_string()), None, None).unwrap();
    assert!(h.is_ipv4);
    let m = MtrRequest::from_fields(Some("example.com".to_string()), Some(false), None).unwrap();
    assert!(!m.is_ipv4);
    assert_eq!(MtrRequest::from_fields(None, None, None).unwrap_err(), RequestError::MissingHost);
    assert_eq!(HttpRequest::from_fields(None, None, None).unwrap_err(), RequestError::MissingUrl);
}

#[test]
fn trace_catch_up_emits_missing_hops_once() {
    let mut report = TraceReport::new();
    let first = report.on_progress(&hop(1));
    let second = report.on_progress(&hop(3));
    assert_eq!((first.seq, second.seq), (1, 2));
    assert_eq!(second.hop, Some(3));
    let mut late_two = hop(2);
    late_two.ip = "10.9.9.9".to_string();
    let summary = vec![hop(1), hop(2), hop(3), hop(4), late_two];
    let extra = report.catch_up(&summary);
    let hops: Vec<Option<u8>> = extra.iter().map(|h| h.hop).collect();
    assert_eq!(hops, vec![Some(2), Some(4)]);
    assert_eq!(extra[0].ip, "10.0.0.2");
    let seqs: Vec<u32> = extra.iter().map(|h| h.seq).collect();
    assert_eq!(seqs, vec![3, 4]);
    assert_eq!(report.reported, vec![Some(1), Some(3), Some(2), Some(4)]);
    assert_eq!(NodeRole::Destination.name(), "Destination");
}

#[test]
fn trace_finish_outcomes() {
    let mut report = TraceReport::new();
    report.on_progress(&hop(1));
    assert_eq!(report.finish(None).unwrap_err(), SocketIOError::ErrMTRFailed);
    assert_eq!(report.reported, vec![Some(1)]);
    let extra = report.finish(Some(vec![hop(1), hop(2)])).unwrap();
    assert_eq!(extra.len(), 1);
    assert_eq!((extra[0].hop, extra[0].seq), (Some(2), 2));
}

#[test]
fn http_target_from_url() {
    assert_eq!(
        http_target("http://example.com:8080/path"),
        Ok(("example.com".to_string(), 8080))
    );
    assert_eq!(http_target("http://example.com/"), Ok(("example.com".to_string(), 80)));
    assert_eq!(http_target("not a url"), Err(RequestError::InvalidUrl));
    assert_eq!(target_of(Some(("h".to_string(), None))), Ok(("h".to_string(), 80)));
}

#[test]
fn http_event_keeps_ip_and_order_of_durations() {
    let ok = http_event("93.184.216.34", 10, 50, Some(200));
    assert_eq!((ok.dns_duration_ms, ok.duration_ms, ok.status, ok.error), (10, 50, Some(200), None));
    let failed = http_event("93.184.216.34", 10, 30, None);
    assert_eq!(failed.ip, "93.184.216.34");
    assert_eq!(failed.error, Some(SocketIOError::ErrHTTPFailed));
    let skewed = http_event("1.1.1.1", 10, 5, None);
    assert!(skewed.dns_duration_ms <= skewed.duration_ms);
    assert_eq!(skewed.duration_ms, 10);
}

#[test]
fn registration_servers() {
    let args = Cli {
        ipv4_server: Some("http://v4.example/agent".to_string()),
        ipv6_server: None,
        port: 4000,
        api_key: "k".to_string(),
        debug: false,
        endpoint: None,
    };
    assert_eq!(
        args.registration_server("ipv4", "http://d4", "http://d6"),
        Some("http://v4.example/agent".to_string())
    );
    assert_eq!(args.registration_server("ipv6", "http://d4", "http://d6"), Some("http://d6".to_string()));
    assert_eq!(args.registration_server("ipx", "http://d4", "http://d6"), None);
    assert!(startup_allowed(false, true));
    assert!(!startup_allowed(false, false));
}
