//! Decision logic of a remote network-diagnostics agent: request validation,
//! target resolution, the streaming probe loop, trace deduplication, HTTP
//! probe reporting and session authentication.
mod config;
mod errors;
mod gateway;
mod http;
mod probe;
mod request;
mod resolve;
mod trace;

pub use config::{registration_target, startup_allowed, Cli};
pub use errors::{error_tag, RequestError, SocketIOError};
pub use resolve::{
    address_answers, dns_event, ends_with_text, first_address, first_literal_at, host_domain,
    is_domain_part, is_ip, is_ip_literal, literal_answers, nameserver_address, nameserver_text,
    record_type_for, record_type_text, reported_answers, resolution_plan, target_address, texts,
    has_ascii_lowercase, is_record_type, is_socket_address, resolver_nameserver, valid_record_type,
    DnsEvent, TargetPlan,
};
pub use probe::{
    iteration_count, law_cancel_stops, law_round_count, law_sequence_numbers_increase,
    lemma_issued_numbers, ping_event, rounds, tcping_event, LoopAction, Phase, PingEvent, ProbeLoop,
    TcpingEvent,
};
pub use trace::{
    catch_up_hops, first_of_distance, from_first_of_distance, hops_of, law_each_hop_once, role_name, same_report, NodeRole,
    TraceHop, TraceReport,
};
pub use http::{
    http_event, http_target, port_or_default, target_of, url_host, url_port, HttpEvent,
};
pub use gateway::{
    authorize, authorized_by, bearer_token, has_token, is_first, on_connect, pong_response,
    probe_kind, probe_name, rejection, ConnectAction, ProbeKind,
};
pub use request::{or_default, valid_type_text, DnsRequest, HttpRequest, MtrRequest, StreamRequest};
