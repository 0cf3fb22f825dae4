use cdn_optimizer::config::{
    effective_run_interval, CdnConfig, CloudflareConfig, Config, OptimizationConfig,
    DEFAULT_RUN_INTERVAL_SECONDS, PROBE_TIMEOUT_MILLIS,
};
use cdn_optimizer::dns::{
    update_outcome, update_request, DnsFailure, DnsResponse, ProviderError, AUTOMATIC_TTL,
};

#[test]
fn update_request_addresses_the_record() {
    let request = update_request("SECRET-REDACTED", "zone9", "rec7", "cdn.example.com", "10.0.0.1");
    assert_eq!(
        request.url,
        "https://api.cloudflare.com/client/v4/zones/zone9/dns_records/rec7"
    );
    assert_eq!(request.authorization, "Bearer SECRET-REDACTED");
    assert_eq!(request.content_type, "application/json");
}

#[test]
fn update_request_makes_a_proxied_a_record() {
    let request = update_request("t", "z", "r", "cdn.example.com", "10.0.0.1");
    assert_eq!(request.record_type, "A");
    assert_eq!(request.name, "cdn.example.com");
    assert_eq!(request.content, "10.0.0.1");
    assert_eq!(request.ttl, 1);
    assert_eq!(request.ttl, AUTOMATIC_TTL);
    assert!(request.proxied);
}

#[test]
fn update_request_with_empty_parts() {
    let request = update_request("", "", "", "", "");
    assert_eq!(request.url, "https://api.cloudflare.com/client/v4/zones//dns_records/");
    assert_eq!(request.authorization, "Bearer ");
    assert_eq!(request.name, "");
    assert_eq!(request.content, "");
}

#[test]
fn successful_answer_is_ok() {
    let response = DnsResponse::Answered { success: true, errors: Vec::new() };
    assert!(update_outcome(response).is_ok());
}

#[test]
fn successful_answer_with_errors_is_still_ok() {
    let errors = vec![ProviderError { code: 1, message: "note".to_string() }];
    assert!(update_outcome(DnsResponse::Answered { success: true, errors }).is_ok());
}

#[test]
fn refusal_carries_the_error_list() {
    let errors = vec![
        ProviderError { code: 9109, message: "Invalid access token".to_string() },
        ProviderError { code: 81044, message: "Record does not exist".to_string() },
    ];
    match update_outcome(DnsResponse::Answered { success: false, errors }) {
        Err(DnsFailure::Rejected(list)) => {
            assert_eq!(list.len(), 2);
            assert_eq!(list[0].code, 9109);
            assert_eq!(list[0].message, "Invalid access token");
            assert_eq!(list[1].code, 81044);
            assert_eq!(list[1].message, "Record does not exist");
        }
        other => panic!("expected a refusal, got {:?}", other),
    }
}

#[test]
fn refusal_without_errors_is_a_refusal() {
    match update_outcome(DnsResponse::Answered { success: false, errors: Vec::new() }) {
        Err(DnsFailure::Rejected(list)) => assert!(list.is_empty()),
        other => panic!("expected a refusal, got {:?}", other),
    }
}

#[test]
fn missing_answer_is_a_transport_failure() {
    match update_outcome(DnsResponse::Unreachable("connection reset".to_string())) {
        Err(DnsFailure::Transport(reason)) => assert_eq!(reason, "connection reset"),
        other => panic!("expected a transport failure, got {:?}", other),
    }
}

#[test]
fn configured_interval_is_used() {
    assert_eq!(effective_run_interval(Some(120)), 120);
    assert_eq!(effective_run_interval(Some(0)), 0);
}

#[test]
fn missing_interval_falls_back_to_the_default() {
    assert_eq!(effective_run_interval(None), 3600);
    assert_eq!(DEFAULT_RUN_INTERVAL_SECONDS, 3600);
}

#[test]
fn probe_timeout_is_six_seconds() {
    assert_eq!(PROBE_TIMEOUT_MILLIS, 6000);
}

#[test]
fn config_holds_its_sections() {
    let config = Config {
        cloudflare: CloudflareConfig {
            api_token: "SECRET-REDACTED".to_string(),
            zone_id: "zone".to_string(),
            record_id: "record".to_string(),
            domain: "cdn.example.com".to_string(),
            update_dns: true,
        },
        cdn: CdnConfig { cidr_list: vec!["10.0.0.0/30".to_string()] },
        optimization: OptimizationConfig {
            ping_threads: 8,
            top_ips_to_save: 10,
            run_interval_seconds: 600,
            debug: false,
        },
    };
    let copy = config.clone();
    assert_eq!(copy.cloudflare.domain, "cdn.example.com");
    assert!(copy.cloudflare.update_dns);
    assert_eq!(copy.cdn.cidr_list, vec!["10.0.0.0/30"]);
    assert_eq!(copy.optimization.ping_threads, 8);
    assert_eq!(copy.optimization.top_ips_to_save, 10);
    assert_eq!(copy.optimization.run_interval_seconds, 600);
    assert!(!copy.optimization.debug);
}
