use cdn_optimizer::address::Address;
use cdn_optimizer::config::{CdnConfig, CloudflareConfig, Config, OptimizationConfig};
use cdn_optimizer::cycle::{CycleAction, CycleDriver, CycleEvent, CycleFailure, CycleState, Stage};
use cdn_optimizer::dns::{DnsFailure, DnsResponse, ProviderError};
use cdn_optimizer::probe::Latency;
use cdn_optimizer::ranges::parse_cidr_list;
use cdn_optimizer::ranking::ProbeResult;
use cdn_optimizer::scheduler::ProbeScheduler;

fn config(update_dns: bool, top: usize) -> Config {
    Config {
        cloudflare: CloudflareConfig {
            api_token: "SECRET-REDACTED".to_string(),
            zone_id: "zone".to_string(),
            record_id: "record".to_string(),
            domain: "cdn.example.com".to_string(),
            update_dns,
        },
        cdn: CdnConfig { cidr_list: vec!["10.0.0.0/30".to_string()] },
        optimization: OptimizationConfig {
            ping_threads: 2,
            top_ips_to_save: top,
            run_interval_seconds: 900,
            debug: false,
        },
    }
}

fn probe_all(config: &Config, latencies_ms: &[Option<u64>]) -> Vec<ProbeResult> {
    let expansion = parse_cidr_list(&config.cdn.cidr_list);
    assert_eq!(expansion.addresses.len(), latencies_ms.len());
    let mut scheduler = ProbeScheduler::new(expansion.addresses, config.optimization.ping_threads);
    while !scheduler.is_finished() {
        let mut running = Vec::new();
        while let Some((ticket, _)) = scheduler.next_probe() {
            running.push(ticket);
        }
        assert!(running.len() <= config.optimization.ping_threads);
        for ticket in running {
            let latency = latencies_ms[ticket].map(|ms| Latency { micros: ms * 1000 });
            assert!(scheduler.complete(ticket, latency));
        }
    }
    scheduler.into_results()
}

fn artifact_of(action: CycleAction) -> String {
    match action {
        CycleAction::WriteArtifact(text) => text,
        other => panic!("expected the results file, got {:?}", other),
    }
}

#[test]
fn scenario_all_probes_succeed() {
    let config = config(true, 2);
    let mut driver = CycleDriver::new(config.clone());
    assert!(matches!(driver.step(CycleEvent::Wake, 100), CycleAction::Probe));
    let results = probe_all(&config, &[Some(5), Some(1), Some(3), Some(2)]);
    let artifact = artifact_of(driver.step(CycleEvent::ProbesFinished(results), 130));
    assert_eq!(artifact, "10.0.0.1,1\n10.0.0.3,2\n");
    match driver.step(CycleEvent::ArtifactWritten, 131) {
        CycleAction::UpdateDns(request) => {
            assert_eq!(request.content, "10.0.0.1");
            assert_eq!(request.name, "cdn.example.com");
            assert_eq!(
                request.url,
                "https://api.cloudflare.com/client/v4/zones/zone/dns_records/record"
            );
            assert_eq!(request.authorization, "Bearer SECRET-REDACTED");
        }
        other => panic!("expected a DNS update, got {:?}", other),
    }
    let answer = DnsResponse::Answered { success: true, errors: Vec::new() };
    match driver.step(CycleEvent::DnsAnswered(answer), 133) {
        CycleAction::ReportSuccess { elapsed_seconds } => assert_eq!(elapsed_seconds, 33),
        other => panic!("expected success, got {:?}", other),
    }
    assert_eq!(driver.current_state(), CycleState::Success);
}

#[test]
fn scenario_update_disabled_publishes_nothing() {
    let config = config(false, 2);
    let mut driver = CycleDriver::new(config.clone());
    driver.step(CycleEvent::Wake, 0);
    let results = probe_all(&config, &[Some(5), Some(1), Some(3), Some(2)]);
    let artifact = artifact_of(driver.step(CycleEvent::ProbesFinished(results), 1));
    assert_eq!(artifact, "10.0.0.1,1\n10.0.0.3,2\n");
    assert!(matches!(
        driver.step(CycleEvent::ArtifactWritten, 2),
        CycleAction::ReportSuccess { elapsed_seconds: 2 }
    ));
    assert_eq!(driver.current_state(), CycleState::Success);
}

#[test]
fn scenario_all_probes_time_out() {
    let config = config(true, 2);
    let mut driver = CycleDriver::new(config.clone());
    driver.step(CycleEvent::Wake, 10);
    let results = probe_all(&config, &[None, None, None, None]);
    assert_eq!(results.len(), 4);
    let artifact = artifact_of(driver.step(CycleEvent::ProbesFinished(results), 22));
    assert_eq!(artifact, "");
    assert!(matches!(
        driver.step(CycleEvent::ArtifactWritten, 22),
        CycleAction::ReportSuccess { elapsed_seconds: 12 }
    ));
    assert_eq!(driver.current_state(), CycleState::Success);
    assert!(matches!(
        driver.step(CycleEvent::Reported, 22),
        CycleAction::Sleep { seconds: 900 }
    ));
}

#[test]
fn scenario_provider_refuses_the_update() {
    let config = config(true, 2);
    let mut driver = CycleDriver::new(config.clone());
    driver.step(CycleEvent::Wake, 0);
    let results = probe_all(&config, &[Some(5), Some(1), Some(3), Some(2)]);
    let artifact = artifact_of(driver.step(CycleEvent::ProbesFinished(results), 5));
    assert_eq!(artifact, "10.0.0.1,1\n10.0.0.3,2\n");
    assert!(matches!(driver.step(CycleEvent::ArtifactWritten, 6), CycleAction::UpdateDns(_)));
    let errors = vec![ProviderError { code: 9109, message: "Invalid access token".to_string() }];
    let answer = DnsResponse::Answered { success: false, errors };
    match driver.step(CycleEvent::DnsAnswered(answer), 7) {
        CycleAction::ReportFailure {
            cause: CycleFailure::Collaborator(DnsFailure::Rejected(list)),
            elapsed_seconds,
        } => {
            assert_eq!(list.len(), 1);
            assert_eq!(list[0].code, 9109);
            assert_eq!(elapsed_seconds, 7);
        }
        other => panic!("expected a refusal, got {:?}", other),
    }
    assert_eq!(driver.current_state(), CycleState::Failed);
    assert!(matches!(
        driver.step(CycleEvent::Reported, 7),
        CycleAction::Sleep { seconds: 900 }
    ));
    assert_eq!(driver.current_state(), CycleState::Sleeping);
    assert!(matches!(driver.step(CycleEvent::SleepElapsed, 907), CycleAction::Resume));
    assert_eq!(driver.current_state(), CycleState::Idle);
    assert!(matches!(driver.step(CycleEvent::Wake, 907), CycleAction::Probe));
    assert_eq!(driver.current_state(), CycleState::Running(Stage::Probing));
}

#[test]
fn scenario_provider_cannot_be_reached() {
    let config = config(true, 1);
    let mut driver = CycleDriver::new(config.clone());
    driver.step(CycleEvent::Wake, 0);
    let results = probe_all(&config, &[Some(5), Some(1), Some(3), Some(2)]);
    driver.step(CycleEvent::ProbesFinished(results), 0);
    driver.step(CycleEvent::ArtifactWritten, 0);
    let answer = DnsResponse::Unreachable("timed out".to_string());
    match driver.step(CycleEvent::DnsAnswered(answer), 0) {
        CycleAction::ReportFailure {
            cause: CycleFailure::Collaborator(DnsFailure::Transport(reason)),
            ..
        } => assert_eq!(reason, "timed out"),
        other => panic!("expected a transport failure, got {:?}", other),
    }
    assert_eq!(driver.current_state(), CycleState::Failed);
}

#[test]
fn scenario_results_file_cannot_be_written() {
    let config = config(true, 2);
    let mut driver = CycleDriver::new(config.clone());
    driver.step(CycleEvent::Wake, 50);
    let results = probe_all(&config, &[Some(5), Some(1), Some(3), Some(2)]);
    driver.step(CycleEvent::ProbesFinished(results), 60);
    match driver.step(CycleEvent::ArtifactFailed("disk full".to_string()), 61) {
        CycleAction::ReportFailure {
            cause: CycleFailure::Persistence(reason),
            elapsed_seconds,
        } => {
            assert_eq!(reason, "disk full");
            assert_eq!(elapsed_seconds, 11);
        }
        other => panic!("expected a persistence failure, got {:?}", other),
    }
    assert_eq!(driver.current_state(), CycleState::Failed);
    assert!(matches!(
        driver.step(CycleEvent::Reported, 61),
        CycleAction::Sleep { seconds: 900 }
    ));
    assert!(matches!(driver.step(CycleEvent::SleepElapsed, 961), CycleAction::Resume));
    assert!(matches!(driver.step(CycleEvent::Wake, 961), CycleAction::Probe));
    let again = probe_all(&config, &[None, Some(4), None, None]);
    let artifact = artifact_of(driver.step(CycleEvent::ProbesFinished(again), 970));
    assert_eq!(artifact, "10.0.0.1,4\n");
    match driver.step(CycleEvent::ArtifactWritten, 971) {
        CycleAction::UpdateDns(request) => assert_eq!(request.content, "10.0.0.1"),
        other => panic!("expected a DNS update, got {:?}", other),
    }
}

#[test]
fn driver_starts_idle() {
    let driver = CycleDriver::new(config(true, 2));
    assert_eq!(driver.current_state(), CycleState::Idle);
    assert_eq!(driver.settings().optimization.run_interval_seconds, 900);
}

#[test]
fn event_out_of_place_is_ignored() {
    let mut driver = CycleDriver::new(config(true, 2));
    assert!(matches!(driver.step(CycleEvent::SleepElapsed, 0), CycleAction::Ignore));
    assert!(matches!(driver.step(CycleEvent::ArtifactWritten, 0), CycleAction::Ignore));
    assert!(matches!(driver.step(CycleEvent::Reported, 0), CycleAction::Ignore));
    assert_eq!(driver.current_state(), CycleState::Idle);
    driver.step(CycleEvent::Wake, 0);
    assert!(matches!(driver.step(CycleEvent::Wake, 5), CycleAction::Ignore));
    assert_eq!(driver.current_state(), CycleState::Running(Stage::Probing));
    let answer = DnsResponse::Answered { success: true, errors: Vec::new() };
    assert!(matches!(driver.step(CycleEvent::DnsAnswered(answer), 5), CycleAction::Ignore));
    assert_eq!(driver.current_state(), CycleState::Running(Stage::Probing));
}

#[test]
fn second_wake_does_not_restart_the_clock() {
    let mut driver = CycleDriver::new(config(false, 2));
    driver.step(CycleEvent::Wake, 100);
    driver.step(CycleEvent::Wake, 200);
    driver.step(CycleEvent::ProbesFinished(Vec::new()), 250);
    assert!(matches!(
        driver.step(CycleEvent::ArtifactWritten, 260),
        CycleAction::ReportSuccess { elapsed_seconds: 160 }
    ));
}

#[test]
fn clock_that_went_back_counts_as_no_time() {
    let mut driver = CycleDriver::new(config(false, 2));
    driver.step(CycleEvent::Wake, 100);
    driver.step(CycleEvent::ProbesFinished(Vec::new()), 90);
    assert!(matches!(
        driver.step(CycleEvent::ArtifactWritten, 90),
        CycleAction::ReportSuccess { elapsed_seconds: 0 }
    ));
}

#[test]
fn published_address_is_the_fastest_of_the_pass() {
    let config = config(true, 4);
    let mut driver = CycleDriver::new(config.clone());
    driver.step(CycleEvent::Wake, 0);
    let results = vec![
        ProbeResult { address: Address::V4(9), latency: Some(Latency { micros: 700 }) },
        ProbeResult { address: Address::V6(1), latency: Some(Latency { micros: 300 }) },
        ProbeResult { address: Address::V4(8), latency: Some(Latency { micros: 300 }) },
    ];
    let artifact = artifact_of(driver.step(CycleEvent::ProbesFinished(results), 0));
    assert_eq!(artifact, "::1,0\n0.0.0.8,0\n0.0.0.9,0\n");
    match driver.step(CycleEvent::ArtifactWritten, 0) {
        CycleAction::UpdateDns(request) => assert_eq!(request.content, "::1"),
        other => panic!("expected a DNS update, got {:?}", other),
    }
}
