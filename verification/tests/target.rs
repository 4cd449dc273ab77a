use otel_rust_agent::discovery::{Discovery, DiscoveryEvent, ProcessEntry, RETRY_INTERVAL_SECS};
use otel_rust_agent::errors::Error;
use otel_rust_agent::process::{Analyzer, TargetArgs};

fn target(exe_path: Option<&str>, pid: Option<i32>) -> TargetArgs {
    TargetArgs { exe_path: exe_path.map(|path| path.to_string()), pid }
}

fn process(pid: i32, exe: Option<&str>) -> ProcessEntry {
    ProcessEntry { pid, exe: exe.map(|path| path.to_string()) }
}

#[test]
fn validate_refuses_a_target_without_pid_and_path() {
    match target(None, None).validate() {
        Err(Error::InvalidTarget(detail)) => {
            assert_eq!(detail, "Either OTEL_TARGET_EXE or OTEL_TARGET_PID must be set");
        }
        other => panic!("unexpected outcome: {:?}", other),
    }
}

#[test]
fn validate_accepts_a_pid_or_a_path() {
    assert!(target(None, Some(42)).validate().is_ok());
    assert!(target(Some("server"), None).validate().is_ok());
    assert!(target(Some(""), None).validate().is_ok());
    assert!(target(None, Some(-1)).validate().is_ok());
}

#[test]
fn validate_refuses_a_target_with_pid_and_path() {
    match target(Some("nginx"), Some(1)).validate() {
        Err(Error::InvalidTarget(detail)) => {
            assert_eq!(detail, "Only one of OTEL_TARGET_EXE and OTEL_TARGET_PID may be set");
        }
        other => panic!("unexpected outcome: {:?}", other),
    }
    assert!(matches!(target(Some(""), Some(0)).validate(), Err(Error::InvalidTarget(_))));
    assert!(matches!(target(Some("server"), Some(-1)).validate(), Err(Error::InvalidTarget(_))));
}

#[test]
fn discovery_of_an_unnamed_target_fails_before_anything_is_looked_at() {
    let analyzer = Analyzer::new();
    let state = analyzer.begin_discovery(&target(None, None));
    match &state {
        Discovery::Failed(Error::InvalidTarget(detail)) => {
            assert_eq!(detail, "No valid target specified")
        }
        other => panic!("unexpected state: {:?}", other),
    }
    let state = analyzer.discover_process(state, DiscoveryEvent::Scanned(vec![process(1, Some("x"))]));
    assert!(matches!(state, Discovery::Failed(Error::InvalidTarget(_))));
}

#[test]
fn discovery_prefers_the_pid_to_the_path() {
    let analyzer = Analyzer::new();
    assert!(matches!(analyzer.begin_discovery(&target(Some("server"), Some(42))), Discovery::Probe(42)));
    assert!(matches!(analyzer.begin_discovery(&target(None, Some(42))), Discovery::Probe(42)));
    match analyzer.begin_discovery(&target(Some("server"), None)) {
        Discovery::Scan(needle) => assert_eq!(needle, "server"),
        other => panic!("unexpected state: {:?}", other),
    }
}

#[test]
fn a_live_pid_is_found() {
    let analyzer = Analyzer::new();
    let state = analyzer.begin_discovery(&target(None, Some(4242)));
    let state = analyzer.discover_process(state, DiscoveryEvent::Probed(true));
    assert!(matches!(state, Discovery::Found(4242)));
}

#[test]
fn a_missing_pid_fails_without_retry() {
    let analyzer = Analyzer::new();
    let state = analyzer.begin_discovery(&target(None, Some(4242)));
    let state = analyzer.discover_process(state, DiscoveryEvent::Probed(false));
    match &state {
        Discovery::Failed(Error::ProcessNotFound(detail)) => assert_eq!(detail, "PID 4242 not found"),
        other => panic!("unexpected state: {:?}", other),
    }
    let state = analyzer.discover_process(state, DiscoveryEvent::Waited);
    assert!(matches!(state, Discovery::Failed(Error::ProcessNotFound(_))));
    let state = analyzer.discover_process(state, DiscoveryEvent::Probed(true));
    assert!(matches!(state, Discovery::Failed(Error::ProcessNotFound(_))));
    let state = analyzer.discover_process(state, DiscoveryEvent::Shutdown);
    assert!(matches!(state, Discovery::Failed(Error::ProcessNotFound(_))));
}

#[test]
fn a_missing_negative_pid_is_written_with_its_sign() {
    let analyzer = Analyzer::new();
    let state = analyzer.discover_process(Discovery::Probe(i32::MIN), DiscoveryEvent::Probed(false));
    match state {
        Discovery::Failed(Error::ProcessNotFound(detail)) => {
            assert_eq!(detail, "PID -2147483648 not found")
        }
        other => panic!("unexpected state: {:?}", other),
    }
}

#[test]
fn a_scan_without_match_waits_one_second_and_scans_again() {
    let analyzer = Analyzer::new();
    let mut state = analyzer.begin_discovery(&target(Some("my-server"), None));
    for _ in 0..5 {
        let listing = vec![process(1, Some("/sbin/init")), process(2, None), process(3, Some("/bin/sh"))];
        state = analyzer.discover_process(state, DiscoveryEvent::Scanned(listing));
        match &state {
            Discovery::Sleep(needle, seconds) => {
                assert_eq!(needle, "my-server");
                assert_eq!(*seconds, 1);
                assert_eq!(*seconds, RETRY_INTERVAL_SECS);
            }
            other => panic!("unexpected state: {:?}", other),
        }
        state = analyzer.discover_process(state, DiscoveryEvent::Waited);
        match &state {
            Discovery::Scan(needle) => assert_eq!(needle, "my-server"),
            other => panic!("unexpected state: {:?}", other),
        }
    }
    let listing = vec![process(1, Some("/sbin/init")), process(77, Some("/opt/my-server/bin/run"))];
    state = analyzer.discover_process(state, DiscoveryEvent::Scanned(listing));
    assert!(matches!(state, Discovery::Found(77)));
}

#[test]
fn a_scan_of_an_empty_table_waits() {
    let analyzer = Analyzer::new();
    let state = analyzer.discover_process(Discovery::Scan("x".to_string()), DiscoveryEvent::Scanned(vec![]));
    assert!(matches!(state, Discovery::Sleep(_, 1)));
}

#[test]
fn shutdown_interrupts_a_search_and_gives_no_process() {
    let analyzer = Analyzer::new();
    let state = analyzer.discover_process(Discovery::Scan("server".to_string()), DiscoveryEvent::Shutdown);
    assert!(matches!(state, Discovery::Failed(Error::Interrupted)));
    let state = analyzer.discover_process(Discovery::Sleep("server".to_string(), 1), DiscoveryEvent::Shutdown);
    assert!(matches!(state, Discovery::Failed(Error::Interrupted)));
    let state = analyzer.discover_process(Discovery::Probe(5), DiscoveryEvent::Shutdown);
    assert!(matches!(state, Discovery::Failed(Error::Interrupted)));
    let state = analyzer.discover_process(state, DiscoveryEvent::Scanned(vec![process(9, Some("server"))]));
    assert!(matches!(state, Discovery::Failed(Error::Interrupted)));
}

#[test]
fn a_found_process_stays_found() {
    let analyzer = Analyzer::new();
    let state = analyzer.discover_process(Discovery::Found(12), DiscoveryEvent::Shutdown);
    assert!(matches!(state, Discovery::Found(12)));
    let state = analyzer.discover_process(state, DiscoveryEvent::Probed(false));
    assert!(matches!(state, Discovery::Found(12)));
}

#[test]
fn a_failed_listing_ends_the_search() {
    let analyzer = Analyzer::new();
    let state = analyzer.discover_process(
        Discovery::Scan("server".to_string()),
        DiscoveryEvent::ScanFailed("permission denied".to_string()),
    );
    match state {
        Discovery::Failed(Error::ProcessNotFound(detail)) => assert_eq!(detail, "permission denied"),
        other => panic!("unexpected state: {:?}", other),
    }
}

#[test]
fn a_report_that_answers_nothing_changes_nothing() {
    let analyzer = Analyzer::new();
    let state = analyzer.discover_process(Discovery::Probe(5), DiscoveryEvent::Waited);
    assert!(matches!(state, Discovery::Probe(5)));
    let state = analyzer.discover_process(state, DiscoveryEvent::Scanned(vec![process(5, Some("x"))]));
    assert!(matches!(state, Discovery::Probe(5)));
    let state = analyzer.discover_process(Discovery::Scan("x".to_string()), DiscoveryEvent::Probed(true));
    assert!(matches!(state, Discovery::Scan(_)));
    let state = analyzer.discover_process(state, DiscoveryEvent::Waited);
    assert!(matches!(state, Discovery::Scan(_)));
    let state = analyzer.discover_process(Discovery::Sleep("x".to_string(), 1), DiscoveryEvent::Scanned(vec![process(5, Some("x"))]));
    assert!(matches!(state, Discovery::Sleep(_, 1)));
    let state = analyzer.discover_process(state, DiscoveryEvent::ScanFailed("late".to_string()));
    assert!(matches!(state, Discovery::Sleep(_, 1)));
}

#[test]
fn find_process_takes_the_first_readable_path_that_contains_the_text() {
    let listing = vec![
        process(10, None),
        process(11, Some("/usr/bin/serve")),
        process(12, Some("/usr/bin/server")),
        process(13, Some("/opt/server/bin/main")),
    ];
    assert_eq!(Analyzer::find_process(&listing, "server"), Some(12));
    assert_eq!(Analyzer::find_process(&listing, "/opt/"), Some(13));
    assert_eq!(Analyzer::find_process(&listing, "serve"), Some(11));
    assert_eq!(Analyzer::find_process(&listing, "Server"), None);
    assert_eq!(Analyzer::find_process(&listing, "/usr/bin/server "), None);
    assert_eq!(Analyzer::find_process(&listing, ""), Some(11));
    assert_eq!(Analyzer::find_process(&[process(1, None)].to_vec(), ""), None);
    assert_eq!(Analyzer::find_process(&Vec::new(), "server"), None);
}

#[test]
fn find_process_matches_text_beyond_ascii() {
    let listing = vec![process(20, Some("/srv/caf\u{e9}/bin")), process(21, Some("/srv/\u{65e5}\u{672c}/bin"))];
    assert_eq!(Analyzer::find_process(&listing, "\u{e9}/b"), Some(20));
    assert_eq!(Analyzer::find_process(&listing, "\u{672c}"), Some(21));
    assert_eq!(Analyzer::find_process(&listing, "\u{65e5}/"), None);
}
