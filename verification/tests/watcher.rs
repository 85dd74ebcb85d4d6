use blendwerk::config::{plan_startup, CertMode, ConfigError, Options, TlsSource};
use blendwerk::request_logger::LogFormat;
use blendwerk::watcher::{
    step, triggers_reload, EventKind, WatcherAction, WatcherEvent, WatcherState, DEBOUNCE_MS,
};

fn run(events: &[WatcherEvent]) -> (WatcherState, usize) {
    let mut state = WatcherState::Idle;
    let mut recompilations = 0;
    for event in events {
        let (next, action) = step(state, *event);
        if action == WatcherAction::Recompile {
            recompilations += 1;
        }
        state = next;
    }
    (state, recompilations)
}

fn options() -> Options {
    Options {
        directory: "mocks".to_string(),
        directory_exists: true,
        directory_is_dir: true,
        http_port: 8080,
        https_port: 8443,
        http_only: false,
        https_only: false,
        cert_mode: CertMode::SelfSigned,
        cert_file: None,
        key_file: None,
        request_log: None,
        request_log_format: LogFormat::Json,
    }
}

#[test]
fn only_changes_to_files_ask_for_a_reload() {
    assert!(triggers_reload(EventKind::Create));
    assert!(triggers_reload(EventKind::Modify));
    assert!(triggers_reload(EventKind::Remove));
    assert!(!triggers_reload(EventKind::Access));
    assert!(!triggers_reload(EventKind::Other));
}

#[test]
fn a_burst_recompiles_once() {
    for count in [1usize, 2, 5, 100] {
        let mut events = vec![WatcherEvent::Changed(EventKind::Create)];
        for i in 1..count {
            let kind = if i % 2 == 0 { EventKind::Modify } else { EventKind::Access };
            events.push(WatcherEvent::Changed(kind));
        }
        events.push(WatcherEvent::WindowElapsed);
        assert_eq!(run(&events), (WatcherState::Idle, 1), "for {} events", count);
    }
}

#[test]
fn the_first_event_opens_the_window() {
    assert_eq!(DEBOUNCE_MS, 100);
    assert_eq!(
        step(WatcherState::Idle, WatcherEvent::Changed(EventKind::Modify)),
        (WatcherState::Debouncing, WatcherAction::StartWindow(100))
    );
    assert_eq!(
        step(WatcherState::Idle, WatcherEvent::Changed(EventKind::Access)),
        (WatcherState::Idle, WatcherAction::Nothing)
    );
    assert_eq!(
        step(WatcherState::Debouncing, WatcherEvent::Changed(EventKind::Remove)),
        (WatcherState::Debouncing, WatcherAction::Nothing)
    );
    assert_eq!(
        step(WatcherState::Debouncing, WatcherEvent::WindowElapsed),
        (WatcherState::Idle, WatcherAction::Recompile)
    );
    assert_eq!(
        step(WatcherState::Idle, WatcherEvent::WindowElapsed),
        (WatcherState::Idle, WatcherAction::Nothing)
    );
}

#[test]
fn shutdown_ends_the_watcher_for_good() {
    assert_eq!(
        step(WatcherState::Idle, WatcherEvent::Shutdown),
        (WatcherState::Stopped, WatcherAction::Stop)
    );
    assert_eq!(
        step(WatcherState::Debouncing, WatcherEvent::Shutdown),
        (WatcherState::Stopped, WatcherAction::Stop)
    );
    for event in [
        WatcherEvent::Changed(EventKind::Create),
        WatcherEvent::WindowElapsed,
        WatcherEvent::Shutdown,
    ] {
        assert_eq!(step(WatcherState::Stopped, event), (WatcherState::Stopped, WatcherAction::Nothing));
    }
}

#[test]
fn two_bursts_recompile_twice() {
    let events = [
        WatcherEvent::Changed(EventKind::Create),
        WatcherEvent::Changed(EventKind::Modify),
        WatcherEvent::WindowElapsed,
        WatcherEvent::Changed(EventKind::Remove),
        WatcherEvent::WindowElapsed,
        WatcherEvent::WindowElapsed,
    ];
    assert_eq!(run(&events), (WatcherState::Idle, 2));
}

#[test]
fn defaults_run_both_listeners() {
    let plan = plan_startup(&options()).unwrap();
    assert!(plan.run_http);
    assert!(plan.run_https);
    assert_eq!(plan.http_port, 8080);
    assert_eq!(plan.https_port, 8443);
    assert!(matches!(plan.tls, TlsSource::SelfSigned));
    assert!(plan.request_logger.is_none());
}

#[test]
fn single_listener_modes() {
    let plan = plan_startup(&Options { http_only: true, ..options() }).unwrap();
    assert!(plan.run_http && !plan.run_https);
    assert!(matches!(plan.tls, TlsSource::Off));
    let plan = plan_startup(&Options { https_only: true, ..options() }).unwrap();
    assert!(!plan.run_http && plan.run_https);
    let plan = plan_startup(&Options { cert_mode: CertMode::Off, ..options() }).unwrap();
    assert!(plan.run_http && !plan.run_https);
    assert!(matches!(plan.tls, TlsSource::Off));
}

#[test]
fn custom_certificate_needs_both_files() {
    let custom = Options {
        cert_mode: CertMode::Custom,
        cert_file: Some("cert.pem".to_string()),
        key_file: Some("key.pem".to_string()),
        request_log: Some("/var/log/mock".to_string()),
        request_log_format: LogFormat::Yaml,
        ..options()
    };
    let plan = plan_startup(&custom).unwrap();
    assert!(matches!(
        &plan.tls,
        TlsSource::Custom { cert_file, key_file } if cert_file == "cert.pem" && key_file == "key.pem"
    ));
    let logger = plan.request_logger.unwrap();
    assert_eq!(logger.base_dir(), "/var/log/mock");
    assert_eq!(logger.format(), LogFormat::Yaml);
    let missing = Options { key_file: None, ..custom };
    assert_eq!(plan_startup(&missing).unwrap_err(), ConfigError::MissingCertificateFiles);
}

#[test]
fn each_configuration_error_has_its_input() {
    let both = Options { http_only: true, https_only: true, ..options() };
    assert_eq!(plan_startup(&both).unwrap_err(), ConfigError::ConflictingModes);
    let gone = Options { directory_exists: false, directory_is_dir: false, ..options() };
    assert_eq!(plan_startup(&gone).unwrap_err(), ConfigError::DirectoryMissing);
    let file = Options { directory_is_dir: false, ..options() };
    assert_eq!(plan_startup(&file).unwrap_err(), ConfigError::NotADirectory);
    let none = Options { https_only: true, cert_mode: CertMode::Off, ..options() };
    assert_eq!(plan_startup(&none).unwrap_err(), ConfigError::NoServer);
    assert_eq!(
        ConfigError::DirectoryMissing.message("mocks"),
        "Directory 'mocks' does not exist"
    );
    assert_eq!(ConfigError::NotADirectory.message("mocks"), "'mocks' is not a directory");
    assert_eq!(
        ConfigError::NoServer.message("mocks"),
        "No server to run (both HTTP and HTTPS disabled)"
    );
}
