use ajar_gateway::cli::{log_event, parse_config_path, ConfigPathSource, GatewayBinaryError, LogLine};
use ajar_gateway::config::{default_max_body_bytes, default_request_timeout_ms, GatewayConfig, ListenAddr};
use ajar_gateway::error::ServingError;
use ajar_gateway::extractor::ExtractorError;
use ajar_gateway::harvester::HarvesterError;
use ajar_gateway::inducer::InducerError;
use ajar_gateway::policy_engine::{PolicyEngineError, PolicyVerdict};
use ajar_gateway::serve::{
    serve_until_shutdown, shutdown_signal, ServeAction, ServeEvent, ShutdownAction, ShutdownEvent,
};
use ajar_gateway::signer::SignerError;
use ajar_gateway::store::StoreError;
use ajar_gateway::uri::UriParts;
use std::io::{Error, ErrorKind};

const PUBLIC: ListenAddr = ListenAddr::V4 {
    octets: [127, 0, 0, 1],
    port: 8081,
};
const ADMIN: ListenAddr = ListenAddr::V6 {
    segments: [0, 0, 0, 0, 0, 0, 0, 1],
    port: 9090,
    flowinfo: 0,
    scope_id: 0,
};

fn config(origin_url: &str) -> GatewayConfig {
    GatewayConfig {
        origin_url: origin_url.to_owned(),
        listen_addr: PUBLIC,
        admin_addr: ADMIN,
        request_timeout_ms: 5_000,
        max_body_bytes: 1024,
    }
}

fn refused(config: GatewayConfig) -> &'static str {
    config.validate().err().unwrap().message()
}

#[test]
fn defaults_are_the_documented_budgets() {
    assert_eq!(default_request_timeout_ms(), 30000);
    assert_eq!(default_max_body_bytes(), 10485760);
}

#[test]
fn valid_configuration_keeps_what_it_names() {
    let validated = config("HTTP://user@example.org:8080/base?x=1").validate().unwrap();
    assert_eq!(validated.origin_scheme(), "http");
    assert_eq!(validated.origin_authority(), "user@example.org:8080");
    assert_eq!(validated.listen_addr(), PUBLIC);
    assert_eq!(validated.admin_addr(), ADMIN);
    assert_eq!(validated.request_timeout_ms(), 5_000);
    assert_eq!(validated.max_body_bytes(), 1024);
    assert_eq!(validated.clone().origin_authority(), "user@example.org:8080");
}

#[test]
fn each_fault_of_a_configuration() {
    let invalid = "origin_url must be an absolute URL with scheme and authority";
    assert_eq!(refused(config("")), invalid);
    assert_eq!(refused(config("not a url")), invalid);
    assert_eq!(refused(config("/path")), invalid);
    assert_eq!(refused(config("example.org")), invalid);
    assert_eq!(refused(config("http://")), invalid);
    assert_eq!(refused(config("https://example.org")), "origin_url must use http for T1.1");
    let mut zero = config("http://example.org");
    zero.request_timeout_ms = 0;
    zero.max_body_bytes = 0;
    assert_eq!(refused(zero.clone()), "request_timeout_ms must be greater than zero");
    zero.request_timeout_ms = 1;
    assert_eq!(refused(zero), "max_body_bytes must be greater than zero");
}

#[test]
fn configuration_is_validated_from_what_its_origin_spells() {
    let parts = |scheme: Option<&str>, authority: Option<&str>| {
        Some(UriParts {
            scheme: scheme.map(|text| text.to_owned()),
            authority: authority.map(|text| text.to_owned()),
            path_and_query: None,
        })
    };
    let config = config("unread");
    assert!(matches!(config.validate_parsed(None), Err(ServingError::InvalidOriginUrl)));
    assert!(matches!(
        config.validate_parsed(parts(None, Some("a"))),
        Err(ServingError::InvalidOriginUrl)
    ));
    assert!(matches!(
        config.validate_parsed(parts(Some("ftp"), None)),
        Err(ServingError::UnsupportedOriginScheme)
    ));
    assert!(matches!(
        config.validate_parsed(parts(Some("http"), None)),
        Err(ServingError::InvalidOriginUrl)
    ));
    assert!(config.validate_parsed(parts(Some("http"), Some("a"))).is_ok());
}

fn args(texts: &[&str]) -> Vec<String> {
    texts.iter().map(|text| text.to_string()).collect()
}

#[test]
fn last_option_names_the_configuration() {
    let source = |texts: &[&str], env| parse_config_path(&args(texts), env).unwrap();
    assert_eq!(source(&[], true), ConfigPathSource::Environment);
    assert_eq!(source(&["--config", "a"], true), ConfigPathSource::Argument(1));
    assert_eq!(source(&["--config", "a"], false), ConfigPathSource::Argument(1));
    assert_eq!(
        source(&["--config", "a", "--config", "--config"], false),
        ConfigPathSource::Argument(3)
    );
}

#[test]
fn each_fault_of_a_command_line() {
    let message = |texts: &[&str], env| parse_config_path(&args(texts), env).unwrap_err().public_message();
    assert_eq!(
        message(&[], false),
        "missing config path; set AJAR_GATEWAY_CONFIG or pass --config"
    );
    assert_eq!(message(&["--config"], true), "missing value after --config");
    assert_eq!(
        message(&["--config", "a", "--config"], true),
        "missing value after --config"
    );
    assert_eq!(message(&["--verbose"], true), "unknown argument: --verbose");
    assert_eq!(message(&["--config", "a", "b", "c"], true), "unknown argument: b");
    assert_eq!(message(&["--config", "a", "b", "--config"], true), "unknown argument: b");
}

#[test]
fn startup_errors_have_public_messages() {
    assert_eq!(GatewayBinaryError::ConfigRead.public_message(), "failed to read config");
    assert_eq!(GatewayBinaryError::ConfigParse.public_message(), "failed to parse config");
    let bind = ServingError::BindFailed(Error::from(ErrorKind::AddrInUse));
    assert_eq!(GatewayBinaryError::Serving(bind).public_message(), "listener bind failed");
}

#[test]
fn log_lines_say_what_happened() {
    let line = LogLine::gateway_starting("/etc/gateway.toml".to_owned());
    assert_eq!((line.level, line.event), ("info", "gateway_starting"));
    assert_eq!(line.fields, [("config_path", "/etc/gateway.toml".to_owned())]);
    let line = LogLine::gateway_stopped();
    assert_eq!((line.level, line.event), ("info", "gateway_stopped"));
    assert!(line.fields.is_empty());
    let line = LogLine::gateway_start_failed(&GatewayBinaryError::ConfigRead);
    assert_eq!((line.level, line.event), ("error", "gateway_start_failed"));
    assert_eq!(line.fields, [("error", "failed to read config".to_owned())]);
}

#[test]
fn line_that_cannot_be_encoded_is_replaced() {
    assert_eq!(log_event(Some("{}".to_owned())), "{}");
    assert_eq!(
        log_event(None),
        r#"{"level":"error","event":"logger_encode_failed","fields":{}}"#
    );
}

#[test]
fn both_listeners_are_bound_before_serving() {
    let run = serve_until_shutdown(&config("http://example.org")).unwrap();
    assert!(matches!(run.action(), ServeAction::BindPublic(addr) if addr == PUBLIC));
    let run = run.advance(ServeEvent::Bound).unwrap();
    assert!(matches!(run.action(), ServeAction::BindAdmin(addr) if addr == ADMIN));
    let run = run.advance(ServeEvent::Bound).unwrap();
    assert!(matches!(run.action(), ServeAction::Serve));
    assert_eq!(run.config().max_body_bytes(), 1024);
    let run = run.advance(ServeEvent::ServersStopped).unwrap();
    assert!(matches!(run.action(), ServeAction::Finish));
}

#[test]
fn invalid_configuration_binds_nothing() {
    assert!(matches!(
        serve_until_shutdown(&config("https://example.org")),
        Err(ServingError::UnsupportedOriginScheme)
    ));
}

#[test]
fn failure_ends_the_run_with_its_error() {
    let begin = || serve_until_shutdown(&config("http://example.org")).unwrap();
    let error = || Error::from(ErrorKind::AddrInUse);
    assert!(matches!(
        begin().advance(ServeEvent::BindFailed(error())),
        Err(ServingError::BindFailed(error)) if error.kind() == ErrorKind::AddrInUse
    ));
    let run = begin().advance(ServeEvent::Bound).unwrap();
    assert!(matches!(
        run.advance(ServeEvent::BindFailed(error())),
        Err(ServingError::BindFailed(_))
    ));
    let serving = || begin().advance(ServeEvent::Bound).unwrap().advance(ServeEvent::Bound).unwrap();
    let failed = serving().advance(ServeEvent::ProxyFailed(error())).err().unwrap();
    assert_eq!(failed.message(), "proxy server failed");
    let failed = serving().advance(ServeEvent::AdminFailed(error())).err().unwrap();
    assert_eq!(failed.message(), "admin server failed");
}

#[test]
fn servers_stop_on_the_flag_or_without_a_sender() {
    assert!(matches!(shutdown_signal(ShutdownEvent::Flag(true)), ShutdownAction::Stop));
    assert!(matches!(
        shutdown_signal(ShutdownEvent::Flag(false)),
        ShutdownAction::AwaitChange
    ));
    assert!(matches!(shutdown_signal(ShutdownEvent::Changed), ShutdownAction::ReadFlag));
    assert!(matches!(shutdown_signal(ShutdownEvent::SenderGone), ShutdownAction::Stop));
}

#[test]
fn module_errors_have_messages() {
    assert_eq!(ExtractorError::InvalidInput.message(), "extractor input invalid");
    assert_eq!(ExtractorError::InvalidRule.message(), "extraction rule invalid");
    assert_eq!(HarvesterError::SourceUnavailable.message(), "collector source unavailable");
    assert_eq!(HarvesterError::SourceInvalid.message(), "collector source invalid");
    assert_eq!(InducerError::ProviderUnavailable.message(), "induction provider unavailable");
    assert_eq!(InducerError::InvalidArtifact.message(), "induced artifact invalid");
    assert_eq!(PolicyEngineError::InvalidPolicy.message(), "policy document invalid");
    assert_eq!(SignerError::KeyNotFound.message(), "key not found");
    assert_eq!(SignerError::KeyStoreUnavailable.message(), "key store unavailable");
    assert_eq!(SignerError::SignatureFailed.message(), "signature failed");
    assert_eq!(StoreError::NotFound.message(), "record not found");
    assert_eq!(StoreError::BackendUnavailable.message(), "storage backend unavailable");
    assert_eq!(StoreError::RecordInvalid.message(), "stored record invalid");
    assert_ne!(PolicyVerdict::Allow, PolicyVerdict::Deny);
}
