//! Command line, logging and limits.
use portail::cli::{
    admin_endpoint, configuration_summary, generated_header, max_blocking_threads, output_format,
    run_mode, startup_listeners, worker_threads, OutputError, OutputFormat, RunMode,
};
use portail::config::{GatewayConfig, HttpRouteConfig, ListenerConfig, PortailConfig, Protocol};
use portail::logging::{log_plan, LogFormat, LogLevel, LogOutput, LogPlan, LogStyle, LoggingConfig};
use portail::privileges::raised_nofile_limit;

fn listener(protocol: Protocol, port: u16) -> ListenerConfig {
    ListenerConfig {
        name: "l".to_string(),
        protocol,
        port,
        target_port: None,
        hostname: None,
        address: None,
        interface: None,
        tls: None,
    }
}

#[test]
fn soft_limit_is_raised_once() {
    assert_eq!(raised_nofile_limit(1024, 524_288), Some(524_288));
    assert_eq!(raised_nofile_limit(524_288, 524_288), None);
}

#[test]
fn first_flag_decides() {
    assert_eq!(run_mode(true, true, true, true), RunMode::PrintFeatures);
    assert_eq!(run_mode(false, true, true, true), RunMode::Generate);
    assert_eq!(run_mode(false, false, true, true), RunMode::Validate);
    assert_eq!(run_mode(false, false, false, true), RunMode::Example);
    assert_eq!(run_mode(false, false, false, false), RunMode::Serve);
}

#[test]
fn thread_counts() {
    let var = |s: &str| Some(s.to_string());
    assert_eq!(worker_threads(&var("16"), Some(2)), 16);
    assert_eq!(worker_threads(&var("0"), Some(64)), 4);
    assert_eq!(worker_threads(&var("many"), Some(3)), 3);
    assert_eq!(worker_threads(&None, None), 2);
    assert_eq!(max_blocking_threads(&var("7")), 7);
    assert_eq!(max_blocking_threads(&var("-7")), 32);
    assert_eq!(max_blocking_threads(&None), 32);
}

#[test]
fn kubernetes_binds_nothing_at_start() {
    let configured = vec![listener(Protocol::HTTP, 8080)];
    assert!(startup_listeners(true, &configured).is_empty());
    assert_eq!(startup_listeners(false, &configured), configured);
}

#[test]
fn admin_endpoints() {
    assert_eq!(admin_endpoint(true, 8081, Some(9000)), Some((8081, false)));
    assert_eq!(admin_endpoint(false, 8081, Some(9000)), Some((9000, true)));
    assert_eq!(admin_endpoint(false, 8081, None), None);
}

#[test]
fn summary_counts_routes_and_ports() {
    let config = PortailConfig {
        gateway: GatewayConfig {
            name: "gw".to_string(),
            listeners: vec![
                listener(Protocol::HTTP, 80),
                listener(Protocol::TCP, 5432),
                listener(Protocol::HTTPS, 443),
            ],
            addresses: vec![],
        },
        http_routes: vec![HttpRouteConfig::default(), HttpRouteConfig::default()],
        ..Default::default()
    };
    assert_eq!(
        configuration_summary(&config),
        "Configuration Summary:\n  HTTP Routes: 2\n  TCP Routes: 0\n  HTTP Listeners: [80, 443]\n"
    );
}

#[test]
fn output_formats() {
    let ext = |s: &str| Some(s.to_string());
    assert_eq!(output_format(&ext("json")), Ok(OutputFormat::Json));
    assert_eq!(output_format(&ext("yaml")), Ok(OutputFormat::Yaml));
    assert_eq!(output_format(&ext("yml")), Ok(OutputFormat::Yaml));
    let e = output_format(&ext("toml")).unwrap_err();
    assert_eq!(e, OutputError::UnsupportedExtension("toml".to_string()));
    assert_eq!(
        e.message(),
        "Unsupported output file extension: .toml. Supported formats: .json, .yaml, .yml"
    );
    assert_eq!(
        output_format(&None).unwrap_err().message(),
        "Output file must have an extension (.json, .yaml, .yml)"
    );
    assert_eq!(
        generated_header("minimal"),
        "# Generated minimal configuration (YAML)\n# Use --output <file> to save to a file\n\n"
    );
}

#[test]
fn log_plans() {
    let config = |level, format| {
        Some(LoggingConfig { level, format, output: LogOutput::Stdout })
    };
    assert_eq!(
        log_plan(0, &config(LogLevel::Error, LogFormat::Pretty), false),
        LogPlan {
            level: LogLevel::Error,
            style: LogStyle::Pretty,
            with_target: true,
            with_location: false,
        }
    );
    // Verbosity overrides the configured level.
    assert_eq!(log_plan(1, &config(LogLevel::Error, LogFormat::Json), true).level, LogLevel::Debug);
    let trace = log_plan(3, &config(LogLevel::Error, LogFormat::Compact), true);
    assert_eq!((trace.level, trace.with_location), (LogLevel::Trace, true));
    assert!(!log_plan(3, &config(LogLevel::Trace, LogFormat::Json), true).with_location);
    assert!(log_plan(0, &config(LogLevel::Debug, LogFormat::Compact), true).with_location);
    assert_eq!(
        log_plan(0, &None, false),
        LogPlan {
            level: LogLevel::Warn,
            style: LogStyle::Compact,
            with_target: false,
            with_location: false,
        }
    );
    let levels = |debug_build| {
        [0u8, 1, 2, 3].map(|v| log_plan(v, &None, debug_build).level.name())
    };
    assert_eq!(levels(false), ["warn", "info", "debug", "trace"]);
    assert_eq!(levels(true), ["info", "debug", "trace", "trace"]);
}
