//! Catalog partitioning and rewriting, configuration derivation, and
//! styleguide version validation.

use wincc_debug_proxy::catalog::{
    fallback_version_doc, local_ws_url, partition_targets, rewrite_catalog, DebugTarget,
};
use wincc_debug_proxy::config::{config, Cli, Commands, Configuration};
use wincc_debug_proxy::styleguide::{get_version_assets, StyleguideError};

fn target(title: &str, ws_url: &str) -> DebugTarget {
    DebugTarget {
        description: "desc".to_string(),
        devtools_frontend_url: "fe".to_string(),
        id: "id".to_string(),
        title: title.to_string(),
        target_type: "page".to_string(),
        url: "u".to_string(),
        web_socket_debugger_url: ws_url.to_string(),
    }
}

#[test]
fn partition_is_case_insensitive_on_the_keyword() {
    let targets = vec![
        target("VCS_3 Dynamics", "ws://h/a"),
        target("VCS_5 EVENTS", "ws://h/b"),
        target("unrelated", "ws://h/c"),
    ];
    let (dynamics, events) = partition_targets(&targets);
    assert_eq!(dynamics.len(), 1);
    assert_eq!(dynamics[0].title, "VCS_3 Dynamics");
    assert_eq!(events.len(), 1);
    assert_eq!(events[0].title, "VCS_5 EVENTS");
}

#[test]
fn partition_puts_a_double_match_in_both_categories() {
    let targets = vec![target("Dynamics and Events", "ws://h/a")];
    let (dynamics, events) = partition_targets(&targets);
    assert_eq!(dynamics.len(), 1);
    assert_eq!(events.len(), 1);
}

#[test]
fn local_ws_url_renders_the_port_in_decimal() {
    assert_eq!(local_ws_url(9230), "ws://localhost:9230");
    assert_eq!(local_ws_url(80), "ws://localhost:80");
}

#[test]
fn rewrite_catalog_filters_and_points_at_the_local_port() {
    let targets = vec![
        target("VCS_3 Dynamics", "ws://upstream:9222/page/AAA"),
        target("VCS_5 Events", "ws://upstream:9222/page/BBB"),
    ];
    let served = rewrite_catalog(&targets, "Dynamics", 9230);
    assert_eq!(served.len(), 1);
    assert_eq!(served[0].title, "VCS_3 Dynamics");
    assert_eq!(served[0].web_socket_debugger_url, "ws://localhost:9230");
    assert_eq!(served[0].description, "desc");
    assert_eq!(served[0].id, "id");
}

#[test]
fn rewrite_catalog_filter_is_case_sensitive() {
    let targets = vec![target("VCS_3 dynamics", "ws://h/a")];
    let served = rewrite_catalog(&targets, "Dynamics", 9230);
    assert!(served.is_empty());
}

#[test]
fn fallback_version_doc_is_the_fixed_document() {
    assert_eq!(
        fallback_version_doc(),
        "{\"Browser\":\"WinCC-Proxy/1.0\",\"Protocol-Version\":\"1.3\"}"
    );
}

#[test]
fn bare_invocation_uses_the_defaults() {
    let cfg = config(Cli { command: None }).unwrap();
    assert_eq!(cfg.target_host, "localhost");
    assert_eq!(cfg.target_port, 9222);
    assert_eq!(cfg.dynamics_port, 9230);
    assert_eq!(cfg.events_port, 9231);
    assert_eq!(cfg.poll_interval, 5);
    assert!(!cfg.verbose);
    assert!(!cfg.long_paths);
    assert!(cfg.dump_output.is_none());
    assert!(cfg.styleguide_version.is_none());
}

#[test]
fn run_command_is_adopted_as_given() {
    let cli = Cli {
        command: Some(Commands::Run {
            target_host: "192.168.1.100".to_string(),
            target_port: 9222,
            dynamics_port: 9240,
            events_port: 9241,
            poll_interval: 2,
            verbose: true,
            very_verbose: false,
            long_paths: true,
            dump: Some("./output".to_string()),
            styleguide: Some("v19".to_string()),
        }),
    };
    let cfg = config(cli).unwrap();
    assert_eq!(cfg.target_host, "192.168.1.100");
    assert_eq!(cfg.dynamics_port, 9240);
    assert_eq!(cfg.events_port, 9241);
    assert_eq!(cfg.poll_interval, 2);
    assert!(cfg.verbose);
    assert!(!cfg.very_verbose);
    assert!(cfg.long_paths);
    assert_eq!(cfg.dump_output, Some("./output".to_string()));
    assert_eq!(cfg.styleguide_version, Some("v19".to_string()));
}

#[test]
fn file_generation_commands_yield_no_proxy_configuration() {
    let init = Cli {
        command: Some(Commands::Init {
            output: ".".to_string(),
            dynamics_port: 9230,
            events_port: 9231,
        }),
    };
    assert!(config(init).is_none());
    let generate = Cli {
        command: Some(Commands::Generate {
            address: "10.0.0.1".to_string(),
            port: 9222,
            output: ".".to_string(),
        }),
    };
    assert!(config(generate).is_none());
}

#[test]
fn from_run_command_copies_every_field() {
    let cfg = Configuration::from_run_command(
        "host".to_string(),
        1,
        2,
        3,
        4,
        true,
        true,
        false,
        None,
        None,
    );
    assert_eq!(cfg.target_host, "host");
    assert_eq!(cfg.target_port, 1);
    assert_eq!(cfg.dynamics_port, 2);
    assert_eq!(cfg.events_port, 3);
    assert_eq!(cfg.poll_interval, 4);
    assert!(cfg.verbose && cfg.very_verbose);
    assert!(!cfg.long_paths);
}

#[test]
fn default_configuration_matches_the_documented_values() {
    let cfg = Configuration::default();
    assert_eq!(cfg.target_host, "localhost");
    assert_eq!(cfg.target_port, 9222);
}

#[test]
fn every_supported_styleguide_version_resolves() {
    assert_eq!(get_version_assets("v17").unwrap().dts_filename, "ua_rt_device.d.ts");
    assert_eq!(get_version_assets("v18").unwrap().dts_filename, "ua_rt_device_V18.d.ts");
    assert_eq!(get_version_assets("v19").unwrap().dts_filename, "ua_rt_device_V19.d.ts");
    assert_eq!(get_version_assets("v20").unwrap().dts_filename, "ua_rt_device_V20.d.ts");
    assert_eq!(get_version_assets("v21").unwrap().dts_filename, "ua_rt_device_V21.d.ts");
}

#[test]
fn unknown_styleguide_version_is_refused() {
    assert!(matches!(get_version_assets("v16"), Err(StyleguideError::UnknownVersion)));
    assert!(matches!(get_version_assets(""), Err(StyleguideError::UnknownVersion)));
    assert!(matches!(get_version_assets("V19"), Err(StyleguideError::UnknownVersion)));
}
