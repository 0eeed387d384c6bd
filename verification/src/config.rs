//! Immutable configuration snapshot for the process lifetime, derived
//! once from the parsed command line and passed explicitly into every
//! component.

use vstd::prelude::*;

verus! {

/// Parsed command line: an optional subcommand.
pub struct Cli {
    pub command: Option<Commands>,
}

/// The subcommands the proxy understands.
pub enum Commands {
    /// Write an editor debug configuration.
    Init { output: String, dynamics_port: u16, events_port: u16 },
    /// Write port-forwarding / firewall setup scripts for a remote host.
    Generate { address: String, port: u16, output: String },
    /// Run the proxy itself.
    Run {
        target_host: String,
        target_port: u16,
        dynamics_port: u16,
        events_port: u16,
        poll_interval: u64,
        verbose: bool,
        very_verbose: bool,
        long_paths: bool,
        dump: Option<String>,
        styleguide: Option<String>,
    },
}

/// The immutable settings the proxy runs with.
#[derive(Debug, Clone)]
pub struct Configuration {
    pub target_host: String,
    pub target_port: u16,
    pub dynamics_port: u16,
    pub events_port: u16,
    pub poll_interval: u64,
    pub verbose: bool,
    pub very_verbose: bool,
    pub long_paths: bool,
    pub dump_output: Option<String>,
    pub styleguide_version: Option<String>,
}

impl Configuration {
    /// Builds the configuration for a `run` invocation from its arguments.
    pub fn from_run_command(
        target_host: String,
        target_port: u16,
        dynamics_port: u16,
        events_port: u16,
        poll_interval: u64,
        verbose: bool,
        very_verbose: bool,
        long_paths: bool,
        dump_output: Option<String>,
        styleguide_version: Option<String>,
    ) -> (c: Self)
        ensures
            c.target_host == target_host,
            c.target_port == target_port,
            c.dynamics_port == dynamics_port,
            c.events_port == events_port,
            c.poll_interval == poll_interval,
            c.verbose == verbose,
            c.very_verbose == very_verbose,
            c.long_paths == long_paths,
            c.dump_output == dump_output,
            c.styleguide_version == styleguide_version,
    {
        Self {
            target_host,
            target_port,
            dynamics_port,
            events_port,
            poll_interval,
            verbose,
            very_verbose,
            long_paths,
            dump_output,
            styleguide_version,
        }
    }

    /// The settings used when no subcommand is given.
    pub fn default() -> (c: Self)
        ensures
            c.target_host@ == "localhost"@,
            c.target_port == 9222u16,
            c.dynamics_port == 9230u16,
            c.events_port == 9231u16,
            c.poll_interval == 5u64,
            !c.verbose,
            !c.very_verbose,
            !c.long_paths,
            c.dump_output is None,
            c.styleguide_version is None,
    {
        Self {
            target_host: "localhost".to_owned(),
            target_port: 9222,
            dynamics_port: 9230,
            events_port: 9231,
            poll_interval: 5,
            verbose: false,
            very_verbose: false,
            long_paths: false,
            dump_output: None,
            styleguide_version: None,
        }
    }
}

/// What a parsed command line means for the proxy: `Run` and a bare
/// invocation yield a configuration, the file-generation subcommands
/// do not start the proxy.
pub open spec fn spec_wants_proxy(cli: Cli) -> bool {
    match cli.command {
        Option::None => true,
        Option::Some(Commands::Run { .. }) => true,
        _ => false,
    }
}

/// Derives the proxy configuration from the parsed command line:
/// `run` arguments are adopted as given, a bare invocation uses the
/// defaults, and the file-generation subcommands yield no
/// configuration.
pub fn config(cli: Cli) -> (c: Option<Configuration>)
    ensures
        c is Some <==> spec_wants_proxy(cli),
        match cli.command {
            Option::Some(Commands::Run {
                target_host,
                target_port,
                dynamics_port,
                events_port,
                poll_interval,
                verbose,
                very_verbose,
                long_paths,
                dump,
                styleguide,
            }) => {
                &&& c matches Some(cfg)
                &&& cfg.target_host == target_host
                &&& cfg.target_port == target_port
                &&& cfg.dynamics_port == dynamics_port
                &&& cfg.events_port == events_port
                &&& cfg.poll_interval == poll_interval
                &&& cfg.verbose == verbose
                &&& cfg.very_verbose == very_verbose
                &&& cfg.long_paths == long_paths
                &&& cfg.dump_output == dump
                &&& cfg.styleguide_version == styleguide
            },
            Option::None => {
                &&& c matches Some(cfg)
                &&& cfg.target_host@ == "localhost"@
                &&& cfg.target_port == 9222u16
                &&& cfg.dynamics_port == 9230u16
                &&& cfg.events_port == 9231u16
                &&& cfg.poll_interval == 5u64
            },
            _ => c is None,
        },
{
    match cli.command {
        Option::Some(Commands::Run {
            target_host,
            target_port,
            dynamics_port,
            events_port,
            poll_interval,
            verbose,
            very_verbose,
            long_paths,
            dump,
            styleguide,
        }) => Some(Configuration::from_run_command(
            target_host,
            target_port,
            dynamics_port,
            events_port,
            poll_interval,
            verbose,
            very_verbose,
            long_paths,
            dump,
            styleguide,
        )),
        Option::None => Some(Configuration::default()),
        _ => None,
    }
}

} // verus!
