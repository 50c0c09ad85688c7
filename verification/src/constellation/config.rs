//! The constellation's configuration.

use vstd::prelude::*;
use vstd::string::*;

verus! {

/// All configuration of a constellation.
#[derive(Debug, Clone, PartialEq, Eq)]
pub struct ConstellationConfig {
    pub server: ServerConfig,
    pub dashboard: DashboardConfig,
    pub monitoring: MonitoringConfig,
}

/// How the constellation serves.
#[derive(Debug, Clone, PartialEq, Eq)]
pub struct ServerConfig {
    /// The address on which it listens.
    pub bind_address: String,
    /// How many connections it takes.
    pub max_connections: usize,
    /// Seconds between two heartbeats that it expects of a node.
    pub heartbeat_interval_seconds: u64,
    /// Seconds without a heartbeat after which a node counts as offline.
    pub node_timeout_seconds: u64,
    /// Seconds without a heartbeat after which a client counts as gone.
    pub client_timeout_seconds: u64,
}

/// How the dashboard looks and how often it is fed.
#[derive(Debug, Clone, PartialEq, Eq)]
pub struct DashboardConfig {
    pub title: String,
    /// Milliseconds between two pushes of the dashboard's data.
    pub refresh_interval_ms: u64,
    pub max_log_entries: usize,
}

/// What is measured, and for how long it is kept.
#[derive(Debug, Clone, PartialEq, Eq)]
pub struct MonitoringConfig {
    pub enable_metrics: bool,
    pub metrics_retention_hours: u64,
    pub alert_thresholds: AlertThresholds,
}

/// When to raise an alert, as far as it is counted in minutes.
#[derive(Debug, Clone, Copy, PartialEq, Eq)]
pub struct AlertThresholds {
    pub node_offline_minutes: u64,
    pub job_stalled_minutes: u64,
}

impl Default for ConstellationConfig {
    /// Port 3030 on every interface; heartbeats every half minute, a node
    /// offline after two minutes of silence, a client gone after five; the
    /// dashboard fed once a second.
    fn default() -> (config: ConstellationConfig)
        ensures
            config.server.bind_address@ == "0.0.0.0:3030"@,
            config.server.max_connections == 1000,
            config.server.heartbeat_interval_seconds == 30,
            config.server.node_timeout_seconds == 120,
            config.server.client_timeout_seconds == 300,
            config.dashboard.title@ == "Ferris Swarm Constellation"@,
            config.dashboard.refresh_interval_ms == 1000,
            config.dashboard.max_log_entries == 1000,
            config.monitoring.enable_metrics,
            config.monitoring.metrics_retention_hours == 24,
            config.monitoring.alert_thresholds.node_offline_minutes == 5,
            config.monitoring.alert_thresholds.job_stalled_minutes == 30,
    {
        ConstellationConfig {
            server: ServerConfig {
                bind_address: String::from_str("0.0.0.0:3030"),
                max_connections: 1000,
                heartbeat_interval_seconds: 30,
                node_timeout_seconds: 120,
                client_timeout_seconds: 300,
            },
            dashboard: DashboardConfig {
                title: String::from_str("Ferris Swarm Constellation"),
                refresh_interval_ms: 1000,
                max_log_entries: 1000,
            },
            monitoring: MonitoringConfig {
                enable_metrics: true,
                metrics_retention_hours: 24,
                alert_thresholds: AlertThresholds {
                    node_offline_minutes: 5,
                    job_stalled_minutes: 30,
                },
            },
        }
    }
}


/// What the command line says of how the constellation is to start.
#[derive(Debug, Clone, PartialEq, Eq)]
pub struct StartOptions {
    /// `--bind`: the address on which to listen.
    pub bind: Option<String>,
    /// `--nodes-config`: the manifest of nodes.
    pub nodes_config: Option<String>,
    /// `--auto-register`: register the nodes of the manifest.
    pub auto_register: bool,
    /// `--no-mdns`: do not advertise the constellation on the network.
    pub no_mdns: bool,
}

/// How the constellation starts.
#[derive(Debug, Clone, PartialEq, Eq)]
pub struct StartPlan {
    /// The address on which it listens.
    pub bind_address: String,
    /// The manifest whose nodes are registered, now and then; none where
    /// that is not asked for, or where no manifest is named.
    pub manifest: Option<String>,
    /// Whether it advertises itself on the network.
    pub advertise: bool,
}

/// Plans the start of a constellation.
///
/// It listens where the command line says, or else where the configuration
/// says. The nodes of a manifest are registered only if that is asked for
/// and a manifest is named. The constellation advertises itself unless told
/// not to.
pub fn start_constellation(options: StartOptions, config: &ConstellationConfig) -> (plan: StartPlan)
    ensures
        plan.bind_address@ == match options.bind {
            Some(address) => address@,
            None => config.server.bind_address@,
        },
        plan.manifest == if options.auto_register {
            options.nodes_config
        } else {
            None
        },
        plan.advertise == !options.no_mdns,
{
    StartPlan {
        bind_address: match options.bind {
            Some(address) => address,
            None => config.server.bind_address.clone(),
        },
        manifest: if options.auto_register {
            options.nodes_config
        } else {
            None
        },
        advertise: !options.no_mdns,
    }
}

} // verus!
