//! Configuration of the job server and the agents.
//!
//! Supports all three deployment topologies:
//! - Cloud:  `plat_trunk.url` points at the hosted worker;
//! - LAN:    `plat_trunk.url` is `http://localhost:3000`;
//! - Hybrid: `plat_trunk.url` is `http://localhost:3000` (syncs to the cloud separately).
//!
//! Reading the file and the environment happens in the program; the defaults, the
//! topology and the overrides are decided here.  The coil sensor's settings are
//! measurements in kilograms and metres and stay with the program.
use vstd::prelude::*;

use crate::text::{contains, contains_exec, owned, spec_to_lowercase, str_eq, to_lowercase};

verus! {

/// How uploaded CSVs reach the machine.
#[derive(Debug, Clone, Copy, PartialEq, Eq, Structural)]
pub enum DeliveryMode {
    /// The file watcher writes the CSV directly to the machine input directory.
    Direct,
    /// The file watcher holds the CSV in the queue; the agent picks it up over HTTP.
    Queue,
}

impl Default for DeliveryMode {
    fn default() -> (m: Self)
        ensures
            m == DeliveryMode::Direct,
    {
        DeliveryMode::Direct
    }
}

/// The OPC UA server's address and name.
pub struct OpcUaConfig {
    pub host: String,
    pub port: u16,
    pub application_name: String,
}

/// The machine and its directories.
pub struct MachineConfig {
    pub machine_name: String,
    pub job_input_dir: String,
    pub machine_input_dir: String,
    pub machine_output_dir: String,
    /// Set when running on a board that acts as the machine's USB stick: after each CSV
    /// write the storage is presented to the machine again.
    pub usb_gadget_mode: bool,
    pub delivery_mode: DeliveryMode,
}

/// The HTTP status server's address.
pub struct HttpConfig {
    pub host: String,
    pub port: u16,
}

/// The connection back to the job backend, the same HTTP API in every topology.
pub struct PlatTrunkConfig {
    pub url: String,
    pub api_key: String,
    pub status_push_interval_secs: u64,
}

/// The configuration of a job server or agent.
pub struct Config {
    pub opcua: OpcUaConfig,
    pub machine: MachineConfig,
    pub plat_trunk: PlatTrunkConfig,
    pub http: HttpConfig,
}

/// How often, in seconds, the coil sensor pushes a reading when the configuration
/// does not say.
pub fn default_sensor_poll_secs() -> (secs: u64)
    ensures
        secs == 30,
{
    30
}

/// The defaults: everything on this host, direct delivery.
pub open spec fn is_default_config(c: Config) -> bool {
    &&& c.opcua.host@ == "0.0.0.0"@
    &&& c.opcua.port == 4840
    &&& c.opcua.application_name@ == "Howick Edge Agent"@
    &&& c.machine.machine_name@ == "Howick FRAMA"@
    &&& c.machine.job_input_dir@ == "./jobs/input"@
    &&& c.machine.machine_input_dir@ == "./jobs/machine"@
    &&& c.machine.machine_output_dir@ == "./jobs/output"@
    &&& !c.machine.usb_gadget_mode
    &&& c.machine.delivery_mode == DeliveryMode::Direct
    &&& c.http.host@ == "0.0.0.0"@
    &&& c.http.port == 4841
    &&& c.plat_trunk.url@ == "http://localhost:3000"@
    &&& c.plat_trunk.api_key@.len() == 0
    &&& c.plat_trunk.status_push_interval_secs == 5
}

impl Default for Config {
    fn default() -> (c: Self)
        ensures
            is_default_config(c),
    {
        Config {
            opcua: OpcUaConfig {
                host: owned("0.0.0.0"),
                port: 4840,
                application_name: owned("Howick Edge Agent"),
            },
            machine: MachineConfig {
                machine_name: owned("Howick FRAMA"),
                job_input_dir: owned("./jobs/input"),
                machine_input_dir: owned("./jobs/machine"),
                machine_output_dir: owned("./jobs/output"),
                usb_gadget_mode: false,
                delivery_mode: DeliveryMode::Direct,
            },
            http: HttpConfig { host: owned("0.0.0.0"), port: 4841 },
            plat_trunk: PlatTrunkConfig {
                url: owned("http://localhost:3000"),
                api_key: String::new(),
                status_push_interval_secs: 5,
            },
        }
    }
}

/// The topology a backend URL implies: `LAN` when it names this host, `Cloud` otherwise.
pub open spec fn spec_topology(url: Seq<char>) -> Seq<char> {
    if contains(url, "localhost"@) || contains(url, "127.0.0.1"@) {
        "LAN"@
    } else {
        "Cloud"@
    }
}

/// The delivery mode after a `DELIVERY_MODE` override: `queue` or `direct` in any case,
/// anything else leaves the mode as it was.
pub open spec fn mode_override(current: DeliveryMode, text: Seq<char>) -> DeliveryMode {
    if spec_to_lowercase(text) == "queue"@ {
        DeliveryMode::Queue
    } else if spec_to_lowercase(text) == "direct"@ {
        DeliveryMode::Direct
    } else {
        current
    }
}

impl Config {
    /// The deployment topology: `LAN` when the backend runs on this host, else `Cloud`.
    pub fn topology(&self) -> (t: &'static str)
        ensures
            t@ == spec_topology(self.plat_trunk.url@),
    {
        let url = self.plat_trunk.url.as_str();
        if contains_exec(url, "localhost") || contains_exec(url, "127.0.0.1") {
            "LAN"
        } else {
            "Cloud"
        }
    }

    /// Apply the overrides of the environment: a backend URL (`PLAT_TRUNK_URL`) replaces
    /// the configured one, a delivery mode (`DELIVERY_MODE`) is applied as
    /// [`mode_override`] says.
    pub fn apply_overrides(&mut self, plat_trunk_url: Option<String>, delivery_mode: Option<String>)
        ensures
            final(self).plat_trunk.url@ == (match plat_trunk_url {
                Some(u) => u@,
                None => old(self).plat_trunk.url@,
            }),
            final(self).machine.delivery_mode == (match delivery_mode {
                Some(m) => mode_override(old(self).machine.delivery_mode, m@),
                None => old(self).machine.delivery_mode,
            }),
            final(self).plat_trunk.api_key == old(self).plat_trunk.api_key,
            final(self).plat_trunk.status_push_interval_secs == old(self).plat_trunk.status_push_interval_secs,
            final(self).machine.machine_name == old(self).machine.machine_name,
            final(self).machine.job_input_dir == old(self).machine.job_input_dir,
            final(self).machine.machine_input_dir == old(self).machine.machine_input_dir,
            final(self).machine.machine_output_dir == old(self).machine.machine_output_dir,
            final(self).machine.usb_gadget_mode == old(self).machine.usb_gadget_mode,
            final(self).opcua == old(self).opcua,
            final(self).http == old(self).http,
    {
        match plat_trunk_url {
            Some(u) => {
                self.plat_trunk.url = u;
            },
            None => {},
        }
        match delivery_mode {
            Some(m) => {
                let lower = to_lowercase(m.as_str());
                if str_eq(lower.as_str(), "queue") {
                    self.machine.delivery_mode = DeliveryMode::Queue;
                } else if str_eq(lower.as_str(), "direct") {
                    self.machine.delivery_mode = DeliveryMode::Direct;
                }
            },
            None => {},
        }
    }
}

} // verus!
