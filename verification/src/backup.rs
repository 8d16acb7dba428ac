//! Naming and configuration of the backup subsystem: which services are
//! archived and under which folder each one's snapshots live. The archival
//! work itself is I/O and lives with the runner.

use vstd::prelude::*;

verus! {

/// How the backup runner is configured. Paths are carried as plain text.
pub struct BackupConfig {
    pub datastore_path: String,
    pub backup_path: String,
    pub interval_mins: u64,
    pub ollama_host: String,
}

/// The services whose state is archived.
#[derive(Clone, Copy, Debug, PartialEq, Eq, Structural)]
pub enum ServiceType {
    Cockroach,
    Qdrant,
    Meilisearch,
    Dragonfly,
    Jenkins,
    Ollama,
}

/// The folder a service's snapshots live under.
pub open spec fn spec_folder_name(t: ServiceType) -> Seq<char> {
    match t {
        ServiceType::Cockroach => "cockroach"@,
        ServiceType::Qdrant => "qdrant"@,
        ServiceType::Meilisearch => "meilisearch"@,
        ServiceType::Dragonfly => "dragonfly"@,
        ServiceType::Jenkins => "jenkins"@,
        ServiceType::Ollama => "ollama"@,
    }
}

impl ServiceType {
    /// The service's snapshot folder.
    pub fn folder_name(&self) -> (r: &'static str)
        ensures
            r@ == spec_folder_name(*self),
    {
        match self {
            ServiceType::Cockroach => "cockroach",
            ServiceType::Qdrant => "qdrant",
            ServiceType::Meilisearch => "meilisearch",
            ServiceType::Dragonfly => "dragonfly",
            ServiceType::Jenkins => "jenkins",
            ServiceType::Ollama => "ollama",
        }
    }

    /// Every archived service, in backup order.
    pub fn all() -> (r: Vec<ServiceType>)
        ensures
            r@.len() == 6,
            r@[0] == ServiceType::Cockroach,
            r@[1] == ServiceType::Qdrant,
            r@[2] == ServiceType::Meilisearch,
            r@[3] == ServiceType::Dragonfly,
            r@[4] == ServiceType::Jenkins,
            r@[5] == ServiceType::Ollama,
    {
        let mut r: Vec<ServiceType> = Vec::new();
        r.push(ServiceType::Cockroach);
        r.push(ServiceType::Qdrant);
        r.push(ServiceType::Meilisearch);
        r.push(ServiceType::Dragonfly);
        r.push(ServiceType::Jenkins);
        r.push(ServiceType::Ollama);
        r
    }
}

/// The backup runner's handle on its configuration.
pub struct BackupService {
    config: BackupConfig,
}

impl BackupService {
    /// Wraps a configuration for the runner.
    pub fn new(config: BackupConfig) -> (s: BackupService)
        ensures
            s.config() == config,
    {
        BackupService { config }
    }

    /// The configuration the service was built with.
    pub closed spec fn config(&self) -> BackupConfig {
        self.config
    }

    /// The interval between backup cycles, in minutes.
    pub fn interval_mins(&self) -> (r: u64)
        ensures
            r == self.config().interval_mins,
    {
        self.config.interval_mins
    }
}

} // verus!
