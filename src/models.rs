//! Snapshots of what the cluster API returns. Each is replaced wholesale on
//! refresh. Percentages are held in tenths of a percent.
use vstd::prelude::*;

verus! {

/// Lifecycle state of an instance or replicaset.
#[derive(Debug, Clone, Copy, PartialEq, Eq, Structural)]
pub enum StateVariant {
    Online,
    Offline,
    Expelled,
}

impl StateVariant {
    /// The state's name as the API spells it.
    pub fn label(self) -> (r: &'static str)
        ensures
            self == StateVariant::Online ==> r@ == "Online"@,
            self == StateVariant::Offline ==> r@ == "Offline"@,
            self == StateVariant::Expelled ==> r@ == "Expelled"@,
    {
        match self {
            StateVariant::Online => "Online",
            StateVariant::Offline => "Offline",
            StateVariant::Expelled => "Expelled",
        }
    }
}

/// Memory in bytes.
#[derive(Debug, Clone, Copy, PartialEq, Eq, Structural)]
pub struct MemoryInfo {
    pub usable: u64,
    pub used: u64,
}

#[derive(Debug, Clone)]
pub struct ClusterInfo {
    /// Capacity usage in tenths of a percent.
    pub capacity_usage_tenths: u64,
    pub cluster_name: String,
    pub cluster_version: String,
    pub current_instance_version: String,
    pub replicasets_count: usize,
    pub instances_current_state_offline: usize,
    pub instances_current_state_online: usize,
    pub memory: MemoryInfo,
    pub plugins: Vec<String>,
}

#[derive(Debug, Clone)]
pub struct TierInfo {
    pub replicasets: Vec<ReplicasetInfo>,
    pub replicaset_count: usize,
    pub rf: u8,
    pub bucket_count: u64,
    pub instance_count: usize,
    pub can_vote: bool,
    pub name: String,
    pub services: Vec<String>,
    pub memory: MemoryInfo,
    /// Capacity usage in tenths of a percent.
    pub capacity_usage_tenths: u64,
}

#[derive(Debug, Clone)]
pub struct ReplicasetInfo {
    pub version: String,
    pub state: StateVariant,
    pub instance_count: usize,
    pub uuid: String,
    pub instances: Vec<InstanceInfo>,
    /// Capacity usage in tenths of a percent.
    pub capacity_usage_tenths: u64,
    pub memory: MemoryInfo,
    pub name: String,
}

#[derive(Debug, Clone)]
pub struct InstanceInfo {
    pub http_address: String,
    pub version: String,
    /// Failure-domain labels as (key, value) pairs; keys are distinct
    /// (`instances::labels_distinct`) and their order carries no meaning.
    pub failure_domain: Vec<(String, String)>,
    pub is_leader: bool,
    pub current_state: StateVariant,
    pub target_state: StateVariant,
    pub name: String,
    pub binary_address: String,
    pub pg_address: String,
}

#[derive(Debug, Clone)]
pub struct TokenResponse {
    pub auth: String,
    pub refresh: String,
}

#[derive(Debug, Clone, Copy, PartialEq, Eq, Structural)]
pub struct UiConfig {
    pub is_auth_enabled: bool,
}

#[derive(Debug, Clone)]
pub struct LoginRequest {
    pub username: String,
    pub password: String,
}

#[derive(Debug, Clone)]
pub struct ErrorResponse {
    pub error: String,
    pub error_message: String,
}

/// A saved session for one server.
#[derive(Debug, Clone)]
pub struct TokenEntry {
    pub auth: String,
    pub refresh: String,
    pub saved_at: u64,
}

} // verus!
