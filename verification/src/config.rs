//! The daemon's runtime configuration: where the portal allowlist lives and
//! how long the root waits for the second branch.
use vstd::prelude::*;

use crate::text::{join, join_path};
use crate::time::Duration;

verus! {

/// The synchronisation timeout between the two branches, in seconds.
pub const SYNC_TIMEOUT_SECS: u64 = 240;

/// The synchronisation timeout between the two branches.
pub fn sync_timeout() -> (d: Duration)
    ensures
        d.wf(),
        d@ == SYNC_TIMEOUT_SECS as nat * 1_000_000_000,
{
    Duration::from_secs(SYNC_TIMEOUT_SECS)
}

#[derive(Debug, Clone, PartialEq, Eq)]
pub struct RuntimeConfig {
    pub allowlist_path: String,
    pub sync_timeout: Duration,
}

impl RuntimeConfig {
    /// The configuration of a workspace: the allowlist is
    /// `config/allowlist.toml` under its root.
    pub fn from_workspace_root(root: &str) -> (c: RuntimeConfig)
        ensures
            c.allowlist_path@ == join_path(join_path(root@, "config"@), "allowlist.toml"@),
            c.sync_timeout.wf(),
            c.sync_timeout@ == SYNC_TIMEOUT_SECS as nat * 1_000_000_000,
    {
        let config_dir = join(root, "config");
        let allowlist_path = join(config_dir.as_str(), "allowlist.toml");
        RuntimeConfig { allowlist_path, sync_timeout: sync_timeout() }
    }
}

/// The configuration of the workspace in the working directory.
pub fn default_runtime_config() -> (c: RuntimeConfig)
    ensures
        c.allowlist_path@ == join_path(join_path("."@, "config"@), "allowlist.toml"@),
        c.sync_timeout.wf(),
        c.sync_timeout@ == SYNC_TIMEOUT_SECS as nat * 1_000_000_000,
{
    RuntimeConfig::from_workspace_root(".")
}

} // verus!
