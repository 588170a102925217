use crate::custom_duration::CustomDuration;
use crate::ssh_credentials::SshCredentials;
use vstd::prelude::*;

verus! {

/// Everything one backup cycle needs, loaded once and immutable for the run:
/// the local source, the remote destination, the exclude-patterns file, the
/// rsync log file, the credentials, the snapshot root and name suffix, and
/// the ordered retention policy.
pub struct Config {
    pub source: String,
    pub destination: String,
    pub exclude_file: String,
    pub log_file: String,
    pub ssh_credentials: SshCredentials,
    pub snapshot: String,
    pub snapshot_suffix: String,
    pub policy: Vec<CustomDuration>,
}

} // verus!
