//! Backup lifecycle orchestration: synchronize a directory tree to a remote
//! host over ssh, take a hard-linked snapshot of the result, enumerate the
//! existing snapshots, and prune the ones a retention evaluator marks for
//! deletion.
//!
//! Every remote operation goes through the [`command_runner::CommandRunner`]
//! capability, whose history records each invocation, so the exact command
//! lines the library issues are part of its verified contracts.
//!
//! The crate root keeps the older flat interface: a [`Sync`] that holds only
//! a runner and exposes the four remote operations directly. The
//! configuration-driven orchestrator lives in [`sync`].

pub mod codec;
pub mod commands;
pub mod command_runner;
pub mod config;
pub mod custom_duration;
pub mod retention;
pub mod ssh_credentials;
pub mod sync;
pub mod sync_error;

pub use ssh_credentials::SshCredentials;
pub use sync_error::SyncError;

use crate::command_runner::CommandRunner;
use vstd::prelude::*;

verus! {

/// The older flat interface: a command runner and the four remote operations,
/// with credentials and paths handed to each call.
pub struct Sync<T: CommandRunner> {
    pub runner: T,
}

impl<T: CommandRunner> Sync<T> {
    /// Wrap a command runner.
    pub fn new(runner: T) -> (r: Self)
        ensures
            r.runner == runner,
    {
        Sync { runner }
    }

    /// Run rsync to synchronize the local files with the files on the server.
    /// Exactly one invocation is issued — `rsync` with the pinned argument
    /// vector, the destination in the `user@host:path` form — and its outcome
    /// is handed back unchanged.
    pub fn sync_backup(
        &mut self,
        ssh_creds: &SshCredentials,
        exclude_file: &str,
        source: &str,
        destination: &str,
        log_file: &str,
    ) -> (r: Result<String, SyncError>)
        ensures
            commands::one_call(
                old(self).runner.history(),
                final(self).runner.history(),
                "rsync"@,
                commands::rsync_args_of(
                    *ssh_creds,
                    exclude_file@,
                    source@,
                    destination@,
                    log_file@,
                ),
            ),
            commands::output_passed_through(final(self).runner.history().last().output, r),
    {
        commands::sync_backup(
            &mut self.runner,
            ssh_creds,
            exclude_file,
            source,
            destination,
            log_file,
        )
    }

    /// Create a snapshot: a hard-link copy from the backup directory to a
    /// timestamped directory in the snapshot folder.
    pub fn create_snapshot(
        &mut self,
        ssh_creds: &SshCredentials,
        backup_path: &str,
        snapshot_path: &str,
    ) -> (r: Result<String, SyncError>)
        ensures
            commands::one_call(
                old(self).runner.history(),
                final(self).runner.history(),
                "ssh"@,
                commands::snapshot_args_of(*ssh_creds, backup_path@, snapshot_path@),
            ),
            commands::output_passed_through(final(self).runner.history().last().output, r),
    {
        commands::create_snapshot(&mut self.runner, ssh_creds, backup_path, snapshot_path)
    }

    /// List the snapshot root and parse each line into an `(instant, name)`
    /// pair, keeping listing order and dropping unparsable lines.
    pub fn get_snapshots(&mut self, ssh_creds: &SshCredentials, snapshot_path: &str) -> (r: Result<
        Vec<(i64, String)>,
        SyncError,
    >)
        ensures
            commands::one_call(
                old(self).runner.history(),
                final(self).runner.history(),
                "ssh"@,
                commands::list_args_of(*ssh_creds, snapshot_path@),
            ),
            ({
                let output = final(self).runner.history().last().output;
                match r {
                    Ok(v) => output matches Ok(s) && v.deep_view() == codec::listing_snapshots(s),
                    Err(e) => e matches SyncError::ExecError(f) && output == Err::<
                        Seq<char>,
                        Seq<char>,
                    >(f.message@),
                }
            }),
    {
        commands::get_snapshots(&mut self.runner, ssh_creds, snapshot_path)
    }

    /// Delete one snapshot directory — unless the path is forbidden (`/` or
    /// empty), in which case nothing is issued and the call fails with
    /// `PathDeletionError` naming the rejected path.
    pub fn delete_snapshot(&mut self, ssh_creds: &SshCredentials, snapshot_path: &str) -> (r:
        Result<(), SyncError>)
        ensures
            commands::forbidden_path(snapshot_path@) ==> {
                &&& final(self).runner.history() == old(self).runner.history()
                &&& r matches Err(e) && (e matches SyncError::PathDeletionError(p) && p@
                    == snapshot_path@)
            },
            !commands::forbidden_path(snapshot_path@) ==> {
                &&& commands::one_call(
                    old(self).runner.history(),
                    final(self).runner.history(),
                    "ssh"@,
                    commands::delete_args_of(*ssh_creds, snapshot_path@),
                )
                &&& ({
                    let output = final(self).runner.history().last().output;
                    match r {
                        Ok(u) => output is Ok,
                        Err(e) => e matches SyncError::ExecError(f) && output == Err::<
                            Seq<char>,
                            Seq<char>,
                        >(f.message@),
                    }
                })
            },
    {
        commands::delete_snapshot(&mut self.runner, ssh_creds, snapshot_path)
    }
}

} // verus!
