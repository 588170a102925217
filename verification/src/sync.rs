use crate::codec;
use crate::commands;
use crate::command_runner::{Call, CommandRunner};
use crate::config::Config;
use crate::custom_duration::CustomDuration;
use crate::retention::RetentionEvaluator;
use crate::ssh_credentials::SshCredentials;
use crate::sync_error::SyncError;
use vstd::prelude::*;

verus! {

/// A directory under a root: the root, a slash, the directory's name.
pub open spec fn join_path(root: Seq<char>, name: Seq<char>) -> Seq<char> {
    root + "/"@ + name
}

/// Whether every window of the policy converts to milliseconds without
/// overflow.
pub open spec fn policy_ok(policy: Seq<CustomDuration>) -> bool {
    forall|i: int| 0 <= i < policy.len() ==> policy[i].conversion_ok()
}

/// The policy's windows in milliseconds, in policy order.
pub open spec fn windows_of(policy: Seq<CustomDuration>) -> Seq<i64> {
    Seq::new(policy.len(), |i: int| policy[i].total_millis() as i64)
}

/// The snapshot directory created by a cycle run at instant `now`.
pub open spec fn snapshot_target_of(cfg: Config, now: i64) -> Seq<char> {
    join_path(cfg.snapshot@, codec::snapshot_name_of(now, cfg.snapshot_suffix@))
}

/// The cycle's rsync argument vector, from the configured paths.
pub open spec fn sync_call_args(cfg: Config) -> Seq<Seq<char>> {
    commands::rsync_args_of(
        cfg.ssh_credentials,
        cfg.exclude_file@,
        cfg.source@,
        cfg.destination@,
        cfg.log_file@,
    )
}

/// The cycle's snapshot-copy argument vector: destination to the timestamped
/// target.
pub open spec fn snapshot_call_args(cfg: Config, now: i64) -> Seq<Seq<char>> {
    commands::snapshot_args_of(cfg.ssh_credentials, cfg.destination@, snapshot_target_of(cfg, now))
}

/// The cycle's listing argument vector, over the snapshot root.
pub open spec fn list_call_args(cfg: Config) -> Seq<Seq<char>> {
    commands::list_args_of(cfg.ssh_credentials, cfg.snapshot@)
}

/// The cycle failed with the transport failure whose message is `m`.
pub open spec fn failed_exec(r: Result<(), SyncError>, m: Seq<char>) -> bool {
    r matches Err(e) && (e matches SyncError::ExecError(f) && f.message@ == m)
}

/// The delete loop's behaviour, entry by entry: for each marked snapshot in
/// order, its path under the root is formed; a forbidden path stops the loop
/// before any call with `PathDeletionError`; otherwise one `ssh ... rm -r`
/// call is issued, and a failed call stops the loop with its failure. `d` is
/// the sequence of invocations the loop performed and `r` its result: `Ok`
/// exactly when every marked snapshot was deleted.
pub open spec fn deletion_phase(
    creds: SshCredentials,
    root: Seq<char>,
    todel: Seq<(i64, Seq<char>)>,
    d: Seq<Call>,
    r: Result<(), SyncError>,
) -> bool
    decreases todel.len(),
{
    if todel.len() == 0 {
        &&& d.len() == 0
        &&& r is Ok
    } else {
        let path = join_path(root, todel[0].1);
        if commands::forbidden_path(path) {
            &&& d.len() == 0
            &&& r matches Err(e) && (e matches SyncError::PathDeletionError(p) && p@ == path)
        } else {
            &&& d.len() >= 1
            &&& d[0].program == "ssh"@
            &&& d[0].args == commands::delete_args_of(creds, path)
            &&& match d[0].output {
                Ok(_) => deletion_phase(creds, root, todel.skip(1), d.skip(1), r),
                Err(m) => d.len() == 1 && failed_exec(r, m),
            }
        }
    }
}

/// One whole backup cycle, observed through the runner's history: `h1` is
/// `h0` extended by the cycle's invocations, strictly in order — sync,
/// snapshot, list, then one delete per marked snapshot — aborting on the
/// first failure, with `r` naming the step that failed. The snapshots shown
/// to the evaluator are parsed from the listing call's recorded output.
pub open spec fn cycle_post<P: RetentionEvaluator>(
    cfg: Config,
    evaluator: P,
    now: i64,
    h0: Seq<Call>,
    h1: Seq<Call>,
    r: Result<(), SyncError>,
) -> bool {
    let ext = h1.skip(h0.len() as int);
    &&& h1.len() > h0.len()
    &&& h1.take(h0.len() as int) == h0
    &&& ext[0].program == "rsync"@
    &&& ext[0].args == sync_call_args(cfg)
    &&& match ext[0].output {
        Err(m) => ext.len() == 1 && failed_exec(r, m),
        Ok(_) => {
            &&& ext.len() >= 2
            &&& ext[1].program == "ssh"@
            &&& ext[1].args == snapshot_call_args(cfg, now)
            &&& match ext[1].output {
                Err(m) => ext.len() == 2 && failed_exec(r, m),
                Ok(_) => {
                    &&& ext.len() >= 3
                    &&& ext[2].program == "ssh"@
                    &&& ext[2].args == list_call_args(cfg)
                    &&& match ext[2].output {
                        Err(m) => ext.len() == 3 && failed_exec(r, m),
                        Ok(out) => {
                            if policy_ok(cfg.policy@) {
                                deletion_phase(
                                    cfg.ssh_credentials,
                                    cfg.snapshot@,
                                    evaluator.decide(
                                        now,
                                        windows_of(cfg.policy@),
                                        codec::listing_snapshots(out),
                                    ),
                                    ext.skip(3),
                                    r,
                                )
                            } else {
                                &&& ext.len() == 3
                                &&& r matches Err(e) && e is DurationConversionError
                            }
                        },
                    }
                },
            }
        },
    }
}

/// Law: a run of the delete loop that ended in `Ok` issued exactly one
/// delete invocation per marked snapshot, in order, each an `ssh ... rm -r`
/// of the marked name's path under the root, and every one of them came back
/// successful.
pub proof fn lemma_deletion_phase_ok(
    creds: SshCredentials,
    root: Seq<char>,
    todel: Seq<(i64, Seq<char>)>,
    d: Seq<Call>,
)
    requires
        deletion_phase(creds, root, todel, d, Result::<(), SyncError>::Ok(())),
    ensures
        d.len() == todel.len(),
        forall|i: int|
            0 <= i < d.len() ==> {
                &&& (#[trigger] d[i]).program == "ssh"@
                &&& d[i].args == commands::delete_args_of(creds, join_path(root, todel[i].1))
                &&& d[i].output is Ok
            },
    decreases todel.len(),
{
    if todel.len() == 0 {
    } else {
        let path = join_path(root, todel[0].1);
        assert(!commands::forbidden_path(path));
        assert(d[0].output is Ok);
        lemma_deletion_phase_ok(creds, root, todel.skip(1), d.skip(1));
        assert forall|i: int|
            0 <= i < d.len() implies {
            &&& (#[trigger] d[i]).program == "ssh"@
            &&& d[i].args == commands::delete_args_of(creds, join_path(root, todel[i].1))
            &&& d[i].output is Ok
        } by {
            if i > 0 {
                assert(d.skip(1)[i - 1] == d[i]);
                assert(todel.skip(1)[i - 1] == todel[i]);
            }
        }
    }
}

/// Law: a successful cycle issued the synchronization, the snapshot copy and
/// the listing, in that order, and then exactly one delete invocation per
/// snapshot the evaluator marks on the listing it was shown, in the
/// evaluator's order — no other invocation, and every marked snapshot was
/// deleted.
pub proof fn lemma_successful_cycle_order<P: RetentionEvaluator>(
    cfg: Config,
    evaluator: P,
    now: i64,
    h0: Seq<Call>,
    h1: Seq<Call>,
)
    requires
        cycle_post(cfg, evaluator, now, h0, h1, Result::<(), SyncError>::Ok(())),
    ensures
        ({
            let ext = h1.skip(h0.len() as int);
            &&& ext.len() >= 3
            &&& ext[0].program == "rsync"@ && ext[0].args == sync_call_args(cfg) && ext[0].output
                is Ok
            &&& ext[1].program == "ssh"@ && ext[1].args == snapshot_call_args(cfg, now) && ext[1].output
                is Ok
            &&& ext[2].program == "ssh"@ && ext[2].args == list_call_args(cfg) && ext[2].output
                is Ok
            &&& (ext[2].output matches Ok(out) ==> {
                let todel = evaluator.decide(
                    now,
                    windows_of(cfg.policy@),
                    codec::listing_snapshots(out),
                );
                &&& ext.len() == 3 + todel.len()
                &&& forall|i: int|
                    0 <= i < todel.len() ==> {
                        &&& (#[trigger] ext[3 + i]).program == "ssh"@
                        &&& ext[3 + i].args == commands::delete_args_of(
                            cfg.ssh_credentials,
                            join_path(cfg.snapshot@, todel[i].1),
                        )
                        &&& ext[3 + i].output is Ok
                    }
            })
        }),
{
    let ext = h1.skip(h0.len() as int);
    assert(ext[0].output is Ok);
    assert(ext[1].output is Ok);
    assert(ext[2].output is Ok);
    assert(policy_ok(cfg.policy@));
    let out = ext[2].output->Ok_0;
    let todel = evaluator.decide(now, windows_of(cfg.policy@), codec::listing_snapshots(out));
    lemma_deletion_phase_ok(cfg.ssh_credentials, cfg.snapshot@, todel, ext.skip(3));
    assert forall|i: int| 0 <= i < todel.len() implies #[trigger] ext[3 + i] == ext.skip(3)[i] by {
        assert(ext.skip(3)[i] == ext[3 + i]);
    }
}

/// The backup orchestrator: a command runner, a retention evaluator, and the
/// run's configuration.
pub struct Sync<T: CommandRunner, P: RetentionEvaluator> {
    pub runner: T,
    pub evaluator: P,
    pub config: Config,
}

/// Delete the marked snapshots from index `from` on, in order, stopping at
/// the first forbidden path or failed call.
fn run_deletions<T: CommandRunner>(
    runner: &mut T,
    ssh_creds: &SshCredentials,
    root: &str,
    to_delete: &Vec<(i64, String)>,
    from: usize,
) -> (r: Result<(), SyncError>)
    requires
        from <= to_delete@.len(),
    ensures
        final(runner).history().len() >= old(runner).history().len(),
        final(runner).history().take(old(runner).history().len() as int) == old(runner).history(),
        deletion_phase(
            *ssh_creds,
            root@,
            to_delete.deep_view().skip(from as int),
            final(runner).history().skip(old(runner).history().len() as int),
            r,
        ),
    decreases to_delete@.len() - from,
{
    let ghost h0 = runner.history();
    if from == to_delete.len() {
        proof {
            assert(to_delete.deep_view().skip(from as int) =~~= Seq::<(i64, Seq<char>)>::empty());
            assert(runner.history().take(h0.len() as int) =~= h0);
            assert(runner.history().skip(h0.len() as int) =~= Seq::<Call>::empty());
        }
        return Ok(());
    }
    let entry = &to_delete[from];
    let mut path = String::from_str(root);
    path.append("/");
    path.append(entry.1.as_str());
    proof {
        assert(to_delete.deep_view()[from as int] == (
            to_delete@[from as int].0,
            to_delete@[from as int].1@,
        ));
        assert(path@ =~= join_path(root@, to_delete.deep_view()[from as int].1));
    }
    match commands::delete_snapshot(runner, ssh_creds, path.as_str()) {
        Ok(_) => {
            let ghost h1 = runner.history();
            let res = run_deletions(runner, ssh_creds, root, to_delete, from + 1);
            proof {
                let h2 = runner.history();
                let ext = h2.skip(h0.len() as int);
                assert(h2.take(h0.len() as int) =~= h0);
                assert(ext[0] == h1.last());
                assert(ext.skip(1) =~~= h2.skip(h1.len() as int));
                assert(to_delete.deep_view().skip(from as int).skip(1) =~~= to_delete.deep_view()
                    .skip(from + 1));
                assert(to_delete.deep_view().skip(from as int)[0] == to_delete.deep_view()[
                    from as int]);
            }
            res
        },
        Err(e) => {
            proof {
                let h1 = runner.history();
                if commands::forbidden_path(path@) {
                    assert(h1.skip(h0.len() as int) =~= Seq::<Call>::empty());
                    assert(h1.take(h0.len() as int) =~= h0);
                } else {
                    assert(h1.take(h0.len() as int) =~= h0);
                    let ext = h1.skip(h0.len() as int);
                    assert(ext.len() == 1);
                    assert(ext[0] == h1.last());
                }
                assert(to_delete.deep_view().skip(from as int)[0] == to_delete.deep_view()[
                    from as int]);
            }
            Err(e)
        },
    }
}

impl<T: CommandRunner, P: RetentionEvaluator> Sync<T, P> {
    /// Put an orchestrator together from its configuration, its command
    /// runner, and its retention evaluator.
    pub fn new_with_exec(config: Config, runner: T, evaluator: P) -> (r: Self)
        ensures
            r.config == config,
            r.runner == runner,
            r.evaluator == evaluator,
    {
        Sync { runner, evaluator, config }
    }

    /// Run one backup cycle at the current instant.
    pub fn execute(&mut self) -> (r: Result<(), SyncError>)
        ensures
            final(self).config == old(self).config,
            final(self).evaluator == old(self).evaluator,
            exists|now: i64|
                cycle_post(
                    old(self).config,
                    old(self).evaluator,
                    now,
                    old(self).runner.history(),
                    final(self).runner.history(),
                    r,
                ),
    {
        let now = codec::now_millis();
        self.execute_with_time(now)
    }

    /// Run one backup cycle as of the instant `now`: synchronize, snapshot
    /// under a name formed from `now`, list the existing snapshots, convert
    /// the policy's windows, and delete what the evaluator marks — strictly
    /// in that order, aborting on the first failure.
    #[verifier::loop_isolation(false)]
    pub fn execute_with_time(&mut self, now: i64) -> (r: Result<(), SyncError>)
        requires
            codec::valid_instant(now as int),
        ensures
            final(self).config == old(self).config,
            final(self).evaluator == old(self).evaluator,
            cycle_post(
                old(self).config,
                old(self).evaluator,
                now,
                old(self).runner.history(),
                final(self).runner.history(),
                r,
            ),
    {
        let ghost h0 = self.runner.history();
        // sync backup
        let sync_res = commands::sync_backup(
            &mut self.runner,
            &self.config.ssh_credentials,
            self.config.exclude_file.as_str(),
            self.config.source.as_str(),
            self.config.destination.as_str(),
            self.config.log_file.as_str(),
        );
        let ghost h1 = self.runner.history();
        proof {
            assert(h1.take(h0.len() as int) =~= h0);
            assert(h1.skip(h0.len() as int) =~= seq![h1.last()]);
        }
        if let Err(e) = sync_res {
            return Err(e);
        }
        // create the timestamped snapshot of the fresh backup
        let name = codec::format_snapshot_name(now, self.config.snapshot_suffix.as_str());
        let mut target = String::from_str(self.config.snapshot.as_str());
        target.append("/");
        target.append(name.as_str());
        proof {
            assert(target@ =~= snapshot_target_of(self.config, now));
        }
        let snap_res = commands::create_snapshot(
            &mut self.runner,
            &self.config.ssh_credentials,
            self.config.destination.as_str(),
            target.as_str(),
        );
        let ghost h2 = self.runner.history();
        proof {
            assert(h2.take(h0.len() as int) =~= h0);
            assert(h2.skip(h0.len() as int) =~= seq![h1.last(), h2.last()]);
        }
        if let Err(e) = snap_res {
            return Err(e);
        }
        // enumerate all snapshots, the fresh one included
        let list_res = commands::get_snapshots(
            &mut self.runner,
            &self.config.ssh_credentials,
            self.config.snapshot.as_str(),
        );
        let ghost h3 = self.runner.history();
        proof {
            assert(h3.take(h0.len() as int) =~= h0);
            assert(h3.skip(h0.len() as int) =~= seq![h1.last(), h2.last(), h3.last()]);
        }
        let snapshots = match list_res {
            Ok(v) => v,
            Err(e) => {
                return Err(e);
            },
        };
        // convert the policy's windows, aborting before any deletion on overflow
        let mut windows: Vec<i64> = Vec::new();
        let n = self.config.policy.len();
        let mut i: usize = 0;
        while i < n
            invariant
                0 <= i <= n,
                n == self.config.policy@.len(),
                forall|j: int| 0 <= j < i ==> self.config.policy@[j].conversion_ok(),
                windows@ =~= windows_of(self.config.policy@).take(i as int),
                self.runner.history() == h3,
                self.config == old(self).config,
                self.evaluator == old(self).evaluator,
            decreases n - i,
        {
            match self.config.policy[i].to_millis() {
                Ok(ms) => {
                    windows.push(ms);
                    proof {
                        assert(windows@ =~= windows_of(self.config.policy@).take(i + 1));
                    }
                },
                Err(e) => {
                    proof {
                        assert(!policy_ok(self.config.policy@));
                    }
                    return Err(e);
                },
            }
            i += 1;
        }
        proof {
            assert(policy_ok(self.config.policy@));
            assert(windows@ =~= windows_of(self.config.policy@));
        }
        // find the snapshots that violate the policy
        let to_delete = self.evaluator.evaluate(now, &windows, &snapshots);
        // remove them, in order, stopping at the first failure
        let res = run_deletions(
            &mut self.runner,
            &self.config.ssh_credentials,
            self.config.snapshot.as_str(),
            &to_delete,
            0,
        );
        proof {
            let h4 = self.runner.history();
            assert(h4.take(h0.len() as int) =~= h0);
            let ext = h4.skip(h0.len() as int);
            assert(ext[0] == h1.last());
            assert(ext[1] == h2.last());
            assert(ext[2] == h3.last());
            assert(ext.skip(3) =~~= h4.skip(h3.len() as int));
            assert(to_delete.deep_view().skip(0) =~~= to_delete.deep_view());
        }
        res
    }
}

} // verus!
