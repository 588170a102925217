use crate::codec;
use crate::command_runner::{Call, CommandRunner};
use crate::ssh_credentials::SshCredentials;
use crate::sync_error::SyncError;
use vstd::prelude::*;

verus! {

/// The remote-shell command string rsync is told to use as its transport:
/// `ssh -l <user> -i <id_file>`.
pub open spec fn ssh_command_of(c: SshCredentials) -> Seq<char> {
    "ssh -l "@ + c.user@ + " -i "@ + c.id_file@
}

/// The exact rsync argument vector for one synchronization run. Downstream
/// tooling depends on the positional order, so it is pinned argument by
/// argument.
pub open spec fn rsync_args_of(
    c: SshCredentials,
    exclude_file: Seq<char>,
    source: Seq<char>,
    destination: Seq<char>,
    log_file: Seq<char>,
) -> Seq<Seq<char>> {
    seq![
        "-ave"@,
        ssh_command_of(c),
        "--compress"@,
        "--one-file-system"@,
        "--exclude-from="@ + exclude_file,
        "--delete-after"@,
        "--delete-excluded"@,
        source,
        c.user@ + "@"@ + c.host@ + ":"@ + destination,
        ">"@,
        log_file,
    ]
}

/// The exact ssh argument vector for the hard-link snapshot copy:
/// `-l <user> -i <id_file> <host> cp -al <backup_path> <snapshot_path>`.
pub open spec fn snapshot_args_of(
    c: SshCredentials,
    backup_path: Seq<char>,
    snapshot_path: Seq<char>,
) -> Seq<Seq<char>> {
    seq![
        "-l"@,
        c.user@,
        "-i"@,
        c.id_file@,
        c.host@,
        "cp"@,
        "-al"@,
        backup_path,
        snapshot_path,
    ]
}

/// The exact ssh argument vector for the snapshot-directory listing:
/// `-l <user> -i <id_file> <host> ls -A1 <snapshot_path>`.
pub open spec fn list_args_of(c: SshCredentials, snapshot_path: Seq<char>) -> Seq<Seq<char>> {
    seq!["-l"@, c.user@, "-i"@, c.id_file@, c.host@, "ls"@, "-A1"@, snapshot_path]
}

/// The exact ssh argument vector for the recursive delete:
/// `-l <user> -i <id_file> <host> rm -r <snapshot_path>`.
pub open spec fn delete_args_of(c: SshCredentials, snapshot_path: Seq<char>) -> Seq<Seq<char>> {
    seq!["-l"@, c.user@, "-i"@, c.id_file@, c.host@, "rm"@, "-r"@, snapshot_path]
}

/// Between the histories `h0` and `h1` exactly one invocation happened, with
/// this program and argument vector.
pub open spec fn one_call(
    h0: Seq<Call>,
    h1: Seq<Call>,
    program: Seq<char>,
    args: Seq<Seq<char>>,
) -> bool {
    &&& h1.len() == h0.len() + 1
    &&& h1 == h0.push(h1.last())
    &&& h1.last().program == program
    &&& h1.last().args == args
}

/// The result `r` hands the invocation's outcome back unchanged: the captured
/// output on success, and the failure message wrapped as an `ExecError`
/// otherwise.
pub open spec fn output_passed_through(output: Result<Seq<char>, Seq<char>>, r: Result<
    String,
    SyncError,
>) -> bool {
    match r {
        Ok(s) => output == Ok::<Seq<char>, Seq<char>>(s@),
        Err(e) => e matches SyncError::ExecError(f) && output == Err::<Seq<char>, Seq<char>>(
            f.message@,
        ),
    }
}

/// A path on which a recursive remote delete must never be issued: the
/// remote root, or the empty string.
pub open spec fn forbidden_path(p: Seq<char>) -> bool {
    p.len() == 0 || p =~= seq!['/']
}

fn build_ssh_command(ssh_creds: &SshCredentials) -> (s: String)
    ensures
        s@ == ssh_command_of(*ssh_creds),
{
    let mut s = String::from_str("ssh -l ");
    s.append(ssh_creds.user.as_str());
    s.append(" -i ");
    s.append(ssh_creds.id_file.as_str());
    proof {
        assert(s@ =~= ssh_command_of(*ssh_creds));
    }
    s
}

/// Run rsync to synchronize the local files with the files on the server.
/// Exactly one invocation is issued — `rsync` with the pinned argument
/// vector — and its outcome is handed back unchanged.
pub fn sync_backup<R: CommandRunner>(
    runner: &mut R,
    ssh_creds: &SshCredentials,
    exclude_file: &str,
    source: &str,
    destination: &str,
    log_file: &str,
) -> (r: Result<String, SyncError>)
    ensures
        one_call(
            old(runner).history(),
            final(runner).history(),
            "rsync"@,
            rsync_args_of(*ssh_creds, exclude_file@, source@, destination@, log_file@),
        ),
        output_passed_through(final(runner).history().last().output, r),
{
    let ssh_command = build_ssh_command(ssh_creds);
    let mut exclude_arg = String::from_str("--exclude-from=");
    exclude_arg.append(exclude_file);
    let mut remote_destination = String::from_str(ssh_creds.user.as_str());
    remote_destination.append("@");
    remote_destination.append(ssh_creds.host.as_str());
    remote_destination.append(":");
    remote_destination.append(destination);
    let mut args: Vec<String> = Vec::new();
    args.push(String::from_str("-ave"));
    args.push(ssh_command);
    args.push(String::from_str("--compress"));
    args.push(String::from_str("--one-file-system"));
    args.push(exclude_arg);
    args.push(String::from_str("--delete-after"));
    args.push(String::from_str("--delete-excluded"));
    args.push(String::from_str(source));
    args.push(remote_destination);
    args.push(String::from_str(">"));
    args.push(String::from_str(log_file));
    proof {
        assert(args.deep_view() =~~= rsync_args_of(
            *ssh_creds,
            exclude_file@,
            source@,
            destination@,
            log_file@,
        ));
    }
    match runner.run("rsync", &args) {
        Ok(s) => Ok(s),
        Err(f) => Err(SyncError::ExecError(f)),
    }
}

/// Create a snapshot: a hard-link recursive copy from the backup directory to
/// a timestamped directory under the snapshot root, over ssh. Exactly one
/// invocation is issued and its outcome is handed back unchanged.
pub fn create_snapshot<R: CommandRunner>(
    runner: &mut R,
    ssh_creds: &SshCredentials,
    backup_path: &str,
    snapshot_path: &str,
) -> (r: Result<String, SyncError>)
    ensures
        one_call(
            old(runner).history(),
            final(runner).history(),
            "ssh"@,
            snapshot_args_of(*ssh_creds, backup_path@, snapshot_path@),
        ),
        output_passed_through(final(runner).history().last().output, r),
{
    let mut args: Vec<String> = Vec::new();
    args.push(String::from_str("-l"));
    args.push(String::from_str(ssh_creds.user.as_str()));
    args.push(String::from_str("-i"));
    args.push(String::from_str(ssh_creds.id_file.as_str()));
    args.push(String::from_str(ssh_creds.host.as_str()));
    args.push(String::from_str("cp"));
    args.push(String::from_str("-al"));
    args.push(String::from_str(backup_path));
    args.push(String::from_str(snapshot_path));
    proof {
        assert(args.deep_view() =~~= snapshot_args_of(*ssh_creds, backup_path@, snapshot_path@));
    }
    match runner.run("ssh", &args) {
        Ok(s) => Ok(s),
        Err(f) => Err(SyncError::ExecError(f)),
    }
}

/// List the snapshot root and parse each listing line into an
/// `(instant, name)` pair, keeping listing order and silently dropping lines
/// whose timestamp prefix does not parse. Exactly one invocation is issued;
/// only the transport can fail.
pub fn get_snapshots<R: CommandRunner>(
    runner: &mut R,
    ssh_creds: &SshCredentials,
    snapshot_path: &str,
) -> (r: Result<Vec<(i64, String)>, SyncError>)
    ensures
        one_call(
            old(runner).history(),
            final(runner).history(),
            "ssh"@,
            list_args_of(*ssh_creds, snapshot_path@),
        ),
        ({
            let output = final(runner).history().last().output;
            match r {
                Ok(v) => output matches Ok(s) && v.deep_view() == codec::listing_snapshots(s),
                Err(e) => e matches SyncError::ExecError(f) && output == Err::<
                    Seq<char>,
                    Seq<char>,
                >(f.message@),
            }
        }),
{
    let mut args: Vec<String> = Vec::new();
    args.push(String::from_str("-l"));
    args.push(String::from_str(ssh_creds.user.as_str()));
    args.push(String::from_str("-i"));
    args.push(String::from_str(ssh_creds.id_file.as_str()));
    args.push(String::from_str(ssh_creds.host.as_str()));
    args.push(String::from_str("ls"));
    args.push(String::from_str("-A1"));
    args.push(String::from_str(snapshot_path));
    proof {
        assert(args.deep_view() =~~= list_args_of(*ssh_creds, snapshot_path@));
    }
    match runner.run("ssh", &args) {
        Ok(out) => Ok(codec::parse_listing(out.as_str())),
        Err(f) => Err(SyncError::ExecError(f)),
    }
}

/// Delete one snapshot directory, recursively, over ssh — unless the path is
/// forbidden (`/` or empty), in which case nothing is issued and the call
/// fails with `PathDeletionError` naming the rejected path.
pub fn delete_snapshot<R: CommandRunner>(
    runner: &mut R,
    ssh_creds: &SshCredentials,
    snapshot_path: &str,
) -> (r: Result<(), SyncError>)
    ensures
        forbidden_path(snapshot_path@) ==> {
            &&& final(runner).history() == old(runner).history()
            &&& r matches Err(e) && (e matches SyncError::PathDeletionError(p) && p@
                == snapshot_path@)
        },
        !forbidden_path(snapshot_path@) ==> {
            &&& one_call(
                old(runner).history(),
                final(runner).history(),
                "ssh"@,
                delete_args_of(*ssh_creds, snapshot_path@),
            )
            &&& ({
                let output = final(runner).history().last().output;
                match r {
                    Ok(u) => output is Ok,
                    Err(e) => e matches SyncError::ExecError(f) && output == Err::<
                        Seq<char>,
                        Seq<char>,
                    >(f.message@),
                }
            })
        },
{
    let n = snapshot_path.unicode_len();
    if n == 0 || (n == 1 && snapshot_path.get_char(0) == '/') {
        proof {
            assert(forbidden_path(snapshot_path@));
        }
        return Err(SyncError::PathDeletionError(String::from_str(snapshot_path)));
    }
    proof {
        assert(!forbidden_path(snapshot_path@));
    }
    let mut args: Vec<String> = Vec::new();
    args.push(String::from_str("-l"));
    args.push(String::from_str(ssh_creds.user.as_str()));
    args.push(String::from_str("-i"));
    args.push(String::from_str(ssh_creds.id_file.as_str()));
    args.push(String::from_str(ssh_creds.host.as_str()));
    args.push(String::from_str("rm"));
    args.push(String::from_str("-r"));
    args.push(String::from_str(snapshot_path));
    proof {
        assert(args.deep_view() =~~= delete_args_of(*ssh_creds, snapshot_path@));
    }
    match runner.run("ssh", &args) {
        Ok(_) => Ok(()),
        Err(f) => Err(SyncError::ExecError(f)),
    }
}

} // verus!
