use vstd::prelude::*;

verus! {

/// Credentials for reaching the remote host: every remote operation logs in
/// as `user` with the identity file `id_file` on `host`.
pub struct SshCredentials {
    pub user: String,
    pub id_file: String,
    pub host: String,
}

} // verus!
