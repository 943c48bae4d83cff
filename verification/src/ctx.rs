//! Connection context: where the backend listens, where its data directory
//! lies, and how the challenge-response secret file for an authentication
//! id is located under it. Opening the session itself is transport work
//! and stays outside the library.

use vstd::prelude::*;

verus! {

/// The path of the challenge-response secret file for an authentication
/// id, under a data directory.
pub open spec fn secret_path_chars(data_dir: Seq<char>, auth_id: Seq<char>) -> Seq<char> {
    data_dir + "/crossbar/secrets/"@ + auth_id + ".tck"@
}

/// Connection context of the command-line front end: the backend address
/// and port, the data directory, and whether output is rendered as JSON.
pub struct CliCtx {
    pub rpc_addr: (String, u16),
    pub data_dir: String,
    pub json_output: bool,
}

impl CliCtx {
    /// The file the challenge-response secret for `auth_id` is read from.
    pub fn secret_file_path(&self, auth_id: &str) -> (p: String)
        ensures
            p@ == secret_path_chars(self.data_dir@, auth_id@),
    {
        let mut p: String = self.data_dir.clone();
        p.append("/crossbar/secrets/");
        p.append(auth_id);
        p.append(".tck");
        proof {
            assert(p@ =~= secret_path_chars(self.data_dir@, auth_id@));
        }
        p
    }
}

/// Connection context of a backend session: the backend address and port
/// and the data directory.
pub struct GolemCtx {
    pub rpc_addr: (String, u16),
    pub data_dir: String,
}

impl GolemCtx {
    /// The file the challenge-response secret for `auth_id` is read from.
    pub fn secret_file_path(&self, auth_id: &str) -> (p: String)
        ensures
            p@ == secret_path_chars(self.data_dir@, auth_id@),
    {
        let mut p: String = self.data_dir.clone();
        p.append("/crossbar/secrets/");
        p.append(auth_id);
        p.append(".tck");
        proof {
            assert(p@ =~= secret_path_chars(self.data_dir@, auth_id@));
        }
        p
    }
}

} // verus!
