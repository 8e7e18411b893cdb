//! Configuration of socket activation: the parent binds the listening socket
//! and hands it to the child as an inherited file descriptor.

use vstd::prelude::*;
use crate::text::{dec, u64_to_string};

verus! {

/// First inherited descriptor (after stdin, stdout and stderr).
pub const SD_LISTEN_FDS_START: i32 = 3;

/// Environment variable holding the number of passed descriptors.
pub const ENV_LISTEN_FDS: &'static str = "LISTEN_FDS";

/// Environment variable holding the PID of the listening process.
pub const ENV_LISTEN_PID: &'static str = "LISTEN_PID";

/// Configuration for socket activation.
#[derive(Debug)]
pub struct SocketConfig {
    /// Port to bind.
    pub port: u16,
    /// Bind address.
    pub host: String,
    /// Whether the parent binds the socket for the child.
    pub enabled: bool,
}

impl Default for SocketConfig {
    fn default() -> (c: Self)
        ensures
            c.port == 8000,
            c.host@ == "0.0.0.0"@,
            c.enabled,
    {
        SocketConfig { port: 8000, host: "0.0.0.0".to_owned(), enabled: true }
    }
}

/// How a child inherits the listening socket: the environment it gets, and
/// whether the socket must first be duplicated onto the first inherited
/// descriptor (it always has its close-on-exec flag cleared).
#[derive(Debug)]
pub struct InheritPlan {
    /// `LISTEN_FDS=1` and `LISTEN_PID=<pid>`.
    pub env: Vec<(String, String)>,
    /// The descriptor is not yet at `SD_LISTEN_FDS_START`.
    pub duplicate: bool,
}

/// The inheritance plan for a socket at descriptor `socket_fd`, handed out
/// by the process `pid`.
pub fn inherit_plan(socket_fd: i32, pid: u32) -> (r: InheritPlan)
    ensures
        r.env@.len() == 2,
        r.env@[0].0@ == ENV_LISTEN_FDS@ && r.env@[0].1@ == "1"@,
        r.env@[1].0@ == ENV_LISTEN_PID@ && r.env@[1].1@ == dec(pid as nat),
        r.duplicate == (socket_fd != SD_LISTEN_FDS_START),
{
    let mut env: Vec<(String, String)> = Vec::new();
    env.push((ENV_LISTEN_FDS.to_owned(), "1".to_owned()));
    env.push((ENV_LISTEN_PID.to_owned(), u64_to_string(pid as u64)));
    InheritPlan { env, duplicate: socket_fd != SD_LISTEN_FDS_START }
}

} // verus!
