//! The SSH daemon: its host keys are generated one after the other where
//! missing, then `sshd` runs.

use vstd::prelude::*;
use crate::service::{CommandLine, CommandSpec, ServiceState};
use crate::services::process::Stream;
use crate::text::{owned, owned_all, push_str, string_of};

verus! {

/// Where the SSH service is.
#[derive(Debug, PartialEq, Eq, Structural, Clone, Copy)]
pub enum SshState {
    Idle,
    /// The key with this index is being generated by process `pid`.
    KeygenRunning(usize, u32),
    /// `sshd` runs as `pid`, its output on these descriptors.
    Running { pid: u32, stdout_fd: Option<i32>, stderr_fd: Option<i32> },
    Error,
}

/// The host key file of a key type: `/etc/ssh/ssh_host_<type>_key`.
pub open spec fn keyfile_path_spec(key: Seq<char>) -> Seq<char> {
    "/etc/ssh"@ + "/"@ + "ssh_host_"@ + key + "_key"@
}

/// `ssh-keygen -q -f <key file> -N "" -t <type>`.
pub open spec fn keygen_command_spec(key: Seq<char>) -> CommandSpec {
    CommandSpec {
        program: "ssh-keygen"@,
        args: seq!["-q"@, "-f"@, keyfile_path_spec(key), "-N"@, ""@, "-t"@, key],
    }
}

/// `/usr/sbin/sshd -D`.
pub open spec fn sshd_command_spec() -> CommandSpec {
    CommandSpec { program: "/usr/sbin/sshd"@, args: seq!["-D"@] }
}

/// The state reported for each state of the SSH service.
pub open spec fn ssh_service_state(s: SshState) -> ServiceState {
    match s {
        SshState::Idle => ServiceState::Inactive,
        SshState::Error => ServiceState::Error,
        SshState::KeygenRunning(_, _) => ServiceState::Starting,
        SshState::Running { .. } => ServiceState::Running,
    }
}

/// The SSH service.
pub struct SSHService {
    keys: Vec<String>,
    state: SshState,
}

impl SSHService {
    pub closed spec fn keys_of(&self) -> Seq<Seq<char>> {
        self.keys@.map_values(|k: String| k@)
    }

    pub closed spec fn state_of(&self) -> SshState {
        self.state
    }

    /// A key being generated is one of the list.
    pub closed spec fn wf(&self) -> bool {
        self.state matches SshState::KeygenRunning(i, _) ==> i < self.keys@.len()
    }

    /// An idle service for the host key types `keys`.
    pub fn new(keys: &[&str]) -> (s: Self)
        ensures
            s.wf(),
            s.keys_of() == keys@.map_values(|k: &str| k@),
            s.state_of() == SshState::Idle,
    {
        let k = owned_all(keys);
        let s = SSHService { keys: k, state: SshState::Idle };
        assert(s.keys_of() =~= keys@.map_values(|k: &str| k@));
        s
    }

    /// The service for RSA, ECDSA and Ed25519 host keys.
    pub fn default() -> (s: Self)
        ensures
            s.wf(),
            s.keys_of() == seq!["rsa"@, "ecdsa"@, "ed25519"@],
            s.state_of() == SshState::Idle,
    {
        let mut k: Vec<String> = Vec::new();
        k.push(owned("rsa"));
        k.push(owned("ecdsa"));
        k.push(owned("ed25519"));
        let s = SSHService { keys: k, state: SshState::Idle };
        assert(s.keys_of() =~= seq!["rsa"@, "ecdsa"@, "ed25519"@]);
        s
    }

    /// Number of host key types.
    pub fn key_count(&self) -> (n: usize)
        ensures
            n == self.keys_of().len(),
    {
        self.keys.len()
    }

    /// The state reported (see `ssh_service_state`).
    pub fn state(&self) -> (r: ServiceState)
        ensures
            r == ssh_service_state(self.state_of()),
    {
        match self.state {
            SshState::Idle => ServiceState::Inactive,
            SshState::Error => ServiceState::Error,
            SshState::KeygenRunning(_, _) => ServiceState::Starting,
            SshState::Running { .. } => ServiceState::Running,
        }
    }

    /// Whether a start begins now: only an idle service starts, with the
    /// first key.
    pub fn start(&self) -> (b: bool)
        ensures
            b == (self.state_of() == SshState::Idle),
    {
        match self.state {
            SshState::Idle => true,
            _ => false,
        }
    }

    /// The host key type with index `index`.
    pub fn key(&self, index: usize) -> (k: &str)
        requires
            index < self.keys_of().len(),
        ensures
            k@ == self.keys_of()[index as int],
    {
        self.keys[index].as_str()
    }

    /// The host key file of the key with index `index`.
    pub fn keyfile_path(&self, index: usize) -> (p: String)
        requires
            index < self.keys_of().len(),
        ensures
            p@ == keyfile_path_spec(self.keys_of()[index as int]),
    {
        let mut v: Vec<char> = Vec::new();
        push_str(&mut v, "/etc/ssh");
        push_str(&mut v, "/");
        push_str(&mut v, "ssh_host_");
        push_str(&mut v, self.keys[index].as_str());
        push_str(&mut v, "_key");
        assert(v@ =~= keyfile_path_spec(self.keys_of()[index as int]));
        string_of(v.as_slice())
    }

    /// The command that generates the key with index `index`.
    pub fn keygen_command(&self, index: usize) -> (c: CommandLine)
        requires
            index < self.keys_of().len(),
        ensures
            c@ == keygen_command_spec(self.keys_of()[index as int]),
    {
        let mut args: Vec<String> = Vec::new();
        args.push(owned("-q"));
        args.push(owned("-f"));
        args.push(self.keyfile_path(index));
        args.push(owned("-N"));
        args.push(owned(""));
        args.push(owned("-t"));
        args.push(owned(self.keys[index].as_str()));
        let c = CommandLine { program: owned("ssh-keygen"), args };
        assert(c@.args =~= keygen_command_spec(self.keys_of()[index as int]).args);
        c
    }

    /// The command that runs the daemon.
    pub fn sshd_command(&self) -> (c: CommandLine)
        ensures
            c@ == sshd_command_spec(),
    {
        let mut args: Vec<String> = Vec::new();
        args.push(owned("-D"));
        let c = CommandLine { program: owned("/usr/sbin/sshd"), args };
        assert(c@.args =~= sshd_command_spec().args);
        c
    }

    /// The key with index `index` is being generated by `pid`.
    pub fn keygen_started(&mut self, index: usize, pid: u32)
        requires
            index < old(self).keys_of().len(),
        ensures
            final(self).wf(),
            final(self).keys_of() == old(self).keys_of(),
            final(self).state_of() == SshState::KeygenRunning(index, pid),
    {
        self.state = SshState::KeygenRunning(index, pid);
    }

    /// The daemon runs as `pid`.
    pub fn sshd_started(&mut self, pid: u32, stdout_fd: Option<i32>, stderr_fd: Option<i32>)
        ensures
            final(self).wf(),
            final(self).keys_of() == old(self).keys_of(),
            final(self).state_of() == (SshState::Running { pid, stdout_fd, stderr_fd }),
    {
        self.state = SshState::Running { pid, stdout_fd, stderr_fd };
    }

    /// A key directory, key generation or daemon could not be made or
    /// started.
    pub fn failed(&mut self)
        ensures
            final(self).wf(),
            final(self).keys_of() == old(self).keys_of(),
            final(self).state_of() == SshState::Error,
    {
        self.state = SshState::Error;
    }

    /// The exit of process `pid`: when it generated a key, the index of the
    /// key to go on with.
    pub fn process_exited(&self, pid: u32) -> (r: Option<usize>)
        requires
            self.wf(),
        ensures
            match self.state_of() {
                SshState::KeygenRunning(i, p) => if p == pid {
                    r == Some((i + 1) as usize)
                } else {
                    r is None
                },
                _ => r is None,
            },
    {
        let n = self.keys.len();
        match self.state {
            SshState::KeygenRunning(i, p) => {
                if p == pid {
                    assert(i < n);
                    Some(i + 1)
                } else {
                    None
                }
            },
            _ => None,
        }
    }

    /// Which output of the daemon the descriptor `fd` is, if any.
    pub fn fd_event(&self, fd: i32) -> (r: Option<Stream>)
        ensures
            r == match self.state_of() {
                SshState::Running { stdout_fd, stderr_fd, .. } => if stdout_fd == Some(fd) {
                    Some(Stream::Stdout)
                } else if stderr_fd == Some(fd) {
                    Some(Stream::Stderr)
                } else {
                    None
                },
                _ => None,
            },
    {
        match self.state {
            SshState::Running { stdout_fd, stderr_fd, .. } => {
                if stdout_fd == Some(fd) {
                    Some(Stream::Stdout)
                } else if stderr_fd == Some(fd) {
                    Some(Stream::Stderr)
                } else {
                    None
                }
            },
            _ => None,
        }
    }

    /// The daemon's process, if it runs.
    pub fn running_pid(&self) -> (r: Option<u32>)
        ensures
            r == match self.state_of() {
                SshState::Running { pid, .. } => Some(pid),
                _ => None,
            },
    {
        match self.state {
            SshState::Running { pid, .. } => Some(pid),
            _ => None,
        }
    }

    /// Stopping: a running daemon that was killed and reaped (`killed`)
    /// leaves the service idle, one that could not be leaves it in error;
    /// a service that does not run goes idle.
    pub fn stop(&mut self, killed: bool)
        ensures
            final(self).wf(),
            final(self).keys_of() == old(self).keys_of(),
            final(self).state_of() == match old(self).state_of() {
                SshState::Running { .. } => if killed {
                    SshState::Idle
                } else {
                    SshState::Error
                },
                _ => SshState::Idle,
            },
    {
        match self.state {
            SshState::Running { .. } => {
                if killed {
                    self.state = SshState::Idle;
                } else {
                    self.state = SshState::Error;
                }
            },
            _ => {
                self.state = SshState::Idle;
            },
        }
    }
}

} // verus!
