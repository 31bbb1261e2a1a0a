//! A service that runs a program: started once the device nodes it needs
//! exist, its output collected line by line, and restarted or completed
//! when it exits.

use vstd::prelude::*;
use std::collections::VecDeque;
use crate::service::ServiceState;
use crate::text::{owned, owned_all};

verus! {

/// The byte that ends a line.
pub open spec fn newline() -> u8 {
    10
}

/// The complete lines and the unfinished last line after feeding `data` to
/// a buffer that held `lines` and `partial`: every newline byte ends the
/// line being collected.
pub open spec fn feed(lines: Seq<Seq<u8>>, partial: Seq<u8>, data: Seq<u8>) -> (
    Seq<Seq<u8>>,
    Seq<u8>,
)
    decreases data.len(),
{
    if data.len() == 0 {
        (lines, partial)
    } else {
        let prev = feed(lines, partial, data.drop_last());
        if data.last() == newline() {
            (prev.0.push(prev.1), Seq::empty())
        } else {
            (prev.0, prev.1.push(data.last()))
        }
    }
}

/// The bytes that the lines `lines` were cut from: each line followed by
/// its newline.
pub open spec fn joined(lines: Seq<Seq<u8>>) -> Seq<u8>
    decreases lines.len(),
{
    if lines.len() == 0 {
        Seq::empty()
    } else {
        joined(lines.drop_last()) + lines.last() + seq![newline()]
    }
}

/// Feeding loses and adds no byte: the lines, with their newlines, and the
/// unfinished line are what was held before followed by what was fed.
pub proof fn lemma_feed_keeps_bytes(lines: Seq<Seq<u8>>, partial: Seq<u8>, data: Seq<u8>)
    ensures
        joined(feed(lines, partial, data).0) + feed(lines, partial, data).1 == joined(lines)
            + partial + data,
    decreases data.len(),
{
    if data.len() > 0 {
        lemma_feed_keeps_bytes(lines, partial, data.drop_last());
        let prev = feed(lines, partial, data.drop_last());
        assert(data.drop_last().push(data.last()) =~= data);
        if data.last() == newline() {
            assert(prev.0.push(prev.1).drop_last() =~= prev.0);
            assert(joined(prev.0.push(prev.1)) + Seq::<u8>::empty() =~= joined(lines) + partial
                + data);
        } else {
            let c = data.last();
            assert(joined(prev.0) + prev.1.push(c) =~= (joined(prev.0) + prev.1).push(c));
            assert((joined(lines) + partial + data.drop_last()).push(c) =~= joined(lines)
                + partial + data);
        }
    }
}

/// How the output arrives does not matter: feeding `a` and then `b` gives
/// the lines and the unfinished line that feeding `a + b` at once gives.
pub proof fn lemma_feed_in_chunks(lines: Seq<Seq<u8>>, partial: Seq<u8>, a: Seq<u8>, b: Seq<u8>)
    ensures
        feed(feed(lines, partial, a).0, feed(lines, partial, a).1, b) == feed(lines, partial, a + b),
    decreases b.len(),
{
    let first = feed(lines, partial, a);
    if b.len() == 0 {
        assert(a + b =~= a);
    } else {
        lemma_feed_in_chunks(lines, partial, a, b.drop_last());
        assert((a + b).drop_last() =~= a + b.drop_last());
        assert((a + b).last() == b.last());
    }
}

/// Feeding only ever adds lines at the end, and no line holds a newline
/// when none did before.
pub proof fn lemma_feed_lines_have_no_newline(
    lines: Seq<Seq<u8>>,
    partial: Seq<u8>,
    data: Seq<u8>,
)
    requires
        forall|i: int, j: int|
            0 <= i < lines.len() && 0 <= j < lines[i].len() ==> lines[i][j] != newline(),
        forall|j: int| 0 <= j < partial.len() ==> partial[j] != newline(),
    ensures
        feed(lines, partial, data).0.len() >= lines.len(),
        forall|i: int| 0 <= i < lines.len() ==> feed(lines, partial, data).0[i] == lines[i],
        forall|i: int, j: int|
            0 <= i < feed(lines, partial, data).0.len() && 0 <= j < feed(
                lines,
                partial,
                data,
            ).0[i].len() ==> feed(lines, partial, data).0[i][j] != newline(),
        forall|j: int|
            0 <= j < feed(lines, partial, data).1.len() ==> feed(lines, partial, data).1[j]
                != newline(),
    decreases data.len(),
{
    if data.len() > 0 {
        lemma_feed_lines_have_no_newline(lines, partial, data.drop_last());
    }
}

/// What a pipe buffer is: its file descriptor, the complete lines not yet
/// taken, and the line being collected.
pub ghost struct PipeView {
    pub fd: i32,
    pub lines: Seq<Seq<u8>>,
    pub partial: Seq<u8>,
}

/// Collects the output of a pipe and cuts it into lines.
pub struct PipeBuffer {
    pub fd: i32,
    lines: VecDeque<Vec<u8>>,
    buf: Vec<u8>,
}

impl View for PipeBuffer {
    type V = PipeView;

    closed spec fn view(&self) -> PipeView {
        PipeView {
            fd: self.fd,
            lines: self.lines@.map_values(|l: Vec<u8>| l@),
            partial: self.buf@,
        }
    }
}

impl PipeBuffer {
    /// An empty buffer for the pipe `fd` (which the caller has made
    /// non-blocking).
    pub fn new(fd: i32) -> (b: PipeBuffer)
        ensures
            b@.fd == fd,
            b@.lines == Seq::<Seq<u8>>::empty(),
            b@.partial == Seq::<u8>::empty(),
    {
        let b = PipeBuffer { fd, lines: VecDeque::new(), buf: Vec::new() };
        assert(b@.lines =~= Seq::<Seq<u8>>::empty());
        b
    }

    /// Adds bytes read from the pipe (see `feed`).
    pub fn push(&mut self, data: &[u8])
        ensures
            final(self)@.fd == old(self)@.fd,
            (final(self)@.lines, final(self)@.partial) == feed(
                old(self)@.lines,
                old(self)@.partial,
                data@,
            ),
    {
        let mut i: usize = 0;
        assert(data@.take(0) =~= Seq::<u8>::empty());
        while i < data.len()
            invariant
                i <= data.len(),
                self@.fd == old(self)@.fd,
                (self@.lines, self@.partial) == feed(
                    old(self)@.lines,
                    old(self)@.partial,
                    data@.take(i as int),
                ),
            decreases data.len() - i,
        {
            assert(data@.take(i + 1).drop_last() =~= data@.take(i as int));
            let ghost before = self@.lines;
            if data[i] == 10u8 {
                let mut line: Vec<u8> = Vec::new();
                core::mem::swap(&mut line, &mut self.buf);
                let ghost l = line@;
                self.lines.push_back(line);
                assert(self@.lines =~= before.push(l));
            } else {
                self.buf.push(data[i]);
            }
            i = i + 1;
        }
        assert(data@.take(i as int) =~= data@);
    }

    /// Whether a complete line is waiting.
    pub fn has_line(&self) -> (b: bool)
        ensures
            b == (self@.lines.len() > 0),
    {
        self.lines.len() > 0
    }

    /// Takes the oldest complete line, without its newline.
    pub fn pop_line(&mut self) -> (r: Option<Vec<u8>>)
        ensures
            final(self)@.fd == old(self)@.fd,
            final(self)@.partial == old(self)@.partial,
            match r {
                Some(l) => old(self)@.lines.len() > 0 && l@ == old(self)@.lines[0]
                    && final(self)@.lines == old(self)@.lines.drop_first(),
                None => old(self)@.lines.len() == 0 && final(self)@.lines == old(self)@.lines,
            },
    {
        let ghost before = self@.lines;
        let r = self.lines.pop_front();
        assert(self@.lines =~= (if r is Some {
            before.drop_first()
        } else {
            before
        }));
        r
    }
}

/// The two output streams of a program.
#[derive(Debug, PartialEq, Eq, Structural, Clone, Copy)]
pub enum Stream {
    Stdout,
    Stderr,
}

/// Where the program is.
#[derive(Debug, PartialEq, Eq, Structural, Clone, Copy)]
pub enum ProcessState {
    Stopped,
    /// Waiting for its devices, or for a start that failed to spawn.
    Starting,
    /// Running as process `pid`, its output read from the two pipes.
    Running { pid: u32, stdout_fd: i32, stderr_fd: i32 },
    Completed,
    Error,
}

/// What the exit of a process means to the service.
#[derive(Debug, PartialEq, Eq, Structural, Clone, Copy)]
pub enum ProcessExit {
    /// Not the service's process.
    Ignored,
    /// The program failed; the service is in error.
    Failed,
    /// The program ended well: its remaining output is to be read; the
    /// service completed (one-shot) or stopped.
    Finished,
}

/// A service that runs a program.
pub struct ProcessService {
    executable: String,
    args: Vec<String>,
    state: ProcessState,
    oneshot: bool,
    devices: Vec<String>,
}

/// The state reported for each state of a program; a one-shot program
/// counts as starting until it has completed.
pub open spec fn process_service_state(state: ProcessState, oneshot: bool) -> ServiceState {
    match state {
        ProcessState::Starting => ServiceState::Starting,
        ProcessState::Running { .. } => if oneshot {
            ServiceState::Starting
        } else {
            ServiceState::Running
        },
        ProcessState::Completed => ServiceState::Completed,
        ProcessState::Error => ServiceState::Error,
        ProcessState::Stopped => ServiceState::Inactive,
    }
}

impl ProcessService {
    pub closed spec fn executable_of(&self) -> Seq<char> {
        self.executable@
    }

    pub closed spec fn args_of(&self) -> Seq<Seq<char>> {
        self.args@.map_values(|a: String| a@)
    }

    pub closed spec fn devices_of(&self) -> Seq<Seq<char>> {
        self.devices@.map_values(|a: String| a@)
    }

    pub closed spec fn state_of(&self) -> ProcessState {
        self.state
    }

    pub closed spec fn is_oneshot(&self) -> bool {
        self.oneshot
    }

    fn make(executable: &str, args: &[&str], oneshot: bool) -> (s: Self)
        ensures
            s.executable_of() == executable@,
            s.args_of() == args@.map_values(|a: &str| a@),
            s.devices_of() == Seq::<Seq<char>>::empty(),
            s.state_of() == ProcessState::Stopped,
            s.is_oneshot() == oneshot,
    {
        let a = owned_all(args);
        let s = ProcessService {
            executable: owned(executable),
            args: a,
            state: ProcessState::Stopped,
            oneshot,
            devices: Vec::new(),
        };
        assert(s.args_of() =~= args@.map_values(|a: &str| a@));
        assert(s.devices_of() =~= Seq::<Seq<char>>::empty());
        s
    }

    /// A service that keeps `executable` running with `args`.
    pub fn new(executable: &str, args: &[&str]) -> (s: Self)
        ensures
            s.executable_of() == executable@,
            s.args_of() == args@.map_values(|a: &str| a@),
            s.devices_of() == Seq::<Seq<char>>::empty(),
            s.state_of() == ProcessState::Stopped,
            !s.is_oneshot(),
    {
        Self::make(executable, args, false)
    }

    /// A service that runs `executable` with `args` once, to completion.
    pub fn oneshot(executable: &str, args: &[&str]) -> (s: Self)
        ensures
            s.executable_of() == executable@,
            s.args_of() == args@.map_values(|a: &str| a@),
            s.devices_of() == Seq::<Seq<char>>::empty(),
            s.state_of() == ProcessState::Stopped,
            s.is_oneshot(),
    {
        Self::make(executable, args, true)
    }

    /// The program does not start until the path `path` exists.
    pub fn add_device_dependency(&mut self, path: &str)
        ensures
            final(self).devices_of() == old(self).devices_of().push(path@),
            final(self).executable_of() == old(self).executable_of(),
            final(self).args_of() == old(self).args_of(),
            final(self).state_of() == old(self).state_of(),
            final(self).is_oneshot() == old(self).is_oneshot(),
    {
        let ghost before = self.devices_of();
        self.devices.push(owned(path));
        assert(self.devices_of() =~= before.push(path@));
    }

    /// The program.
    pub fn executable(&self) -> (e: &String)
        ensures
            e@ == self.executable_of(),
    {
        &self.executable
    }

    /// Its arguments.
    pub fn args(&self) -> (a: &Vec<String>)
        ensures
            a@.map_values(|x: String| x@) == self.args_of(),
    {
        &self.args
    }

    /// The paths that must exist before it starts.
    pub fn devices(&self) -> (d: &Vec<String>)
        ensures
            d@.map_values(|x: String| x@) == self.devices_of(),
    {
        &self.devices
    }

    /// The state reported (see `process_service_state`).
    pub fn state(&self) -> (r: ServiceState)
        ensures
            r == process_service_state(self.state_of(), self.is_oneshot()),
    {
        match self.state {
            ProcessState::Starting => ServiceState::Starting,
            ProcessState::Running { .. } => {
                if self.oneshot {
                    ServiceState::Starting
                } else {
                    ServiceState::Running
                }
            },
            ProcessState::Completed => ServiceState::Completed,
            ProcessState::Error => ServiceState::Error,
            ProcessState::Stopped => ServiceState::Inactive,
        }
    }

    /// Asks for the program to be started; the caller then tries to spawn it.
    pub fn start(&mut self)
        ensures
            final(self).state_of() == ProcessState::Starting,
            final(self).executable_of() == old(self).executable_of(),
            final(self).args_of() == old(self).args_of(),
            final(self).devices_of() == old(self).devices_of(),
            final(self).is_oneshot() == old(self).is_oneshot(),
    {
        self.state = ProcessState::Starting;
    }

    /// Whether a start is pending: only then is a spawn attempted.
    pub fn wants_spawn(&self) -> (b: bool)
        ensures
            b == (self.state_of() == ProcessState::Starting),
    {
        match self.state {
            ProcessState::Starting => true,
            _ => false,
        }
    }

    /// The program was spawned as `pid` and its output pipes set up.
    pub fn spawned(&mut self, pid: u32, stdout_fd: i32, stderr_fd: i32)
        ensures
            final(self).state_of() == (ProcessState::Running { pid, stdout_fd, stderr_fd }),
            final(self).executable_of() == old(self).executable_of(),
            final(self).args_of() == old(self).args_of(),
            final(self).devices_of() == old(self).devices_of(),
            final(self).is_oneshot() == old(self).is_oneshot(),
    {
        self.state = ProcessState::Running { pid, stdout_fd, stderr_fd };
    }

    /// The program was spawned but its output could not be set up.
    pub fn setup_failed(&mut self)
        ensures
            final(self).state_of() == ProcessState::Error,
            final(self).executable_of() == old(self).executable_of(),
            final(self).args_of() == old(self).args_of(),
            final(self).devices_of() == old(self).devices_of(),
            final(self).is_oneshot() == old(self).is_oneshot(),
    {
        self.state = ProcessState::Error;
    }

    /// The running program was killed and reaped.
    pub fn stopped(&mut self)
        ensures
            final(self).state_of() == match old(self).state_of() {
                ProcessState::Running { .. } => ProcessState::Stopped,
                s => s,
            },
            final(self).executable_of() == old(self).executable_of(),
            final(self).args_of() == old(self).args_of(),
            final(self).devices_of() == old(self).devices_of(),
            final(self).is_oneshot() == old(self).is_oneshot(),
    {
        if let ProcessState::Running { .. } = self.state {
            self.state = ProcessState::Stopped;
        }
    }

    /// The process of the running program, if it runs.
    pub fn running_pid(&self) -> (r: Option<u32>)
        ensures
            r == match self.state_of() {
                ProcessState::Running { pid, .. } => Some(pid),
                _ => None,
            },
    {
        match self.state {
            ProcessState::Running { pid, .. } => Some(pid),
            _ => None,
        }
    }

    /// What the exit of process `pid` means: when it is the running program,
    /// a failure puts the service in error; otherwise it completed (one-shot)
    /// or stopped.
    pub fn process_exited(&mut self, pid: u32, success: bool) -> (r: ProcessExit)
        ensures
            final(self).executable_of() == old(self).executable_of(),
            final(self).args_of() == old(self).args_of(),
            final(self).devices_of() == old(self).devices_of(),
            final(self).is_oneshot() == old(self).is_oneshot(),
            match old(self).state_of() {
                ProcessState::Running { pid: p, .. } => if p != pid {
                    r == ProcessExit::Ignored && final(self).state_of() == old(self).state_of()
                } else if !success {
                    r == ProcessExit::Failed && final(self).state_of() == ProcessState::Error
                } else {
                    r == ProcessExit::Finished && final(self).state_of() == if old(
                        self,
                    ).is_oneshot() {
                        ProcessState::Completed
                    } else {
                        ProcessState::Stopped
                    }
                },
                _ => r == ProcessExit::Ignored && final(self).state_of() == old(self).state_of(),
            },
    {
        if let ProcessState::Running { pid: p, .. } = self.state {
            if p == pid {
                if !success {
                    self.state = ProcessState::Error;
                    return ProcessExit::Failed;
                }
                if self.oneshot {
                    self.state = ProcessState::Completed;
                } else {
                    self.state = ProcessState::Stopped;
                }
                return ProcessExit::Finished;
            }
        }
        ProcessExit::Ignored
    }

    /// Which output of the running program the descriptor `fd` is, if any.
    pub fn fd_event(&self, fd: i32) -> (r: Option<Stream>)
        ensures
            r == match self.state_of() {
                ProcessState::Running { stdout_fd, stderr_fd, .. } => if stdout_fd == fd {
                    Some(Stream::Stdout)
                } else if stderr_fd == fd {
                    Some(Stream::Stderr)
                } else {
                    None
                },
                _ => None,
            },
    {
        match self.state {
            ProcessState::Running { stdout_fd, stderr_fd, .. } => {
                if stdout_fd == fd {
                    Some(Stream::Stdout)
                } else if stderr_fd == fd {
                    Some(Stream::Stderr)
                } else {
                    None
                }
            },
            _ => None,
        }
    }
}

} // verus!
