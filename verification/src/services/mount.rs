//! Mounting a list of file systems, one after the other: each mount that
//! is not there yet is made by a `mount` process, and the next one starts
//! once that process has exited successfully.

use vstd::prelude::*;
use crate::service::ServiceState;
use crate::text::{owned, string_of};

verus! {

/// A file system to mount.
pub struct MountEntry {
    pub fstype: String,
    pub device: Option<String>,
    pub point: String,
    pub options: Option<String>,
}

/// What a mount to make is.
pub ghost struct MountSpec {
    pub fstype: Seq<char>,
    pub device: Option<Seq<char>>,
    pub point: Seq<char>,
    pub options: Option<Seq<char>>,
}

pub open spec fn opt_string(s: Option<String>) -> Option<Seq<char>> {
    match s {
        Some(x) => Some(x@),
        None => None,
    }
}

impl View for MountEntry {
    type V = MountSpec;

    open spec fn view(&self) -> MountSpec {
        MountSpec {
            fstype: self.fstype@,
            device: opt_string(self.device),
            point: self.point@,
            options: opt_string(self.options),
        }
    }
}

/// Where the mounting is.
#[derive(Debug, PartialEq, Eq, Structural, Clone, Copy)]
pub enum MountState {
    /// Not started.
    Idle,
    /// Started, no mount attempted yet.
    Start,
    /// The mount of entry `index` was made, by the process `pid` when one
    /// was needed; it is awaited before the next.
    Waiting(Option<u32>, usize),
    Complete,
    Error,
}

/// What happened when a mount was attempted.
#[derive(Debug, PartialEq, Eq, Structural, Clone, Copy)]
pub enum MountOutcome {
    /// The file system was mounted already.
    AlreadyMounted,
    /// A `mount` process was started.
    Spawned(u32),
    /// The mount point could not be made, or the process not started.
    Failed,
}

/// What the exit of a process means to the mounting.
#[derive(Debug, PartialEq, Eq, Structural, Clone, Copy)]
pub enum MountExit {
    /// Not the awaited process: nothing to do.
    Ignored,
    /// The awaited mount succeeded: go on with the next.
    Next,
    /// The mount of the entry with this index failed; mounting stopped.
    Failed(usize),
}

/// A list of mounts to make, in order.
pub struct MountSetup {
    mounts: Vec<MountEntry>,
    state: MountState,
}

pub open spec fn opt_view(s: Option<&str>) -> Option<Seq<char>> {
    match s {
        Some(x) => Some(x@),
        None => None,
    }
}

fn opt_owned(s: Option<&str>) -> (r: Option<String>)
    ensures
        opt_string(r) == opt_view(s),
{
    match s {
        Some(x) => Some(owned(x)),
        None => None,
    }
}

/// The arguments of the `mount` command for an entry:
/// `-t fstype device point`, the device being `none` when not given,
/// then `-o options` when options are given.
pub open spec fn mount_args_spec(m: MountSpec) -> Seq<Seq<char>> {
    let base = seq![
        seq!['-', 't'],
        m.fstype,
        match m.device {
            Some(d) => d,
            None => seq!['n', 'o', 'n', 'e'],
        },
        m.point,
    ];
    match m.options {
        Some(o) => base + seq![seq!['-', 'o'], o],
        None => base,
    }
}

/// The `mount` arguments name the type, the device (`none` when there is
/// none) and the mount point, in that order; the options, when an entry has
/// them, follow as `-o <options>` whatever the device is, and nothing else
/// does.
pub proof fn lemma_mount_args_shape(m: MountSpec)
    ensures
        mount_args_spec(m).len() == if m.options is Some {
            6int
        } else {
            4int
        },
        mount_args_spec(m)[0] == seq!['-', 't'],
        mount_args_spec(m)[1] == m.fstype,
        m.device matches Some(d) ==> mount_args_spec(m)[2] == d,
        m.device is None ==> mount_args_spec(m)[2] == seq!['n', 'o', 'n', 'e'],
        mount_args_spec(m)[3] == m.point,
        m.options matches Some(o) ==> mount_args_spec(m)[4] == seq!['-', 'o']
            && mount_args_spec(m)[5] == o,
{
}

impl MountSetup {
    pub closed spec fn mounts_of(&self) -> Seq<MountSpec> {
        self.mounts@.map_values(|m: MountEntry| m@)
    }

    pub closed spec fn state_of(&self) -> MountState {
        self.state
    }

    /// An awaited mount is always one of the list.
    pub closed spec fn wf(&self) -> bool {
        self.state matches MountState::Waiting(_, i) ==> i < self.mounts@.len()
    }

    /// An empty list, not started.
    pub fn new() -> (s: Self)
        ensures
            s.wf(),
            s.mounts_of() == Seq::<MountSpec>::empty(),
            s.state_of() == MountState::Idle,
    {
        let s = MountSetup { mounts: Vec::new(), state: MountState::Idle };
        assert(s.mounts_of() =~= Seq::<MountSpec>::empty());
        s
    }

    /// Adds a mount at the end of the list.
    pub fn add(&mut self, fstype: &str, device: Option<&str>, point: &str, options: Option<&str>)
        requires
            old(self).wf(),
        ensures
            final(self).wf(),
            final(self).state_of() == old(self).state_of(),
            final(self).mounts_of() == old(self).mounts_of().push(
                MountSpec {
                    fstype: fstype@,
                    device: opt_view(device),
                    point: point@,
                    options: opt_view(options),
                },
            ),
    {
        let entry = MountEntry {
            fstype: owned(fstype),
            device: opt_owned(device),
            point: owned(point),
            options: opt_owned(options),
        };
        let ghost before = self.mounts_of();
        self.mounts.push(entry);
        assert(self.mounts_of() =~= before.push(
            MountSpec {
                fstype: fstype@,
                device: opt_view(device),
                point: point@,
                options: opt_view(options),
            },
        ));
    }

    /// Number of mounts in the list.
    pub fn len(&self) -> (n: usize)
        ensures
            n == self.mounts_of().len(),
    {
        self.mounts.len()
    }

    /// The mount with index `index`.
    pub fn entry(&self, index: usize) -> (e: &MountEntry)
        requires
            index < self.mounts_of().len(),
        ensures
            e@ == self.mounts_of()[index as int],
    {
        &self.mounts[index]
    }

    /// The state reported for each state of the mounting.
    pub fn state(&self) -> (r: ServiceState)
        ensures
            r == match self.state_of() {
                MountState::Complete => ServiceState::Completed,
                MountState::Waiting(_, _) => ServiceState::Starting,
                MountState::Error => ServiceState::Error,
                _ => ServiceState::Inactive,
            },
    {
        match self.state {
            MountState::Complete => ServiceState::Completed,
            MountState::Waiting(_, _) => ServiceState::Starting,
            MountState::Error => ServiceState::Error,
            _ => ServiceState::Inactive,
        }
    }

    /// Starts the mounting, when not started yet and there is something to
    /// mount. Returns whether it started (the caller then goes on with
    /// `next_mount`).
    pub fn start(&mut self) -> (started: bool)
        requires
            old(self).wf(),
        ensures
            final(self).wf(),
            final(self).mounts_of() == old(self).mounts_of(),
            started == (old(self).state_of() == MountState::Idle && old(
                self,
            ).mounts_of().len() > 0),
            final(self).state_of() == if started {
                MountState::Start
            } else {
                old(self).state_of()
            },
    {
        if let MountState::Idle = self.state {
            if self.mounts.len() > 0 {
                self.state = MountState::Start;
                return true;
            }
        }
        false
    }

    /// The index of the mount to attempt next: the first after start, then
    /// the one after the mount last made. When none is left the mounting
    /// is complete; in any other state there is nothing to attempt.
    pub fn next_mount(&mut self) -> (r: Option<usize>)
        requires
            old(self).wf(),
        ensures
            final(self).wf(),
            final(self).mounts_of() == old(self).mounts_of(),
            match old(self).state_of() {
                MountState::Start => if old(self).mounts_of().len() > 0 {
                    r == Some(0usize) && final(self).state_of() == old(self).state_of()
                } else {
                    r is None && final(self).state_of() == MountState::Complete
                },
                MountState::Waiting(_, i) => if i + 1 < old(self).mounts_of().len() {
                    r == Some((i + 1) as usize) && final(self).state_of() == old(self).state_of()
                } else {
                    r is None && final(self).state_of() == MountState::Complete
                },
                _ => r is None && final(self).state_of() == old(self).state_of(),
            },
    {
        let n = self.mounts.len();
        let index = match self.state {
            MountState::Start => 0,
            MountState::Waiting(_, i) => {
                assert(i < n);
                i + 1
            },
            _ => {
                return None;
            },
        };
        if index >= n {
            self.state = MountState::Complete;
            return None;
        }
        Some(index)
    }

    /// Records what happened when the mount with index `index` was
    /// attempted. Returns whether the caller goes on at once with
    /// `next_mount` (only when it was mounted already).
    pub fn mount_done(&mut self, index: usize, outcome: MountOutcome) -> (go_on: bool)
        requires
            old(self).wf(),
            index < old(self).mounts_of().len(),
        ensures
            final(self).wf(),
            final(self).mounts_of() == old(self).mounts_of(),
            go_on == (outcome == MountOutcome::AlreadyMounted),
            final(self).state_of() == match outcome {
                MountOutcome::AlreadyMounted => MountState::Waiting(None, index),
                MountOutcome::Spawned(pid) => MountState::Waiting(Some(pid), index),
                MountOutcome::Failed => MountState::Error,
            },
    {
        match outcome {
            MountOutcome::AlreadyMounted => {
                self.state = MountState::Waiting(None, index);
                true
            },
            MountOutcome::Spawned(pid) => {
                self.state = MountState::Waiting(Some(pid), index);
                false
            },
            MountOutcome::Failed => {
                self.state = MountState::Error;
                false
            },
        }
    }

    /// What the exit of process `pid`, successful or not, means: when a
    /// mount is awaited and the process is its own (or the mount needed no
    /// process), success goes on with the next mount and failure stops the
    /// mounting with an error.
    pub fn process_exited(&mut self, pid: u32, success: bool) -> (r: MountExit)
        requires
            old(self).wf(),
        ensures
            final(self).wf(),
            final(self).mounts_of() == old(self).mounts_of(),
            match old(self).state_of() {
                MountState::Waiting(child, index) => if child matches Some(c) && c != pid {
                    r == MountExit::Ignored && final(self).state_of() == old(self).state_of()
                } else if success {
                    r == MountExit::Next && final(self).state_of() == old(self).state_of()
                } else {
                    r == MountExit::Failed(index) && final(self).state_of() == MountState::Error
                },
                _ => r == MountExit::Ignored && final(self).state_of() == old(self).state_of(),
            },
    {
        if let MountState::Waiting(child, index) = self.state {
            if let Some(c) = child {
                if c != pid {
                    return MountExit::Ignored;
                }
            }
            if success {
                return MountExit::Next;
            }
            self.state = MountState::Error;
            return MountExit::Failed(index);
        }
        MountExit::Ignored
    }

    /// The arguments of the `mount` command for the mount with index
    /// `index` (see `mount_args_spec`).
    pub fn mount_args(&self, index: usize) -> (args: Vec<String>)
        requires
            index < self.mounts_of().len(),
        ensures
            args@.map_values(|a: String| a@) == mount_args_spec(self.mounts_of()[index as int]),
            args@.len() == if self.mounts_of()[index as int].options is Some {
                6int
            } else {
                4int
            },
            self.mounts_of()[index as int].options matches Some(o) ==> args@[4]@ == seq!['-', 'o']
                && args@[5]@ == o,
    {
        let m = &self.mounts[index];
        let mut args: Vec<String> = Vec::new();
        proof {
            reveal_strlit("-t");
            reveal_strlit("none");
            reveal_strlit("-o");
            assert("-t"@ =~= seq!['-', 't']);
            assert("none"@ =~= seq!['n', 'o', 'n', 'e']);
            assert("-o"@ =~= seq!['-', 'o']);
        }
        args.push(owned("-t"));
        args.push(string_of(crate::text::chars_of(m.fstype.as_str()).as_slice()));
        match &m.device {
            Some(d) => args.push(owned(d.as_str())),
            None => args.push(owned("none")),
        }
        args.push(owned(m.point.as_str()));
        match &m.options {
            Some(o) => {
                args.push(owned("-o"));
                args.push(owned(o.as_str()));
            },
            None => {},
        }
        assert(args@.map_values(|a: String| a@) =~= mount_args_spec(self.mounts_of()[index as int]));
        proof {
            lemma_mount_args_shape(self.mounts_of()[index as int]);
            let v = args@.map_values(|a: String| a@);
            assert(v.len() == args@.len());
            if self.mounts_of()[index as int].options is Some {
                assert(v[4] == args@[4]@);
                assert(v[5] == args@[5]@);
            }
        }
        args
    }
}

} // verus!
