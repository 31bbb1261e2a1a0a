//! A serial login console: a `getty` on a tty device, started when the
//! device appears, stopped when it goes, and respawned when it exits.

use vstd::prelude::*;
use crate::service::{
    action_of, devname_of, is_add, is_remove, key_action, key_devname, key_subsystem,
    prop_value, subsystem_of, word_add, word_remove, CommandLine, CommandSpec,
    ServiceState,
};
use crate::text::{chars_of, decimal, has_prefix, owned, push_decimal, slice_chars, str_eq, string_of};
use crate::uevent::{EventData, EventView};

verus! {

/// The name of a tty device: its `DEVNAME` without a leading "/dev/".
pub open spec fn tty_name(devname: Seq<char>) -> Seq<char> {
    if has_prefix(devname, "/dev/"@) {
        devname.skip(5)
    } else {
        devname
    }
}

/// The tty change that a device event reports: for an "add" or "remove"
/// in the "tty" subsystem that names its device, whether it was added and
/// the name of the tty.
pub open spec fn tty_change_spec(ev: EventView) -> Option<(bool, Seq<char>)> {
    match prop_value(ev, key_action()) {
        Some(a) => if a == word_add() || a == word_remove() {
            match prop_value(ev, key_subsystem()) {
                Some(s) => if s == "tty"@ {
                    match prop_value(ev, key_devname()) {
                        Some(d) => Some((a == word_add(), tty_name(d))),
                        None => None,
                    }
                } else {
                    None
                },
                None => None,
            }
        } else {
            None
        },
        None => None,
    }
}

/// The tty change that `event` reports (see `tty_change_spec`).
pub fn tty_change(event: &EventData) -> (r: Option<(bool, String)>)
    ensures
        match r {
            Some((added, name)) => tty_change_spec(event@) == Some((added, name@)),
            None => tty_change_spec(event@) is None,
        },
        r matches Some((added, name)) ==> {
            &&& prop_value(event@, key_devname()) is Some
            &&& (added <==> prop_value(event@, key_action()) == Some(word_add()))
            &&& has_prefix(prop_value(event@, key_devname())->0, dev_dir()) ==> prop_value(
                event@,
                key_devname(),
            )->0 == dev_dir() + name@
            &&& !has_prefix(prop_value(event@, key_devname())->0, dev_dir()) ==> name@
                == prop_value(event@, key_devname())->0
        },
{
    proof {
        lemma_tty_change_strips_dev(event@);
    }
    let action = match action_of(event) {
        Some(a) => a,
        None => {
            return None;
        },
    };
    let added = is_add(action);
    if !(added || is_remove(action)) {
        return None;
    }
    let subsys = match subsystem_of(event) {
        Some(s) => s,
        None => {
            return None;
        },
    };
    if !str_eq(subsys, "tty") {
        return None;
    }
    let devname = match devname_of(event) {
        Some(d) => d,
        None => {
            return None;
        },
    };
    let d = chars_of(devname);
    let prefix = chars_of("/dev/");
    proof {
        reveal_strlit("/dev/");
    }
    let name = if crate::text::starts_with(&d, &prefix) {
        slice_chars(&d, 5, d.len())
    } else {
        d
    };
    assert(has_prefix(devname@, "/dev/"@) ==> name@ =~= devname@.skip(5));
    Some((added, string_of(name.as_slice())))
}

/// What a device event means to the console on `name`: nothing for udev
/// events or events that are not tty changes; otherwise the event is taken,
/// and when it is this console's tty the getty is to start (added) or stop.
pub open spec fn console_device_event(ev: EventView, name: Seq<char>) -> Option<Option<bool>> {
    if ev.udev {
        None
    } else {
        match tty_change_spec(ev) {
            Some((added, n)) => Some(if n == name {
                Some(added)
            } else {
                None
            }),
            None => None,
        }
    }
}

/// The directory of device nodes, as a prefix of a `DEVNAME`.
pub open spec fn dev_dir() -> Seq<char> {
    seq!['/', 'd', 'e', 'v', '/']
}

/// A tty change names the device of the event's `DEVNAME` with a leading
/// "/dev/" taken off, whether the device was added or removed; it was added
/// exactly when the action is "add".
pub proof fn lemma_tty_change_strips_dev(ev: EventView)
    ensures
        tty_change_spec(ev) matches Some((added, n)) ==> {
            &&& prop_value(ev, key_devname()) is Some
            &&& (added <==> prop_value(ev, key_action()) == Some(word_add()))
            &&& has_prefix(prop_value(ev, key_devname())->0, dev_dir()) ==> prop_value(
                ev,
                key_devname(),
            )->0 == dev_dir() + n
            &&& !has_prefix(prop_value(ev, key_devname())->0, dev_dir()) ==> n == prop_value(
                ev,
                key_devname(),
            )->0
        },
{
    reveal_strlit("/dev/");
    assert("/dev/"@ =~= dev_dir());
    if let Some(d) = prop_value(ev, key_devname()) {
        if has_prefix(d, dev_dir()) {
            assert(d =~= dev_dir() + d.skip(5));
        }
    }
}

/// Two events about the same `DEVNAME` report the same tty, whatever their
/// actions.
pub proof fn lemma_tty_name_ignores_action(ev1: EventView, ev2: EventView)
    requires
        prop_value(ev1, key_devname()) == prop_value(ev2, key_devname()),
        tty_change_spec(ev1) is Some,
        tty_change_spec(ev2) is Some,
    ensures
        tty_change_spec(ev1).unwrap().1 == tty_change_spec(ev2).unwrap().1,
{
}

/// A kernel event that adds or removes the tty device `/dev/<name>` starts
/// or stops the console on `name`.
pub proof fn lemma_console_follows_its_tty(ev: EventView, name: Seq<char>, added: bool)
    requires
        !ev.udev,
        prop_value(ev, key_action()) == Some(if added { word_add() } else { word_remove() }),
        prop_value(ev, key_subsystem()) == Some(seq!['t', 't', 'y']),
        prop_value(ev, key_devname()) == Some(dev_dir() + name),
    ensures
        console_device_event(ev, name) == Some(Some(added)),
{
    reveal_strlit("/dev/");
    reveal_strlit("tty");
    assert("/dev/"@ =~= dev_dir());
    assert("tty"@ =~= seq!['t', 't', 'y']);
    let d = dev_dir() + name;
    assert(d.take(5) =~= dev_dir());
    assert(d.skip(5) =~= name);
    assert(word_add() != word_remove());
}

/// `/sbin/getty -i -L <baud> <name>`.
pub open spec fn getty_command(name: Seq<char>, baud: u32) -> CommandSpec {
    CommandSpec { program: "/sbin/getty"@, args: seq!["-i"@, "-L"@, decimal(baud as nat), name] }
}

/// A login console on a serial tty.
pub struct ConsoleService {
    name: String,
    baud: u32,
    respawn: bool,
    process: Option<u32>,
}

impl ConsoleService {
    pub closed spec fn name_of(&self) -> Seq<char> {
        self.name@
    }

    pub closed spec fn baud_of(&self) -> u32 {
        self.baud
    }

    pub closed spec fn respawns(&self) -> bool {
        self.respawn
    }

    /// The running getty, if one runs.
    pub closed spec fn process_of(&self) -> Option<u32> {
        self.process
    }

    /// A console on the tty `name` at `baud`; `respawn` restarts the getty
    /// whenever it exits.
    pub fn new(name: &str, baud: u32, respawn: bool) -> (s: Self)
        ensures
            s.name_of() == name@,
            s.baud_of() == baud,
            s.respawns() == respawn,
            s.process_of() is None,
    {
        ConsoleService { name: owned(name), baud, respawn, process: None }
    }

    /// The tty's name.
    pub fn name(&self) -> (n: &str)
        ensures
            n@ == self.name_of(),
    {
        self.name.as_str()
    }

    /// The console reports no state of its own.
    pub fn state(&self) -> (r: ServiceState)
        ensures
            r == ServiceState::Unknown,
    {
        ServiceState::Unknown
    }

    /// The getty to start (once its device exists), unless one runs.
    pub fn start(&self) -> (r: Option<CommandLine>)
        ensures
            match r {
                Some(c) => self.process_of() is None && c@ == getty_command(
                    self.name_of(),
                    self.baud_of(),
                ),
                None => self.process_of() is Some,
            },
    {
        if self.process.is_some() {
            return None;
        }
        let mut baud: Vec<char> = Vec::new();
        push_decimal(self.baud as u64, &mut baud);
        assert(baud@ =~= decimal(self.baud as nat));
        let mut args: Vec<String> = Vec::new();
        args.push(owned("-i"));
        args.push(owned("-L"));
        args.push(string_of(baud.as_slice()));
        args.push(owned(self.name.as_str()));
        let c = CommandLine { program: owned("/sbin/getty"), args };
        assert(c@.args =~= getty_command(self.name_of(), self.baud_of()).args);
        Some(c)
    }

    /// The getty was started as `pid`.
    pub fn started(&mut self, pid: u32)
        ensures
            final(self).process_of() == Some(pid),
            final(self).name_of() == old(self).name_of(),
            final(self).baud_of() == old(self).baud_of(),
            final(self).respawns() == old(self).respawns(),
    {
        self.process = Some(pid);
    }

    /// The getty, if any, was killed and reaped.
    pub fn stopped(&mut self)
        ensures
            final(self).process_of() is None,
            final(self).name_of() == old(self).name_of(),
            final(self).baud_of() == old(self).baud_of(),
            final(self).respawns() == old(self).respawns(),
    {
        self.process = None;
    }

    /// The exit of process `pid`: when it is the getty, it is forgotten, and
    /// the result says whether to start a new one (`Some(respawn)`).
    pub fn process_exited(&mut self, pid: u32) -> (r: Option<bool>)
        ensures
            final(self).name_of() == old(self).name_of(),
            final(self).baud_of() == old(self).baud_of(),
            final(self).respawns() == old(self).respawns(),
            if old(self).process_of() == Some(pid) {
                r == Some(old(self).respawns()) && final(self).process_of() is None
            } else {
                r is None && final(self).process_of() == old(self).process_of()
            },
    {
        if let Some(p) = self.process {
            if p == pid {
                self.process = None;
                return Some(self.respawn);
            }
        }
        None
    }

    /// What a device event means to this console (see
    /// `console_device_event`): `None` when not taken; `Some(Some(true))` to
    /// start, `Some(Some(false))` to stop, `Some(None)` taken with nothing
    /// to do.
    pub fn device_event(&self, event: &EventData) -> (r: Option<Option<bool>>)
        ensures
            r == console_device_event(event@, self.name_of()),
    {
        if event.is_udev() {
            return None;
        }
        match tty_change(event) {
            Some((added, n)) => {
                if str_eq(self.name.as_str(), n.as_str()) {
                    Some(Some(added))
                } else {
                    Some(None)
                }
            },
            None => None,
        }
    }
}

} // verus!
