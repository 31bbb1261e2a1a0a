//! What every service shares: the state it reports, and the uevent
//! properties that the services look at.

use vstd::prelude::*;
use crate::text::str_eq;
use crate::uevent::{EventData, EventView};

verus! {

/// The state that a service reports.
#[derive(Debug, PartialEq, Eq, Structural, Clone, Copy)]
pub enum ServiceState {
    Unknown,
    Inactive,
    Starting,
    Running,
    Completed,
    Error,
}

impl ServiceState {
    /// A service that is waited for is ready once it runs or has completed.
    pub fn is_ready(&self) -> (b: bool)
        ensures
            b == (*self == ServiceState::Running || *self == ServiceState::Completed),
    {
        match self {
            ServiceState::Running => true,
            ServiceState::Completed => true,
            _ => false,
        }
    }
}

/// What a command line is: the program and its arguments.
pub ghost struct CommandSpec {
    pub program: Seq<char>,
    pub args: Seq<Seq<char>>,
}

/// A program to run, with its arguments.
#[derive(Debug)]
pub struct CommandLine {
    pub program: String,
    pub args: Vec<String>,
}

impl View for CommandLine {
    type V = CommandSpec;

    open spec fn view(&self) -> CommandSpec {
        CommandSpec { program: self.program@, args: self.args@.map_values(|a: String| a@) }
    }
}

/// The value of the property `key` of an event, if it has it.
pub open spec fn prop_value(ev: EventView, key: Seq<char>) -> Option<Seq<char>> {
    if ev.props.dom().contains(key) {
        Some(ev.props[key])
    } else {
        None
    }
}

/// The text of an optional string slice.
pub open spec fn opt_str(s: Option<&str>) -> Option<Seq<char>> {
    match s {
        Some(x) => Some(x@),
        None => None,
    }
}

pub open spec fn key_action() -> Seq<char> {
    seq!['A', 'C', 'T', 'I', 'O', 'N']
}

pub open spec fn key_subsystem() -> Seq<char> {
    seq!['S', 'U', 'B', 'S', 'Y', 'S', 'T', 'E', 'M']
}

pub open spec fn key_devname() -> Seq<char> {
    seq!['D', 'E', 'V', 'N', 'A', 'M', 'E']
}

pub open spec fn key_interface() -> Seq<char> {
    seq!['I', 'N', 'T', 'E', 'R', 'F', 'A', 'C', 'E']
}

pub open spec fn key_modalias() -> Seq<char> {
    seq!['M', 'O', 'D', 'A', 'L', 'I', 'A', 'S']
}

pub open spec fn word_add() -> Seq<char> {
    seq!['a', 'd', 'd']
}

pub open spec fn word_remove() -> Seq<char> {
    seq!['r', 'e', 'm', 'o', 'v', 'e']
}

/// The `ACTION` of an event.
pub fn action_of(ev: &EventData) -> (r: Option<&str>)
    ensures
        opt_str(r) == prop_value(ev@, key_action()),
{
    proof {
        reveal_strlit("ACTION");
        assert("ACTION"@ =~= key_action());
    }
    ev.get("ACTION")
}

/// The `SUBSYSTEM` of an event.
pub fn subsystem_of(ev: &EventData) -> (r: Option<&str>)
    ensures
        opt_str(r) == prop_value(ev@, key_subsystem()),
{
    proof {
        reveal_strlit("SUBSYSTEM");
        assert("SUBSYSTEM"@ =~= key_subsystem());
    }
    ev.get("SUBSYSTEM")
}

/// The `DEVNAME` of an event.
pub fn devname_of(ev: &EventData) -> (r: Option<&str>)
    ensures
        opt_str(r) == prop_value(ev@, key_devname()),
{
    proof {
        reveal_strlit("DEVNAME");
        assert("DEVNAME"@ =~= key_devname());
    }
    ev.get("DEVNAME")
}

/// The `INTERFACE` of an event.
pub fn interface_of(ev: &EventData) -> (r: Option<&str>)
    ensures
        opt_str(r) == prop_value(ev@, key_interface()),
{
    proof {
        reveal_strlit("INTERFACE");
        assert("INTERFACE"@ =~= key_interface());
    }
    ev.get("INTERFACE")
}

/// The `MODALIAS` of an event.
pub fn modalias_of(ev: &EventData) -> (r: Option<&str>)
    ensures
        opt_str(r) == prop_value(ev@, key_modalias()),
{
    proof {
        reveal_strlit("MODALIAS");
        assert("MODALIAS"@ =~= key_modalias());
    }
    ev.get("MODALIAS")
}

/// Whether `s` is "add".
pub fn is_add(s: &str) -> (b: bool)
    ensures
        b == (s@ == word_add()),
{
    proof {
        reveal_strlit("add");
        assert("add"@ =~= word_add());
    }
    str_eq(s, "add")
}

/// Whether `s` is "remove".
pub fn is_remove(s: &str) -> (b: bool)
    ensures
        b == (s@ == word_remove()),
{
    proof {
        reveal_strlit("remove");
        assert("remove"@ =~= word_remove());
    }
    str_eq(s, "remove")
}

} // verus!
