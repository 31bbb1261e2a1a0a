//! The device manager: loads the kernel module that a device's alias
//! names, for the devices present at start and for those added later.

use vstd::prelude::*;
use crate::kmod::{resolve_in, AliasMap};
use crate::service::{
    action_of, is_add, key_action, key_modalias, modalias_of, opt_str, prop_value, word_add,
    ServiceState,
};
use crate::text::owned;
use crate::uevent::{devpath_key, EventData};

verus! {

/// Where the device manager is.
#[derive(Debug, PartialEq, Eq, Structural, Clone, Copy)]
pub enum DeviceManagerState {
    Stopped,
    Starting,
    Running,
}

/// The device manager service.
pub struct DeviceManagerService {
    state: DeviceManagerState,
    aliases: AliasMap,
}

/// The text `"<unknown>"`, used for a device without a `DEVPATH`.
pub open spec fn unknown_devpath() -> Seq<char> {
    seq!['<', 'u', 'n', 'k', 'n', 'o', 'w', 'n', '>']
}

/// The module load that an event asks for: a kernel (not udev) event whose
/// `ACTION` is "add" and that has a `MODALIAS` asks to load the module for
/// that alias; the device is named by its `DEVPATH`, or `"<unknown>"`.
pub open spec fn modalias_request(ev: crate::uevent::EventView) -> Option<(Seq<char>, Seq<char>)> {
    if ev.udev {
        None
    } else {
        match prop_value(ev, key_action()) {
            Some(a) => if a != word_add() {
                None
            } else {
                match prop_value(ev, key_modalias()) {
                    Some(alias) => Some(
                        (
                            match prop_value(ev, devpath_key()) {
                                Some(p) => p,
                                None => unknown_devpath(),
                            },
                            alias,
                        ),
                    ),
                    None => None,
                }
            },
            None => None,
        }
    }
}

impl DeviceManagerService {
    /// A stopped device manager that resolves aliases with `aliases`.
    pub fn new(aliases: AliasMap) -> (s: Self)
        ensures
            s.state_of() == DeviceManagerState::Stopped,
            s.aliases_of() == aliases@,
    {
        DeviceManagerService { state: DeviceManagerState::Stopped, aliases }
    }

    pub closed spec fn state_of(&self) -> DeviceManagerState {
        self.state
    }

    pub closed spec fn aliases_of(&self) -> Seq<(Seq<char>, Seq<char>)> {
        self.aliases@
    }

    /// The state reported for each state of the device manager.
    pub fn state(&self) -> (r: ServiceState)
        ensures
            r == match self.state_of() {
                DeviceManagerState::Stopped => ServiceState::Inactive,
                DeviceManagerState::Starting => ServiceState::Starting,
                DeviceManagerState::Running => ServiceState::Running,
            },
    {
        match self.state {
            DeviceManagerState::Stopped => ServiceState::Inactive,
            DeviceManagerState::Starting => ServiceState::Starting,
            DeviceManagerState::Running => ServiceState::Running,
        }
    }

    /// Start begins: the present devices are about to be scanned.
    pub fn begin_start(&mut self)
        ensures
            final(self).state_of() == DeviceManagerState::Starting,
            final(self).aliases_of() == old(self).aliases_of(),
    {
        self.state = DeviceManagerState::Starting;
    }

    /// The scan of the present devices is over.
    pub fn finish_start(&mut self)
        ensures
            final(self).state_of() == DeviceManagerState::Running,
            final(self).aliases_of() == old(self).aliases_of(),
    {
        self.state = DeviceManagerState::Running;
    }

    /// Stops the device manager.
    pub fn stop(&mut self)
        ensures
            final(self).state_of() == DeviceManagerState::Stopped,
            final(self).aliases_of() == old(self).aliases_of(),
    {
        self.state = DeviceManagerState::Stopped;
    }

    /// The module to load for a device with alias `alias`, if the alias table
    /// names one.
    pub fn module_for(&self, alias: &str) -> (r: Option<&str>)
        ensures
            opt_str(r) == resolve_in(self.aliases_of(), alias@),
    {
        self.aliases.resolve(alias)
    }

    /// The (device path, alias) of the module load that `event` asks for
    /// (see `modalias_request`).
    pub fn device_event(&self, event: &EventData) -> (r: Option<(String, String)>)
        ensures
            match r {
                Some(p) => modalias_request(event@) == Some((p.0@, p.1@)),
                None => modalias_request(event@) is None,
            },
    {
        if event.is_udev() {
            return None;
        }
        match action_of(event) {
            Some(a) => {
                if !is_add(a) {
                    return None;
                }
                match modalias_of(event) {
                    Some(alias) => {
                        let path = match event.devpath() {
                            Some(p) => owned(p),
                            None => {
                                proof {
                                    reveal_strlit("<unknown>");
                                    assert("<unknown>"@ =~= unknown_devpath());
                                }
                                owned("<unknown>")
                            },
                        };
                        Some((path, owned(alias)))
                    },
                    None => None,
                }
            },
            None => None,
        }
    }
}

} // verus!
