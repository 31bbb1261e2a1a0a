//! Setting up a USB gadget on a device controller (UDC), once the
//! controller is there.

use vstd::prelude::*;
use crate::service::ServiceState;
use crate::text::{owned, str_eq};

verus! {

/// The USB gadget service: the UDC it attaches to, whether the gadget was
/// set up and attached, and whether setting it up failed.
pub struct UsbGadgetService {
    name: String,
    configured: bool,
    failed: bool,
}

/// The state reported: an error once setup failed, completed once the
/// gadget is attached, inactive before.
pub open spec fn gadget_service_state(configured: bool, failed: bool) -> ServiceState {
    if failed {
        ServiceState::Error
    } else if configured {
        ServiceState::Completed
    } else {
        ServiceState::Inactive
    }
}

impl UsbGadgetService {
    pub closed spec fn name_of(&self) -> Seq<char> {
        self.name@
    }

    pub closed spec fn is_configured(&self) -> bool {
        self.configured
    }

    pub closed spec fn has_failed(&self) -> bool {
        self.failed
    }

    /// The service for the UDC `device`.
    pub fn new(device: &str) -> (s: Self)
        ensures
            s.name_of() == device@,
            !s.is_configured(),
            !s.has_failed(),
    {
        UsbGadgetService { name: owned(device), configured: false, failed: false }
    }

    /// The UDC's name.
    pub fn name(&self) -> (n: &str)
        ensures
            n@ == self.name_of(),
    {
        self.name.as_str()
    }

    /// The state reported (see `gadget_service_state`).
    pub fn state(&self) -> (r: ServiceState)
        ensures
            r == gadget_service_state(self.is_configured(), self.has_failed()),
    {
        if self.failed {
            ServiceState::Error
        } else if self.configured {
            ServiceState::Completed
        } else {
            ServiceState::Inactive
        }
    }

    /// Whether the UDC is among `interfaces`, the UDCs present.
    pub fn available(&self, interfaces: &[String]) -> (b: bool)
        ensures
            b == exists|i: int| 0 <= i < interfaces@.len() && interfaces@[i]@ == self.name_of(),
    {
        let mut i: usize = 0;
        while i < interfaces.len()
            invariant
                i <= interfaces@.len(),
                forall|k: int| 0 <= k < i ==> interfaces@[k]@ != self.name_of(),
            decreases interfaces@.len() - i,
        {
            if str_eq(interfaces[i].as_str(), self.name.as_str()) {
                return true;
            }
            i = i + 1;
        }
        false
    }

    /// Whether a start sets the gadget up (when its UDC is present): not
    /// after a failure, and not twice.
    pub fn wants_setup(&self) -> (b: bool)
        ensures
            b == (!self.has_failed() && !self.is_configured()),
    {
        !self.failed && !self.configured
    }

    /// The gadget was set up and attached.
    pub fn attached(&mut self)
        ensures
            final(self).name_of() == old(self).name_of(),
            final(self).is_configured(),
            final(self).has_failed() == old(self).has_failed(),
    {
        self.configured = true;
    }

    /// Setting the gadget up failed; no start tries again.
    pub fn setup_failed(&mut self)
        ensures
            final(self).name_of() == old(self).name_of(),
            final(self).is_configured() == old(self).is_configured(),
            final(self).has_failed(),
    {
        self.failed = true;
    }
}

} // verus!
