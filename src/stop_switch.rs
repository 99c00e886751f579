use vstd::prelude::*;

verus! {

/// The flag that tells every worker of a run to stop. It starts cleared, and
/// once set it stays set: setting it again changes nothing.
#[derive(Debug)]
pub struct StopSwitch {
    stop: bool,
}

impl StopSwitch {
    pub closed spec fn is_set(&self) -> bool {
        self.stop
    }

    /// A cleared switch.
    pub fn new() -> (r: StopSwitch)
        ensures
            !r.is_set(),
    {
        StopSwitch { stop: false }
    }

    /// Whether the workers must stop.
    pub fn stop(&self) -> (r: bool)
        ensures
            r == self.is_set(),
    {
        self.stop
    }

    /// Sets the switch, and tells whether it was set already.
    pub fn trigger(&mut self) -> (was_set: bool)
        ensures
            final(self).is_set(),
            was_set == old(self).is_set(),
    {
        let was_set = self.stop;
        self.stop = true;
        was_set
    }
}

/// Run control: a stop flag that interrupt and duration handlers set, and
/// that never clears.
#[derive(Debug)]
pub struct Comptroller {
    stop: bool,
}

impl Comptroller {
    pub closed spec fn is_stopped(&self) -> bool {
        self.stop
    }

    /// A comptroller that lets work run.
    pub fn new() -> (r: Comptroller)
        ensures
            !r.is_stopped(),
    {
        Comptroller { stop: false }
    }

    /// Whether work must stop.
    pub fn stop(&self) -> (r: bool)
        ensures
            r == self.is_stopped(),
    {
        self.stop
    }

    /// Asks work to stop; it stays stopped.
    pub fn halt(&mut self)
        ensures
            final(self).is_stopped(),
    {
        self.stop = true;
    }
}

} // verus!
