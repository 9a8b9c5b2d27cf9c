//! A level-triggered interrupt line into the GIC.
use vstd::prelude::*;

verus! {

/// The level that an interrupt line was last driven to.
pub struct IrqLine {
    intid: u32,
    level: bool,
}

impl IrqLine {
    pub closed spec fn intid(&self) -> u32 {
        self.intid
    }

    pub closed spec fn level(&self) -> bool {
        self.level
    }

    /// A line for interrupt `intid`, low.
    pub fn new(intid: u32) -> (r: IrqLine)
        ensures
            r.intid() == intid,
            !r.level(),
    {
        IrqLine { intid, level: false }
    }

    pub fn id(&self) -> (r: u32)
        ensures
            r == self.intid(),
    {
        self.intid
    }

    /// Records `level`; gives `true` where the line changes and the GIC
    /// must be told.
    pub fn set(&mut self, level: bool) -> (changed: bool)
        ensures
            final(self).level() == level,
            final(self).intid() == old(self).intid(),
            changed == (level != old(self).level()),
    {
        if level == self.level {
            return false;
        }
        self.level = level;
        true
    }
}

} // verus!
