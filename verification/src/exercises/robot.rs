//! A robot that counts its hardware faults and keeps a log of entries;
//! every mutation is pinned down by its contract.

use vstd::prelude::*;

verus! {

/// A robot with a fault counter and a textual log.
pub struct Robot {
    pub hardware_error_count: u32,
    pub log: Vec<String>,
}

impl Robot {
    /// A fresh robot: no faults counted, one greeting entry in the log.
    pub fn new() -> (robot: Robot)
        ensures
            robot.hardware_error_count == 0,
            robot.log@.len() == 1,
            robot.log@[0]@ == "Initialized"@,
    {
        let mut log: Vec<String> = Vec::new();
        log.push("Initialized".to_owned());
        Robot { hardware_error_count: 0, log }
    }

    /// Counts one more hardware fault; the log is untouched.
    pub fn add_hardware_error(&mut self)
        requires
            old(self).hardware_error_count < u32::MAX,
        ensures
            final(self).hardware_error_count == old(self).hardware_error_count + 1,
            final(self).log == old(self).log,
    {
        let n = self.hardware_error_count;
        self.hardware_error_count = n + 1;
    }

    /// Appends the entry to the log; the fault counter is untouched.
    pub fn write_log(&mut self, entry: &str)
        ensures
            final(self).log@.len() == old(self).log@.len() + 1,
            final(self).log@.last()@ == entry@,
            forall|i: int| 0 <= i < old(self).log@.len() ==> final(self).log@[i] == old(self).log@[i],
            final(self).hardware_error_count == old(self).hardware_error_count,
    {
        self.log.push(entry.to_owned());
    }
}

} // verus!
