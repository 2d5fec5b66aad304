use vstd::prelude::*;

verus! {

/// A local wall-clock reading, to the minute.
#[derive(Clone, Copy, Debug, PartialEq, Eq)]
pub struct NoteTime {
    pub year: i32,
    pub month: u32,
    pub day: u32,
    pub hour: u32,
    pub minute: u32,
}

impl NoteTime {
    /// Every field within its calendar range.
    pub open spec fn wf(&self) -> bool {
        1 <= self.month <= 12 && 1 <= self.day <= 31 && self.hour < 24 && self.minute < 60
    }
}

} // verus!
