//! Where the focused window stands.

use vstd::prelude::*;

verus! {

/// Position of the focused window, by which cursor coordinates are moved; none
/// while nothing has focus.
#[derive(Debug, Clone, Copy, PartialEq, Eq)]
pub struct FocusOffset {
    value: Option<(i32, i32)>,
}

impl FocusOffset {
    /// The position.
    pub closed spec fn position(&self) -> Option<(i32, i32)> {
        self.value
    }

    /// Nothing has focus.
    pub fn new() -> (offset: FocusOffset)
        ensures
            offset.position() == None::<(i32, i32)>,
    {
        FocusOffset { value: None }
    }

    /// The position.
    pub fn get(&self) -> (value: Option<(i32, i32)>)
        ensures
            value == self.position(),
    {
        self.value
    }

    /// Sets the position.
    pub fn set(&mut self, value: Option<(i32, i32)>)
        ensures
            final(self).position() == value,
    {
        self.value = value;
    }
}

impl Default for FocusOffset {
    fn default() -> (offset: FocusOffset)
        ensures
            offset.position() == None::<(i32, i32)>,
    {
        FocusOffset::new()
    }
}

} // verus!
