use vstd::prelude::*;

verus! {

/// Saturating vertical scroll offset with no-op detection.
///
/// The offset is an unsigned counter: decrementing clamps at zero and
/// incrementing saturates at the machine limit. Every mutation reports
/// whether the value actually changed, which the event loop uses to
/// decide between a redraw and an audible bell.
pub struct ScrollState {
    pub offset: usize,
}

impl ScrollState {
    /// A fresh scroll state, positioned at the top.
    pub fn new() -> (s: ScrollState)
        ensures
            s.offset == 0,
    {
        ScrollState { offset: 0 }
    }

    /// Move one line up (toward zero), saturating at zero.
    /// Returns whether the offset actually changed.
    pub fn scroll_up(&mut self) -> (changed: bool)
        ensures
            final(self).offset == if old(self).offset > 0 {
                old(self).offset - 1
            } else {
                0int
            },
            changed == (old(self).offset > 0),
    {
        if self.offset > 0 {
            self.offset = self.offset - 1;
            true
        } else {
            false
        }
    }

    /// Move one line down, saturating at the machine limit.
    /// Returns whether the offset actually changed.
    pub fn scroll_down(&mut self) -> (changed: bool)
        ensures
            final(self).offset == if old(self).offset < usize::MAX {
                old(self).offset + 1
            } else {
                old(self).offset as int
            },
            changed == (old(self).offset < usize::MAX),
    {
        if self.offset < usize::MAX {
            self.offset = self.offset + 1;
            true
        } else {
            false
        }
    }
}

} // verus!
