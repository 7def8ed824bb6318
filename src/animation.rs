use vstd::prelude::*;

verus! {

/// A sprite animation that runs from `first` to `last` and back.
#[derive(Clone, Copy, Debug, PartialEq, Eq, Structural)]
pub struct AnimationIndices {
    pub first: usize,
    pub last: usize,
    pub direction: isize,
}

impl AnimationIndices {
    /// The frame that follows `index` when the animation timer fires: the
    /// direction turns back at `last` and forward at `first`.
    pub fn next_index(&mut self, index: usize) -> (r: usize)
        ensures
            final(self).first == old(self).first,
            final(self).last == old(self).last,
            final(self).direction == if index == old(self).last {
                -1
            } else if index == old(self).first {
                1
            } else {
                old(self).direction as int
            },
            r == index.wrapping_add_signed(final(self).direction),
    {
        if index == self.last {
            self.direction = -1;
        } else if index == self.first {
            self.direction = 1;
        }
        index.wrapping_add_signed(self.direction)
    }
}

} // verus!
