use vstd::prelude::*;
use vstd::std_specs::convert::TryFromSpecImpl;

use crate::libmount::error::{unsigned, spec_unsigned, AllocationError, Error};

verus! {

/// The raw code of the forward direction.
pub const ITER_FORWARD: u32 = 0;

/// The raw code of the backward direction.
pub const ITER_BACKWARD: u32 = 1;

/// The order in which a cursor walks a collection.
#[derive(Debug, Clone, Copy, PartialEq, Eq, Structural)]
pub enum Direction {
    Forward,
    Backward,
}

impl Direction {
    /// The raw code of this direction.
    pub open spec fn spec_code(self) -> u32 {
        match self {
            Direction::Forward => ITER_FORWARD,
            Direction::Backward => ITER_BACKWARD,
        }
    }

    /// The direction that a raw code stands for.
    pub open spec fn spec_try_from(value: i32) -> Result<Self, Error> {
        if spec_unsigned(value) == ITER_FORWARD {
            Ok(Direction::Forward)
        } else if spec_unsigned(value) == ITER_BACKWARD {
            Ok(Direction::Backward)
        } else {
            Err(Error::UndefinedDirection(spec_unsigned(value)))
        }
    }

    pub fn code(self) -> (r: u32)
        ensures
            r == self.spec_code(),
    {
        match self {
            Direction::Forward => ITER_FORWARD,
            Direction::Backward => ITER_BACKWARD,
        }
    }
}

impl TryFromSpecImpl<i32> for Direction {
    open spec fn obeys_try_from_spec() -> bool {
        true
    }

    open spec fn try_from_spec(value: i32) -> Result<Self, Error> {
        Self::spec_try_from(value)
    }
}

impl TryFrom<i32> for Direction {
    type Error = Error;

    fn try_from(value: i32) -> (r: Result<Self, Error>) {
        let code: u32 = unsigned(value);
        if code == ITER_FORWARD {
            Ok(Direction::Forward)
        } else if code == ITER_BACKWARD {
            Ok(Direction::Backward)
        } else {
            Err(Error::UndefinedDirection(code))
        }
    }
}

/// A cursor: a direction and the number of items already handed out.
#[derive(Debug, Clone, Copy, PartialEq, Eq)]
pub struct IterInternal {
    direction: Direction,
    taken: usize,
}

impl IterInternal {
    pub closed spec fn spec_direction(self) -> Direction {
        self.direction
    }

    /// How many items this cursor has handed out since it was made or reset.
    pub closed spec fn spec_taken(self) -> nat {
        self.taken as nat
    }

    /// The index, in a collection of `len` items, of the item that comes next;
    /// `None` once the cursor has walked all of them.
    pub open spec fn spec_index(self, len: nat) -> Option<int> {
        if self.spec_taken() < len {
            match self.spec_direction() {
                Direction::Forward => Some(self.spec_taken() as int),
                Direction::Backward => Some(len - 1 - self.spec_taken()),
            }
        } else {
            None
        }
    }

    /// A cursor at the start, for a walk in `direction`.
    pub fn new(direction: Direction) -> (r: Result<Self, AllocationError<Self>>)
        ensures
            r is Ok,
            r->Ok_0.spec_direction() == direction,
            r->Ok_0.spec_taken() == 0,
    {
        Ok(IterInternal { direction, taken: 0 })
    }

    /// The direction of the walk.
    pub fn direction(&self) -> (r: Result<Direction, Error>)
        ensures
            r == Ok::<Direction, Error>(self.spec_direction()),
    {
        Ok(self.direction)
    }

    /// Rewinds the cursor; with `Some`, it also takes the direction given.
    pub fn reset(&mut self, direction: Option<Direction>)
        ensures
            final(self).spec_taken() == 0,
            final(self).spec_direction() == match direction {
                Some(d) => d,
                None => old(self).spec_direction(),
            },
    {
        if let Some(d) = direction {
            self.direction = d;
        }
        self.taken = 0;
    }

    /// The index of the next item in a collection of `len` items.
    pub fn index(&self, len: usize) -> (r: Option<usize>)
        ensures
            r is Some <==> self.spec_index(len as nat) is Some,
            r is Some ==> r->Some_0 as int == self.spec_index(len as nat)->Some_0,
            r is Some ==> r->Some_0 < len,
    {
        if self.taken < len {
            match self.direction {
                Direction::Forward => Some(self.taken),
                Direction::Backward => Some(len - 1 - self.taken),
            }
        } else {
            None
        }
    }

    /// Moves past one item.
    pub fn advance(&mut self)
        requires
            old(self).spec_taken() < usize::MAX,
        ensures
            final(self).spec_taken() == old(self).spec_taken() + 1,
            final(self).spec_direction() == old(self).spec_direction(),
    {
        self.taken = self.taken + 1;
    }
}

} // verus!
