use vstd::prelude::*;

use crate::memory::Error;

verus! {

/// An address of a memory of `SIZE` bytes: always below `SIZE`.
#[derive(Debug, Clone, Copy)]
pub struct Word<const SIZE: usize>(u16);

impl<const SIZE: usize> Word<SIZE> {
    #[verifier::type_invariant]
    spec fn in_bounds(self) -> bool {
        (self.0 as int) < SIZE as int
    }

    /// The address as a number.
    pub closed spec fn spec_value(self) -> u16 {
        self.0
    }

    /// The address that holds `value`.
    pub closed spec fn spec_new(value: u16) -> Word<SIZE> {
        Word(value)
    }

    /// An address is the address of its number.
    pub proof fn lemma_spec_new(w: Word<SIZE>)
        ensures
            Word::<SIZE>::spec_new(w.spec_value()) == w,
            Word::<SIZE>::spec_new(w.spec_value()).spec_value() == w.spec_value(),
    {
    }

    /// The number of the address that holds `value`.
    pub proof fn lemma_spec_new_value(value: u16)
        ensures
            Word::<SIZE>::spec_new(value).spec_value() == value,
    {
    }

    /// The address as a number.
    pub fn value(&self) -> (r: u16)
        ensures
            r == self.spec_value(),
            (r as int) < SIZE as int,
    {
        proof {
            use_type_invariant(self);
        }
        self.0
    }

    /// The next byte address, or `StackOverflow` where it would leave the memory.
    pub fn next(&self) -> (r: Result<Word<SIZE>, Error<SIZE>>)
        ensures
            match r {
                Ok(w) => w.spec_value() == self.spec_value() + 1,
                Err(e) => e == Error::<SIZE>::StackOverflow,
            },
            r is Ok <==> self.spec_value() + 1 < SIZE && self.spec_value() + 1 <= u16::MAX,
    {
        let Some(next) = self.0.checked_add(1) else { return Err(Error::StackOverflow) };
        if next as usize >= SIZE {
            return Err(Error::StackOverflow);
        }
        Ok(Word(next))
    }

    /// The address of the next word (two bytes on), or `StackOverflow`.
    pub fn next_word(&self) -> (r: Result<Word<SIZE>, Error<SIZE>>)
        ensures
            match r {
                Ok(w) => w.spec_value() == self.spec_value() + 2,
                Err(e) => e == Error::<SIZE>::StackOverflow,
            },
            r is Ok <==> self.spec_value() + 2 < SIZE && self.spec_value() + 2 <= u16::MAX,
    {
        let Some(next) = self.0.checked_add(2) else { return Err(Error::StackOverflow) };
        if next as usize >= SIZE {
            return Err(Error::StackOverflow);
        }
        Ok(Word(next))
    }

    /// The previous byte address, or `StackUnderflow` below zero.
    pub fn prev(&self) -> (r: Result<Word<SIZE>, Error<SIZE>>)
        ensures
            match r {
                Ok(w) => w.spec_value() == self.spec_value() - 1,
                Err(e) => e == Error::<SIZE>::StackUnderflow,
            },
            r is Ok <==> self.spec_value() >= 1,
    {
        proof {
            use_type_invariant(self);
        }
        let Some(prev) = self.0.checked_sub(1) else { return Err(Error::StackUnderflow) };
        Ok(Word(prev))
    }

    /// The address of the previous word (two bytes back), or `StackUnderflow`.
    pub fn prev_word(&self) -> (r: Result<Word<SIZE>, Error<SIZE>>)
        ensures
            match r {
                Ok(w) => w.spec_value() == self.spec_value() - 2,
                Err(e) => e == Error::<SIZE>::StackUnderflow,
            },
            r is Ok <==> self.spec_value() >= 2,
    {
        proof {
            use_type_invariant(self);
        }
        let Some(prev) = self.0.checked_sub(2) else { return Err(Error::StackUnderflow) };
        Ok(Word(prev))
    }

    /// The sum of two addresses, or `StackOverflow` where it leaves the memory.
    pub fn add(&self, other: &Word<SIZE>) -> (r: Result<Word<SIZE>, Error<SIZE>>)
        ensures
            match r {
                Ok(w) => w.spec_value() == self.spec_value() + other.spec_value(),
                Err(e) => e == Error::<SIZE>::StackOverflow,
            },
            r is Ok <==> self.spec_value() + other.spec_value() < SIZE && self.spec_value()
                + other.spec_value() <= u16::MAX,
    {
        let Some(sum) = self.0.checked_add(other.0) else { return Err(Error::StackOverflow) };
        if sum as usize >= SIZE {
            return Err(Error::StackOverflow);
        }
        Ok(Word(sum))
    }

    /// The distance from `other` up to this address, or `StackUnderflow` where
    /// `other` lies above it.
    pub fn sub(&self, other: &Word<SIZE>) -> (r: Result<Word<SIZE>, Error<SIZE>>)
        ensures
            match r {
                Ok(w) => w.spec_value() == self.spec_value() - other.spec_value(),
                Err(e) => e == Error::<SIZE>::StackUnderflow,
            },
            r is Ok <==> self.spec_value() >= other.spec_value(),
    {
        proof {
            use_type_invariant(self);
        }
        let Some(diff) = self.0.checked_sub(other.0) else { return Err(Error::StackUnderflow) };
        Ok(Word(diff))
    }

    /// An address from a number, or `InvalidAddress` where it lies outside the memory.
    pub fn try_from(value: u16) -> (r: Result<Word<SIZE>, Error<SIZE>>)
        ensures
            match r {
                Ok(w) => w.spec_value() == value,
                Err(e) => e == Error::<SIZE>::InvalidAddress(value),
            },
            r is Ok <==> (value as int) < SIZE as int,
    {
        if (value as usize) < SIZE {
            Ok(Word(value))
        } else {
            Err(Error::InvalidAddress(value))
        }
    }
}

} // verus!
